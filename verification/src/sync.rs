//! Font variants, the names under which their files are kept, and the
//! manifest they are read from.

use vstd::prelude::*;
use crate::pattern::captures_of;
use crate::pattern::regex_accepts;
use crate::pattern::regex_captures;
use crate::text::join3;
use crate::text::same_text;
use crate::text::single_line;

verus! {

/// The slant of a font variant.
#[derive(Clone, Copy, Debug, PartialEq, Eq, Structural)]
pub enum FontStyle {
    Normal,
    Italic,
}

/// The weight of a font variant, in the nine steps from 100 to 900.
#[derive(Clone, Copy, Debug, PartialEq, Eq, Structural)]
pub enum FontWeight {
    Thin,
    ExtraLight,
    Light,
    Normal,
    Medium,
    SemiBold,
    Bold,
    ExtraBold,
    Black,
}

/// The extension of the font files that are kept on disk.
pub open spec fn font_extension() -> Seq<char> {
    seq!['.', 'o', 't', 'f']
}

impl FontStyle {
    /// The word that a manifest uses for this style.
    pub open spec fn token(self) -> Seq<char> {
        match self {
            FontStyle::Normal => seq!['n', 'o', 'r', 'm', 'a', 'l'],
            FontStyle::Italic => seq!['i', 't', 'a', 'l', 'i', 'c'],
        }
    }

    /// The style that a manifest's word stands for, if it stands for one.
    pub open spec fn of_token(token: Seq<char>) -> Option<FontStyle> {
        if token == FontStyle::Normal.token() {
            Some(FontStyle::Normal)
        } else if token == FontStyle::Italic.token() {
            Some(FontStyle::Italic)
        } else {
            None
        }
    }

    /// The name of the variant, as it is shown to a reader.
    pub open spec fn label(self) -> Seq<char> {
        match self {
            FontStyle::Normal => seq!['N', 'o', 'r', 'm', 'a', 'l'],
            FontStyle::Italic => seq!['I', 't', 'a', 'l', 'i', 'c'],
        }
    }

    /// The manifest's word for this style: `normal` or `italic`.
    pub fn as_token(&self) -> (r: &'static str)
        ensures
            r@ == self.token(),
    {
        proof {
            reveal_strlit("normal");
            reveal_strlit("italic");
        }
        match self {
            FontStyle::Normal => {
                assert("normal"@ =~= FontStyle::Normal.token());
                "normal"
            },
            FontStyle::Italic => {
                assert("italic"@ =~= FontStyle::Italic.token());
                "italic"
            },
        }
    }

    /// Reads a manifest's style word.  Any word but `normal` and `italic`
    /// gives `None`.
    pub fn from_token(token: &str) -> (r: Option<FontStyle>)
        ensures
            r == FontStyle::of_token(token@),
    {
        if same_text(token, FontStyle::Normal.as_token()) {
            Some(FontStyle::Normal)
        } else if same_text(token, FontStyle::Italic.as_token()) {
            Some(FontStyle::Italic)
        } else {
            None
        }
    }

    /// The variant's name as text: `Normal` or `Italic`.
    pub fn to_string(&self) -> (r: String)
        ensures
            r@ == self.label(),
    {
        proof {
            reveal_strlit("Normal");
            reveal_strlit("Italic");
        }
        match self {
            FontStyle::Normal => {
                assert("Normal"@ =~= FontStyle::Normal.label());
                String::from_str("Normal")
            },
            FontStyle::Italic => {
                assert("Italic"@ =~= FontStyle::Italic.label());
                String::from_str("Italic")
            },
        }
    }
}

impl FontWeight {
    /// The number of this weight, from 100 for `Thin` to 900 for `Black`.
    pub open spec fn number(self) -> nat {
        match self {
            FontWeight::Thin => 100,
            FontWeight::ExtraLight => 200,
            FontWeight::Light => 300,
            FontWeight::Normal => 400,
            FontWeight::Medium => 500,
            FontWeight::SemiBold => 600,
            FontWeight::Bold => 700,
            FontWeight::ExtraBold => 800,
            FontWeight::Black => 900,
        }
    }

    /// The first digit of this weight's number.
    pub open spec fn digit(self) -> char {
        match self {
            FontWeight::Thin => '1',
            FontWeight::ExtraLight => '2',
            FontWeight::Light => '3',
            FontWeight::Normal => '4',
            FontWeight::Medium => '5',
            FontWeight::SemiBold => '6',
            FontWeight::Bold => '7',
            FontWeight::ExtraBold => '8',
            FontWeight::Black => '9',
        }
    }

    /// The digits that a manifest writes for this weight: its number in
    /// decimal.
    pub open spec fn token(self) -> Seq<char> {
        seq![self.digit(), '0', '0']
    }

    /// The weight that a manifest's digits stand for, if they stand for one.
    pub open spec fn of_token(token: Seq<char>) -> Option<FontWeight> {
        if token == FontWeight::Thin.token() {
            Some(FontWeight::Thin)
        } else if token == FontWeight::ExtraLight.token() {
            Some(FontWeight::ExtraLight)
        } else if token == FontWeight::Light.token() {
            Some(FontWeight::Light)
        } else if token == FontWeight::Normal.token() {
            Some(FontWeight::Normal)
        } else if token == FontWeight::Medium.token() {
            Some(FontWeight::Medium)
        } else if token == FontWeight::SemiBold.token() {
            Some(FontWeight::SemiBold)
        } else if token == FontWeight::Bold.token() {
            Some(FontWeight::Bold)
        } else if token == FontWeight::ExtraBold.token() {
            Some(FontWeight::ExtraBold)
        } else if token == FontWeight::Black.token() {
            Some(FontWeight::Black)
        } else {
            None
        }
    }

    /// The name of the variant, as it is shown to a reader.
    pub open spec fn label(self) -> Seq<char> {
        match self {
            FontWeight::Thin => seq!['T', 'h', 'i', 'n'],
            FontWeight::ExtraLight => seq!['E', 'x', 't', 'r', 'a', 'L', 'i', 'g', 'h', 't'],
            FontWeight::Light => seq!['L', 'i', 'g', 'h', 't'],
            FontWeight::Normal => seq!['N', 'o', 'r', 'm', 'a', 'l'],
            FontWeight::Medium => seq!['M', 'e', 'd', 'i', 'u', 'm'],
            FontWeight::SemiBold => seq!['S', 'e', 'm', 'i', 'B', 'o', 'l', 'd'],
            FontWeight::Bold => seq!['B', 'o', 'l', 'd'],
            FontWeight::ExtraBold => seq!['E', 'x', 't', 'r', 'a', 'B', 'o', 'l', 'd'],
            FontWeight::Black => seq!['B', 'l', 'a', 'c', 'k'],
        }
    }

    /// This weight's number.
    pub fn value(&self) -> (r: u16)
        ensures
            r == self.number(),
    {
        match self {
            FontWeight::Thin => 100,
            FontWeight::ExtraLight => 200,
            FontWeight::Light => 300,
            FontWeight::Normal => 400,
            FontWeight::Medium => 500,
            FontWeight::SemiBold => 600,
            FontWeight::Bold => 700,
            FontWeight::ExtraBold => 800,
            FontWeight::Black => 900,
        }
    }

    /// The manifest's digits for this weight, `100` to `900`.
    pub fn as_token(&self) -> (r: &'static str)
        ensures
            r@ == self.token(),
    {
        proof {
            reveal_strlit("100");
            reveal_strlit("200");
            reveal_strlit("300");
            reveal_strlit("400");
            reveal_strlit("500");
            reveal_strlit("600");
            reveal_strlit("700");
            reveal_strlit("800");
            reveal_strlit("900");
        }
        let r = match self {
            FontWeight::Thin => "100",
            FontWeight::ExtraLight => "200",
            FontWeight::Light => "300",
            FontWeight::Normal => "400",
            FontWeight::Medium => "500",
            FontWeight::SemiBold => "600",
            FontWeight::Bold => "700",
            FontWeight::ExtraBold => "800",
            FontWeight::Black => "900",
        };
        assert(r@ =~= self.token());
        r
    }

    /// Reads a manifest's weight digits.  Anything but the nine numbers
    /// `100`, `200`, ... `900` gives `None`.
    pub fn from_token(token: &str) -> (r: Option<FontWeight>)
        ensures
            r == FontWeight::of_token(token@),
    {
        if same_text(token, FontWeight::Thin.as_token()) {
            Some(FontWeight::Thin)
        } else if same_text(token, FontWeight::ExtraLight.as_token()) {
            Some(FontWeight::ExtraLight)
        } else if same_text(token, FontWeight::Light.as_token()) {
            Some(FontWeight::Light)
        } else if same_text(token, FontWeight::Normal.as_token()) {
            Some(FontWeight::Normal)
        } else if same_text(token, FontWeight::Medium.as_token()) {
            Some(FontWeight::Medium)
        } else if same_text(token, FontWeight::SemiBold.as_token()) {
            Some(FontWeight::SemiBold)
        } else if same_text(token, FontWeight::Bold.as_token()) {
            Some(FontWeight::Bold)
        } else if same_text(token, FontWeight::ExtraBold.as_token()) {
            Some(FontWeight::ExtraBold)
        } else if same_text(token, FontWeight::Black.as_token()) {
            Some(FontWeight::Black)
        } else {
            None
        }
    }

    /// The variant's name as text, such as `ExtraLight`.
    pub fn to_string(&self) -> (r: String)
        ensures
            r@ == self.label(),
    {
        proof {
            reveal_strlit("Thin");
            reveal_strlit("ExtraLight");
            reveal_strlit("Light");
            reveal_strlit("Normal");
            reveal_strlit("Medium");
            reveal_strlit("SemiBold");
            reveal_strlit("Bold");
            reveal_strlit("ExtraBold");
            reveal_strlit("Black");
        }
        let r = match self {
            FontWeight::Thin => "Thin",
            FontWeight::ExtraLight => "ExtraLight",
            FontWeight::Light => "Light",
            FontWeight::Normal => "Normal",
            FontWeight::Medium => "Medium",
            FontWeight::SemiBold => "SemiBold",
            FontWeight::Bold => "Bold",
            FontWeight::ExtraBold => "ExtraBold",
            FontWeight::Black => "Black",
        };
        assert(r@ =~= self.label());
        String::from_str(r)
    }
}

/// Why a manifest could not be read.
#[derive(Debug, PartialEq, Eq)]
pub enum ManifestError {
    /// The pattern of a font-face block was refused by the matcher.
    Pattern,
    /// A block names a style other than `normal` and `italic`; the word is
    /// kept.
    Style(String),
    /// A block names a weight other than the nine numbers `100` to `900`;
    /// the digits are kept.
    Weight(String),
}

/// What a [`ManifestError`] holds, as mathematical values.
pub enum ManifestErrorView {
    Pattern,
    Style(Seq<char>),
    Weight(Seq<char>),
}

impl View for ManifestError {
    type V = ManifestErrorView;

    open spec fn view(&self) -> ManifestErrorView {
        match self {
            ManifestError::Pattern => ManifestErrorView::Pattern,
            ManifestError::Style(word) => ManifestErrorView::Style(word@),
            ManifestError::Weight(digits) => ManifestErrorView::Weight(digits@),
        }
    }
}

/// One font variant that a manifest publishes: a family in one style and
/// one weight, with the places its three formats can be fetched from.
#[derive(Debug, PartialEq, Eq)]
pub struct TkFont {
    pub name: String,
    pub woff2: String,
    pub woff: String,
    pub opentype: String,
    pub style: FontStyle,
    pub weight: FontWeight,
}

/// What a [`TkFont`] holds, as mathematical values.
pub struct FontView {
    pub name: Seq<char>,
    pub woff2: Seq<char>,
    pub woff: Seq<char>,
    pub opentype: Seq<char>,
    pub style: FontStyle,
    pub weight: FontWeight,
}

impl View for TkFont {
    type V = FontView;

    open spec fn view(&self) -> FontView {
        FontView {
            name: self.name@,
            woff2: self.woff2@,
            woff: self.woff@,
            opentype: self.opentype@,
            style: self.style,
            weight: self.weight,
        }
    }
}

impl DeepView for TkFont {
    type V = FontView;

    open spec fn deep_view(&self) -> FontView {
        self@
    }
}

/// The key of a variant: family, style word and weight digits, joined by
/// hyphens.
pub open spec fn full_name_of(name: Seq<char>, style: FontStyle, weight: FontWeight) -> Seq<char> {
    name + seq!['-'] + style.token() + seq!['-'] + weight.token()
}

impl FontView {
    /// The key of this variant.  Files are matched to variants by it alone.
    pub open spec fn full_name(self) -> Seq<char> {
        full_name_of(self.name, self.style, self.weight)
    }

    /// The name of the file that holds this variant on disk.
    pub open spec fn file_name(self) -> Seq<char> {
        self.full_name() + font_extension()
    }
}

/// The name of the file that holds the variant with the key `full_name`.
pub open spec fn file_name_of(full_name: Seq<char>) -> Seq<char> {
    full_name + font_extension()
}

/// Whether `c` may stand in the name of a file: it is not the slash that
/// parts the steps of a path, and not the character with the number 0.
/// These are the two characters that no name of a file can hold; what else a
/// machine refuses in a name shows when the file is written.
pub open spec fn fit_char(c: char) -> bool {
    c != '/' && c != '\0'
}

/// Whether `name` is fit for the name of a file: each of its characters
/// may stand in one.  No folder holds a file with another name, and no
/// listing gives one.
pub open spec fn fit_for_file(name: Seq<char>) -> bool {
    forall|i: int| 0 <= i < name.len() ==> fit_char(#[trigger] name[i])
}

/// Whether `name` is fit for the name of a file: it holds no `/` and no
/// character with the number 0.
pub fn is_fit_for_file(name: &str) -> (r: bool)
    ensures
        r == fit_for_file(name@),
{
    let n: usize = name.unicode_len();
    let mut i: usize = 0;
    while i < n
        invariant
            i <= n,
            n == name@.len(),
            forall|k: int| 0 <= k < i ==> fit_char(#[trigger] name@[k]),
        decreases n - i,
    {
        let c = name.get_char(i);
        if c == '/' || c == '\0' {
            assert(!fit_char(name@[i as int]));
            return false;
        }
        i += 1;
    }
    true
}

/// A key is fit for the name of a file exactly where the name of its font
/// file is.
pub proof fn lemma_fit_file_name(key: Seq<char>)
    ensures
        fit_for_file(file_name_of(key)) == fit_for_file(key),
{
    let file = file_name_of(key);
    let ext = font_extension();
    if fit_for_file(key) {
        assert forall|i: int| 0 <= i < file.len() implies fit_char(#[trigger] file[i]) by {
            if i < key.len() {
                assert(file[i] == key[i]);
            } else {
                assert(file[i] == ext[i - key.len()]);
            }
        }
    }
    if fit_for_file(file) {
        assert forall|i: int| 0 <= i < key.len() implies fit_char(#[trigger] key[i]) by {
            assert(file[i] == key[i]);
        }
    }
}

/// The name of the file that holds the variant with the key `full_name`.
pub fn font_file_name(full_name: &str) -> (r: String)
    ensures
        r@ == file_name_of(full_name@),
{
    proof {
        reveal_strlit(".otf");
    }
    assert(".otf"@ =~= font_extension());
    let mut out = String::from_str(full_name);
    out.append(".otf");
    out
}

impl TkFont {
    /// The key of this variant, `family-style-weight`, as in
    /// `Acme-italic-700`.
    ///
    /// Two manifest entries with the same family, style and weight have the
    /// same key even where their addresses differ, and so share one file.
    /// Whether such entries ought to be told apart is an open question; as
    /// it is, each is fetched and the one that comes later stays.  The family
    /// is taken as the manifest gives it, so the key need not be
    /// [`fit_for_file`]; a pass writes no file for a key that is not.
    pub fn full_name(&self) -> (r: String)
        ensures
            r@ == self@.full_name(),
    {
        let mut out = join3(self.name.as_str(), "-", self.style.as_token());
        proof {
            reveal_strlit("-");
            assert("-"@ =~= seq!['-']);
        }
        out.append("-");
        out.append(self.weight.as_token());
        out
    }

    /// The name of the file that holds this variant on disk: the key and the
    /// extension `.otf`.
    pub fn file_name(&self) -> (r: String)
        ensures
            r@ == self@.file_name(),
    {
        let key = self.full_name();
        font_file_name(key.as_str())
    }
}

/// The pattern of one font-face block.  Its six groups are, in this order,
/// the family, the addresses of the compressed web format, the web format
/// and the desktop format, the style word and the weight digits.  A text
/// matches it exactly where it is a [`block_text`] of six parts without a
/// line break.
pub const FONT_REGEX: &'static str =
    r#"@font-face \{\nfont-family:"(.*)";\nsrc:url\("(.*)"\) format\("woff2"\),url\("(.*)"\) format\("woff"\),url\("(.*)"\) format\("opentype"\);\nfont-display:auto;font-style:(.*);font-weight:(.*);font-stretch:normal;\n\}"#;

/// The groups of one match: the whole match first, then the groups of the
/// pattern.
pub type Block = Seq<Option<Seq<char>>>;

/// The text of the font-face block with these six parts: five lines, of
/// which the first opens the block, the second names the family, the third
/// gives the three addresses with their formats, the fourth the style and
/// the weight, and the fifth closes the block.
pub open spec fn block_text(
    family: Seq<char>,
    woff2: Seq<char>,
    woff: Seq<char>,
    opentype: Seq<char>,
    style: Seq<char>,
    weight: Seq<char>,
) -> Seq<char> {
    "@font-face {\nfont-family:\""@ + family + "\";\nsrc:url(\""@ + woff2
        + "\") format(\"woff2\"),url(\""@ + woff + "\") format(\"woff\"),url(\""@ + opentype
        + "\") format(\"opentype\");\nfont-display:auto;font-style:"@ + style + ";font-weight:"@
        + weight + ";font-stretch:normal;\n}"@
}

/// Whether a match is a font-face block: it carries its text and six
/// groups, no group holds a line break, and the text is that of the block
/// with the groups as its parts.
pub open spec fn block_well_formed(block: Block) -> bool {
    &&& block.len() == 7
    &&& forall|i: int| 0 <= i < 7 ==> (#[trigger] block[i]) is Some
    &&& forall|i: int| 1 <= i < 7 ==> !(#[trigger] block[i])->0.contains('\n')
    &&& block[0]->0 == block_text(
        block[1]->0,
        block[2]->0,
        block[3]->0,
        block[4]->0,
        block[5]->0,
        block[6]->0,
    )
}

/// What one match stands for: `Ok(None)` where it is no font-face block, an
/// error where its style word or its weight digits are unknown (the style is
/// looked at first), and else the variant.
pub open spec fn font_of_block(block: Block) -> Result<Option<FontView>, ManifestErrorView> {
    if !block_well_formed(block) {
        Ok(None)
    } else {
        match (FontStyle::of_token(block[5]->0), FontWeight::of_token(block[6]->0)) {
            (None, _) => Err(ManifestErrorView::Style(block[5]->0)),
            (Some(_), None) => Err(ManifestErrorView::Weight(block[6]->0)),
            (Some(style), Some(weight)) => Ok(
                Some(
                    FontView {
                        name: block[1]->0,
                        woff2: block[2]->0,
                        woff: block[3]->0,
                        opentype: block[4]->0,
                        style,
                        weight,
                    },
                ),
            ),
        }
    }
}

/// The variants that a run of matches stands for, in the order of the
/// matches.  The first block with an unknown style or weight makes the whole
/// run an error; matches that are no font-face block are passed over.
pub open spec fn fonts_of_blocks(blocks: Seq<Block>) -> Result<Seq<FontView>, ManifestErrorView>
    decreases blocks.len(),
{
    if blocks.len() == 0 {
        Ok(Seq::empty())
    } else {
        match fonts_of_blocks(blocks.drop_last()) {
            Err(e) => Err(e),
            Ok(fonts) => match font_of_block(blocks.last()) {
                Err(e) => Err(e),
                Ok(None) => Ok(fonts),
                Ok(Some(font)) => Ok(fonts.push(font)),
            },
        }
    }
}

/// The variants that the manifest `css` publishes, once its font-face
/// blocks have been found.
pub open spec fn manifest_fonts(css: Seq<char>) -> Result<Seq<FontView>, ManifestErrorView> {
    fonts_of_blocks(regex_captures(FONT_REGEX@, css))
}

/// What reading the manifest `css` gives: the fonts of its blocks where
/// the matcher accepts the pattern of a block, and else the refusal of the
/// pattern.
pub open spec fn manifest_reading(css: Seq<char>) -> Result<Seq<FontView>, ManifestErrorView> {
    if regex_accepts(FONT_REGEX@) {
        manifest_fonts(css)
    } else {
        Err(ManifestErrorView::Pattern)
    }
}

/// What a reading gave, as mathematical values.
pub open spec fn reading(read: Result<Vec<TkFont>, ManifestError>) -> Result<
    Seq<FontView>,
    ManifestErrorView,
> {
    match read {
        Ok(fonts) => Ok(fonts.deep_view()),
        Err(e) => Err(e@),
    }
}

/// The text of the font-face block with these six parts.
pub fn font_face_block(
    family: &str,
    woff2: &str,
    woff: &str,
    opentype: &str,
    style: &str,
    weight: &str,
) -> (r: String)
    ensures
        r@ == block_text(family@, woff2@, woff@, opentype@, style@, weight@),
{
    let mut out = String::from_str("@font-face {\nfont-family:\"");
    out.append(family);
    out.append("\";\nsrc:url(\"");
    out.append(woff2);
    out.append("\") format(\"woff2\"),url(\"");
    out.append(woff);
    out.append("\") format(\"woff\"),url(\"");
    out.append(opentype);
    out.append("\") format(\"opentype\");\nfont-display:auto;font-style:");
    out.append(style);
    out.append(";font-weight:");
    out.append(weight);
    out.append(";font-stretch:normal;\n}");
    out
}

impl TkFont {
    /// Reads one match of the font-face pattern.  The match is held against
    /// the shape of a font-face block first, and passed over where it does
    /// not have it.
    pub fn from_block(block: &Vec<Option<String>>) -> (r: Result<Option<TkFont>, ManifestError>)
        ensures
            match r {
                Ok(Some(font)) => font_of_block(block.deep_view()) == Ok::<
                    Option<FontView>,
                    ManifestErrorView,
                >(Some(font@)),
                Ok(None) => font_of_block(block.deep_view()) == Ok::<
                    Option<FontView>,
                    ManifestErrorView,
                >(None),
                Err(e) => font_of_block(block.deep_view()) == Err::<
                    Option<FontView>,
                    ManifestErrorView,
                >(e@),
            },
    {
        let ghost groups = block.deep_view();
        if block.len() != 7 {
            return Ok(None);
        }
        let mut i: usize = 0;
        while i < 7
            invariant
                i <= 7,
                block.len() == 7,
                groups == block.deep_view(),
                forall|k: int| 0 <= k < i ==> (#[trigger] groups[k]) is Some,
                forall|k: int| 1 <= k < i ==> !(#[trigger] groups[k])->0.contains('\n'),
            decreases 7 - i,
        {
            match &block[i] {
                None => {
                    assert(groups[i as int] is None);
                    return Ok(None);
                },
                Some(group) => {
                    assert(groups[i as int] == Some(group@));
                    if i >= 1 && !single_line(group.as_str()) {
                        return Ok(None);
                    }
                },
            }
            i += 1;
        }
        let whole = block[0].as_ref().unwrap();
        assert(groups[0]->0 == whole@);
        let name = block[1].as_ref().unwrap();
        let woff2 = block[2].as_ref().unwrap();
        let woff = block[3].as_ref().unwrap();
        let opentype = block[4].as_ref().unwrap();
        let style_word = block[5].as_ref().unwrap();
        let weight_digits = block[6].as_ref().unwrap();
        assert(groups[1]->0 == name@ && groups[2]->0 == woff2@ && groups[3]->0 == woff@);
        assert(groups[4]->0 == opentype@ && groups[5]->0 == style_word@ && groups[6]->0
            == weight_digits@);
        let text = font_face_block(
            name.as_str(),
            woff2.as_str(),
            woff.as_str(),
            opentype.as_str(),
            style_word.as_str(),
            weight_digits.as_str(),
        );
        if !same_text(whole.as_str(), text.as_str()) {
            return Ok(None);
        }
        assert(block_well_formed(groups));
        let style = match FontStyle::from_token(style_word.as_str()) {
            Some(style) => style,
            None => {
                return Err(ManifestError::Style(style_word.clone()));
            },
        };
        let weight = match FontWeight::from_token(weight_digits.as_str()) {
            Some(weight) => weight,
            None => {
                return Err(ManifestError::Weight(weight_digits.clone()));
            },
        };
        Ok(
            Some(
                TkFont {
                    name: name.clone(),
                    woff2: woff2.clone(),
                    woff: woff.clone(),
                    opentype: opentype.clone(),
                    style,
                    weight,
                },
            ),
        )
    }

    /// Reads the matches of the font-face pattern, in their order.
    ///
    /// The result is an error exactly where some match names an unknown
    /// style or weight; the first such match gives the error.
    pub fn from_blocks(blocks: &Vec<Vec<Option<String>>>) -> (r: Result<Vec<TkFont>, ManifestError>)
        ensures
            match r {
                Ok(fonts) => fonts_of_blocks(blocks.deep_view()) == Ok::<
                    Seq<FontView>,
                    ManifestErrorView,
                >(fonts.deep_view()),
                Err(e) => fonts_of_blocks(blocks.deep_view()) == Err::<
                    Seq<FontView>,
                    ManifestErrorView,
                >(e@),
            },
    {
        let ghost all = blocks.deep_view();
        let mut fonts: Vec<TkFont> = Vec::new();
        let mut i: usize = 0;
        assert(all.take(0) =~= Seq::empty());
        assert(fonts.deep_view() =~= Seq::empty());
        while i < blocks.len()
            invariant
                i <= blocks.len(),
                all == blocks.deep_view(),
                fonts_of_blocks(all.take(i as int)) == Ok::<Seq<FontView>, ManifestErrorView>(
                    fonts.deep_view(),
                ),
            decreases blocks.len() - i,
        {
            let ghost before = fonts.deep_view();
            proof {
                assert(all.take(i + 1).drop_last() =~= all.take(i as int));
                assert(all.take(i + 1).last() == blocks[i as int].deep_view());
            }
            match TkFont::from_block(&blocks[i]) {
                Err(e) => {
                    proof {
                        lemma_error_stays(all, i + 1);
                    }
                    return Err(e);
                },
                Ok(None) => {},
                Ok(Some(font)) => {
                    fonts.push(font);
                    assert(fonts.deep_view() =~= before.push(font@));
                },
            }
            i += 1;
        }
        assert(all.take(i as int) =~= all);
        Ok(fonts)
    }

    /// Whether the matcher accepts the pattern of a font-face block, and so
    /// whether [`TkFont::parse_css`] gives anything but the refusal of the
    /// pattern.
    pub fn pattern_accepted() -> (r: bool)
        ensures
            r == regex_accepts(FONT_REGEX@),
    {
        captures_of(FONT_REGEX, "").is_ok()
    }

    /// Reads a manifest: finds its font-face blocks and reads each.
    ///
    /// Text that is no font-face block is passed over.  A block with a style
    /// other than `normal` and `italic`, or a weight other than `100` to
    /// `900`, makes the whole manifest an error.  The blocks are found by
    /// the matcher; only where it refuses the pattern of a block is the
    /// result that refusal.  [`TkFont::from_blocks`] says what is made of
    /// what the matcher finds, and reads nothing that is no font-face block.
    pub fn parse_css(css: &str) -> (r: Result<Vec<TkFont>, ManifestError>)
        ensures
            reading(r) == manifest_reading(css@),
    {
        match captures_of(FONT_REGEX, css) {
            Ok(blocks) => TkFont::from_blocks(&blocks),
            Err(_) => Err(ManifestError::Pattern),
        }
    }
}

/// Reading a manifest twice gives the same.  Two readings of one text
/// are equal: both are errors, and then the same error, or both give fonts,
/// and then the same fonts, of the same number and in the same order, each
/// with the same family, addresses, style and weight.
pub proof fn reading_is_deterministic(
    css: Seq<char>,
    first: Result<Seq<FontView>, ManifestErrorView>,
    second: Result<Seq<FontView>, ManifestErrorView>,
)
    requires
        first == manifest_reading(css),
        second == manifest_reading(css),
    ensures
        first == second,
        first matches Ok(fonts) ==> second is Ok && fonts.len() == second->Ok_0.len() && forall|
            i: int,
        |
            0 <= i < fonts.len() ==> fonts[i] == second->Ok_0[i],
{
}

impl FontView {
    /// The text of the font-face block that publishes this variant.
    pub open spec fn block(self) -> Seq<char> {
        block_text(
            self.name,
            self.woff2,
            self.woff,
            self.opentype,
            self.style.token(),
            self.weight.token(),
        )
    }
}

/// Whether the text of some match of `blocks` is the font-face block that
/// publishes `font`.
pub open spec fn has_block(blocks: Seq<Block>, font: FontView) -> bool {
    exists|i: int|
        0 <= i < blocks.len() && (#[trigger] blocks[i]).len() == 7 && blocks[i][0] == Some(
            font.block(),
        )
}

/// A match that is read as a variant is the font-face block that publishes
/// just that variant.
pub proof fn lemma_block_of_font(block: Block)
    ensures
        font_of_block(block) matches Ok(Some(font)) ==> block.len() == 7 && block[0] == Some(
            font.block(),
        ),
{
    if let Ok(Some(font)) = font_of_block(block) {
        assert(block[5] is Some && block[6] is Some && block[0] is Some);
        assert(block[5]->0 == font.style.token());
        assert(block[6]->0 == font.weight.token());
        assert(block[0]->0 == font.block());
    }
}

/// Nothing is read that is not there.  Each variant that a run of matches
/// gives is published by one of the matches: the text of that match is the
/// font-face block of the variant, with its family, its three addresses, its
/// style word and its weight digits in their places.
pub proof fn every_font_has_its_block(blocks: Seq<Block>)
    ensures
        fonts_of_blocks(blocks) matches Ok(fonts) ==> forall|k: int|
            0 <= k < fonts.len() ==> has_block(blocks, #[trigger] fonts[k]),
    decreases blocks.len(),
{
    if blocks.len() > 0 {
        let front = blocks.drop_last();
        every_font_has_its_block(front);
        lemma_block_of_font(blocks.last());
        if let Ok(fonts) = fonts_of_blocks(blocks) {
            let before = fonts_of_blocks(front)->Ok_0;
            assert forall|k: int| 0 <= k < fonts.len() implies has_block(
                blocks,
                #[trigger] fonts[k],
            ) by {
                if k < before.len() {
                    assert(fonts[k] == before[k]);
                    let i = choose|i: int|
                        0 <= i < front.len() && (#[trigger] front[i]).len() == 7 && front[i][0]
                            == Some(before[k].block());
                    assert(blocks[i] == front[i]);
                } else {
                    assert(blocks[blocks.len() - 1] == blocks.last());
                }
            }
        }
    }
}

/// Whether the match at place `i` is the first of `blocks` that is an
/// error, and `e` is its error.
pub open spec fn first_bad_block(blocks: Seq<Block>, i: int, e: ManifestErrorView) -> bool {
    &&& 0 <= i < blocks.len()
    &&& font_of_block(blocks[i]) == Err::<Option<FontView>, ManifestErrorView>(e)
    &&& forall|j: int| 0 <= j < i ==> font_of_block(#[trigger] blocks[j]) is Ok
}

/// A run of matches is an error exactly where one of them is, and the error
/// is that of the first such match.  Where none is, every match was read.
pub proof fn manifest_error_is_first_bad_block(blocks: Seq<Block>)
    ensures
        match fonts_of_blocks(blocks) {
            Err(e) => exists|i: int| first_bad_block(blocks, i, e),
            Ok(fonts) => fonts.len() <= blocks.len() && forall|i: int|
                0 <= i < blocks.len() ==> font_of_block(#[trigger] blocks[i]) is Ok,
        },
    decreases blocks.len(),
{
    if blocks.len() > 0 {
        let front = blocks.drop_last();
        manifest_error_is_first_bad_block(front);
        match fonts_of_blocks(front) {
            Err(e) => {
                let i = choose|i: int| first_bad_block(front, i, e);
                assert(blocks[i] == front[i]);
                assert forall|j: int| 0 <= j < i implies font_of_block(#[trigger] blocks[j]) is Ok by {
                    assert(blocks[j] == front[j]);
                }
                assert(first_bad_block(blocks, i, e));
            },
            Ok(fonts) => {
                assert forall|j: int| 0 <= j < front.len() implies font_of_block(
                    #[trigger] blocks[j],
                ) is Ok by {
                    assert(blocks[j] == front[j]);
                }
                match font_of_block(blocks.last()) {
                    Err(e) => {
                        assert(first_bad_block(blocks, blocks.len() - 1, e));
                    },
                    Ok(_) => {},
                }
            },
        }
    }
}

/// Once a run of matches is an error, it stays that error however many
/// matches follow.
pub proof fn lemma_error_stays(blocks: Seq<Block>, n: int)
    requires
        0 <= n <= blocks.len(),
        fonts_of_blocks(blocks.take(n)) is Err,
    ensures
        fonts_of_blocks(blocks) == fonts_of_blocks(blocks.take(n)),
    decreases blocks.len() - n,
{
    if n == blocks.len() {
        assert(blocks.take(n) =~= blocks);
    } else {
        assert(blocks.take(n + 1).drop_last() =~= blocks.take(n));
        lemma_error_stays(blocks, n + 1);
    }
}

/// The key tells the variant: two variants with the same key have the same
/// family, the same style and the same weight.
pub proof fn full_name_injective(
    name1: Seq<char>,
    style1: FontStyle,
    weight1: FontWeight,
    name2: Seq<char>,
    style2: FontStyle,
    weight2: FontWeight,
)
    requires
        full_name_of(name1, style1, weight1) == full_name_of(name2, style2, weight2),
    ensures
        name1 == name2,
        style1 == style2,
        weight1 == weight2,
{
    let a = full_name_of(name1, style1, weight1);
    let b = full_name_of(name2, style2, weight2);
    assert(a.len() == name1.len() + 11);
    assert(b.len() == name2.len() + 11);
    let n = name1.len() as int;
    assert(a[n + 1] == style1.token()[0]);
    assert(b[n + 1] == style2.token()[0]);
    assert(a[n + 8] == weight1.digit());
    assert(b[n + 8] == weight2.digit());
    assert forall|i: int| 0 <= i < n implies name1[i] == name2[i] by {
        assert(a[i] == name1[i]);
        assert(b[i] == name2[i]);
    }
    assert(name1 =~= name2);
}

} // verus!
