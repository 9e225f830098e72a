//! What a listing of a project's folder says of the fonts that are there.

use vstd::prelude::*;
use crate::sync::font_extension;
use crate::text::has_suffix;
use crate::text::lemma_push_holds;
use crate::text::strip_tail;

verus! {

/// What kind of thing a listed entry is.
#[derive(Clone, Copy, Debug, PartialEq, Eq, Structural)]
pub enum EntryKind {
    /// A regular file.
    File,
    /// Anything else: a directory, a link, a device.
    Other,
    /// The entry, or its kind, could not be read.
    Unknown,
}

/// One entry of a listing: its name, where the name is text, and its kind.
#[derive(Debug, PartialEq, Eq)]
pub struct ScanEntry {
    pub name: Option<String>,
    pub kind: EntryKind,
}

/// What a [`ScanEntry`] holds, as mathematical values.
pub struct ScanEntryView {
    pub name: Option<Seq<char>>,
    pub kind: EntryKind,
}

impl View for ScanEntry {
    type V = ScanEntryView;

    open spec fn view(&self) -> ScanEntryView {
        ScanEntryView {
            name: match self.name {
                Some(name) => Some(name@),
                None => None,
            },
            kind: self.kind,
        }
    }
}

impl DeepView for ScanEntry {
    type V = ScanEntryView;

    open spec fn deep_view(&self) -> ScanEntryView {
        self@
    }
}

/// The key of the variant that a file named `file` holds: the name without
/// the font extension, or `None` where the name does not end with it.
pub open spec fn stem_of(file: Seq<char>) -> Option<Seq<char>> {
    if has_suffix(file, font_extension()) {
        Some(file.subrange(0, file.len() - font_extension().len()))
    } else {
        None
    }
}

/// The key of the variant that an entry holds.  Only a regular file whose
/// name is text and ends with the font extension holds one.
pub open spec fn font_of_entry(entry: ScanEntryView) -> Option<Seq<char>> {
    if entry.kind == EntryKind::File && entry.name is Some {
        stem_of(entry.name->0)
    } else {
        None
    }
}

/// Whether some entry of the listing could not be read.
pub open spec fn unreadable(entries: Seq<ScanEntryView>) -> bool {
    exists|i: int| 0 <= i < entries.len() && (#[trigger] entries[i]).kind == EntryKind::Unknown
}

/// The keys of the variants that the listed entries hold, in the order of
/// the listing.
pub open spec fn fonts_present(entries: Seq<ScanEntryView>) -> Seq<Seq<char>>
    decreases entries.len(),
{
    if entries.len() == 0 {
        Seq::empty()
    } else {
        let front = fonts_present(entries.drop_last());
        match font_of_entry(entries.last()) {
            Some(name) => front.push(name),
            None => front,
        }
    }
}

/// The key of the variant that a file named `file` holds, if its name ends
/// with `.otf`.
pub fn font_stem(file: &str) -> (r: Option<String>)
    ensures
        r.deep_view() == stem_of(file@),
{
    proof {
        reveal_strlit(".otf");
        assert(".otf"@ =~= font_extension());
    }
    let r = strip_tail(file, ".otf");
    proof {
        if r is Some {
            let n = file@.len() - font_extension().len();
            assert(r->0@ =~= file@.subrange(0, n));
        }
    }
    r
}

/// Reads a listing: the keys of the variants that are present, in the order
/// of the listing.
///
/// Entries that are no regular file, whose name is no text or does not end
/// with `.otf` are passed over.  One entry that could not be read makes the
/// whole listing unreadable, and the result `None`.
pub fn scan(entries: &Vec<ScanEntry>) -> (r: Option<Vec<String>>)
    ensures
        r is None <==> unreadable(entries.deep_view()),
        r matches Some(names) ==> names.deep_view() == fonts_present(entries.deep_view()),
{
    let ghost all = entries.deep_view();
    let mut names: Vec<String> = Vec::new();
    let mut i: usize = 0;
    assert(all.take(0) =~= Seq::empty());
    assert(names.deep_view() =~= Seq::empty());
    while i < entries.len()
        invariant
            i <= entries.len(),
            all == entries.deep_view(),
            names.deep_view() == fonts_present(all.take(i as int)),
            forall|k: int| 0 <= k < i ==> (#[trigger] all[k]).kind != EntryKind::Unknown,
        decreases entries.len() - i,
    {
        let entry = &entries[i];
        let ghost before = names.deep_view();
        proof {
            assert(all.take(i + 1).drop_last() =~= all.take(i as int));
            assert(all.take(i + 1).last() == entry@);
            assert(all[i as int] == entry@);
        }
        match entry.kind {
            EntryKind::Unknown => {
                return None;
            },
            EntryKind::Other => {},
            EntryKind::File => {
                if let Some(file) = &entry.name {
                    if let Some(stem) = font_stem(file.as_str()) {
                        names.push(stem);
                        assert(names.deep_view() =~= before.push(stem@));
                    }
                }
            },
        }
        i += 1;
    }
    assert(all.take(i as int) =~= all);
    Some(names)
}

/// Whether some entry of the listing holds the font with the key `name`.
pub open spec fn lists_font(entries: Seq<ScanEntryView>, name: Seq<char>) -> bool {
    exists|i: int|
        0 <= i < entries.len() && font_of_entry(#[trigger] entries[i]) == Some(name)
}

/// A file holds the font with the key `name` exactly where its name is the
/// key followed by the font extension.
pub proof fn lemma_stem(file: Seq<char>, name: Seq<char>)
    ensures
        stem_of(file) == Some(name) <==> file == name + font_extension(),
{
    let ext = font_extension();
    if stem_of(file) == Some(name) {
        assert(file =~= name + ext);
    }
    if file == name + ext {
        assert(file.subrange(file.len() - ext.len(), file.len() as int) =~= ext);
        assert(file.subrange(0, file.len() - ext.len()) =~= name);
    }
}

/// The fonts that a listing gives are those that its entries hold: a key is
/// among them exactly where some regular file of the listing is named by the
/// key and the font extension.  Nothing else of the listing is looked at.
pub proof fn lemma_present_holds(entries: Seq<ScanEntryView>, name: Seq<char>)
    ensures
        fonts_present(entries).contains(name) <==> lists_font(entries, name),
    decreases entries.len(),
{
    if entries.len() > 0 {
        let front = entries.drop_last();
        let last = entries.last();
        lemma_present_holds(front, name);
        if lists_font(entries, name) {
            let i = choose|i: int|
                0 <= i < entries.len() && font_of_entry(#[trigger] entries[i]) == Some(name);
            if i < front.len() {
                assert(front[i] == entries[i]);
                assert(lists_font(front, name));
            }
        }
        if lists_font(front, name) {
            let i = choose|i: int|
                0 <= i < front.len() && font_of_entry(#[trigger] front[i]) == Some(name);
            assert(entries[i] == front[i]);
        }
        if font_of_entry(last) == Some(name) {
            assert(entries[entries.len() - 1] == last);
        }
        match font_of_entry(last) {
            Some(found) => {
                lemma_push_holds(fonts_present(front), found, name);
            },
            None => {},
        }
    }
}

} // verus!
