use tksync::sync::font_file_name;
use tksync::sync::FontStyle;
use tksync::sync::FontWeight;
use tksync::sync::TkFont;

fn font(name: &str, style: FontStyle, weight: FontWeight) -> TkFont {
    TkFont {
        name: name.to_string(),
        woff2: "https://fonts.example/w2".to_string(),
        woff: "https://fonts.example/w".to_string(),
        opentype: "https://fonts.example/o".to_string(),
        style,
        weight,
    }
}

#[test]
fn full_name_joins_family_style_and_weight() {
    assert_eq!(font("Acme", FontStyle::Normal, FontWeight::Normal).full_name(), "Acme-normal-400");
    assert_eq!(font("Acme", FontStyle::Italic, FontWeight::Bold).full_name(), "Acme-italic-700");
}

#[test]
fn full_name_keeps_the_family_as_it_is() {
    assert_eq!(
        font("proxima-nova", FontStyle::Normal, FontWeight::Thin).full_name(),
        "proxima-nova-normal-100"
    );
    assert_eq!(font("", FontStyle::Italic, FontWeight::Black).full_name(), "-italic-900");
    assert_eq!(
        font("Mr Eaves XL", FontStyle::Normal, FontWeight::Light).full_name(),
        "Mr Eaves XL-normal-300"
    );
}

#[test]
fn file_name_adds_the_extension() {
    assert_eq!(font("Acme", FontStyle::Normal, FontWeight::Normal).file_name(), "Acme-normal-400.otf");
    assert_eq!(font_file_name("Acme-bold-900"), "Acme-bold-900.otf");
    assert_eq!(font_file_name(""), ".otf");
}

#[test]
fn full_names_differ_where_variants_differ() {
    let styles = [FontStyle::Normal, FontStyle::Italic];
    let weights = [
        FontWeight::Thin,
        FontWeight::ExtraLight,
        FontWeight::Light,
        FontWeight::Normal,
        FontWeight::Medium,
        FontWeight::SemiBold,
        FontWeight::Bold,
        FontWeight::ExtraBold,
        FontWeight::Black,
    ];
    let families = ["Acme", "Acme-normal", "Acme-normal-400", "A"];
    let mut seen: Vec<String> = Vec::new();
    for family in families {
        for style in styles {
            for weight in weights {
                let name = font(family, style, weight).full_name();
                assert!(!seen.contains(&name), "{} came twice", name);
                seen.push(name);
            }
        }
    }
    assert_eq!(seen.len(), 4 * 2 * 9);
}

#[test]
fn style_tokens() {
    assert_eq!(FontStyle::from_token("normal"), Some(FontStyle::Normal));
    assert_eq!(FontStyle::from_token("italic"), Some(FontStyle::Italic));
    assert_eq!(FontStyle::from_token("oblique"), None);
    assert_eq!(FontStyle::from_token("Normal"), None);
    assert_eq!(FontStyle::from_token(""), None);
    assert_eq!(FontStyle::from_token(" normal"), None);
    assert_eq!(FontStyle::Normal.as_token(), "normal");
    assert_eq!(FontStyle::Italic.as_token(), "italic");
}

#[test]
fn weight_tokens() {
    let all = [
        ("100", FontWeight::Thin, 100u16),
        ("200", FontWeight::ExtraLight, 200),
        ("300", FontWeight::Light, 300),
        ("400", FontWeight::Normal, 400),
        ("500", FontWeight::Medium, 500),
        ("600", FontWeight::SemiBold, 600),
        ("700", FontWeight::Bold, 700),
        ("800", FontWeight::ExtraBold, 800),
        ("900", FontWeight::Black, 900),
    ];
    for (token, weight, value) in all {
        assert_eq!(FontWeight::from_token(token), Some(weight));
        assert_eq!(weight.as_token(), token);
        assert_eq!(weight.value(), value);
    }
    assert_eq!(FontWeight::from_token("350"), None);
    assert_eq!(FontWeight::from_token("1000"), None);
    assert_eq!(FontWeight::from_token("0"), None);
    assert_eq!(FontWeight::from_token("bold"), None);
    assert_eq!(FontWeight::from_token("400 "), None);
    assert_eq!(FontWeight::from_token(""), None);
}

#[test]
fn labels_are_the_variant_names() {
    assert_eq!(FontStyle::Normal.to_string(), "Normal");
    assert_eq!(FontStyle::Italic.to_string(), "Italic");
    assert_eq!(FontWeight::Thin.to_string(), "Thin");
    assert_eq!(FontWeight::ExtraLight.to_string(), "ExtraLight");
    assert_eq!(FontWeight::Light.to_string(), "Light");
    assert_eq!(FontWeight::Normal.to_string(), "Normal");
    assert_eq!(FontWeight::Medium.to_string(), "Medium");
    assert_eq!(FontWeight::SemiBold.to_string(), "SemiBold");
    assert_eq!(FontWeight::Bold.to_string(), "Bold");
    assert_eq!(FontWeight::ExtraBold.to_string(), "ExtraBold");
    assert_eq!(FontWeight::Black.to_string(), "Black");
}
