use tksync::scan::font_stem;
use tksync::scan::scan;
use tksync::scan::EntryKind;
use tksync::scan::ScanEntry;
use tksync::text::holds_text;
use tksync::text::join3;
use tksync::text::same_text;
use tksync::text::single_line;
use tksync::text::strip_tail;

fn file(name: &str) -> ScanEntry {
    ScanEntry { name: Some(name.to_string()), kind: EntryKind::File }
}

#[test]
fn font_stem_strips_the_extension() {
    assert_eq!(font_stem("Acme-normal-400.otf"), Some("Acme-normal-400".to_string()));
    assert_eq!(font_stem("Acme-bold-900.otf"), Some("Acme-bold-900".to_string()));
    assert_eq!(font_stem("a.otf.otf"), Some("a.otf".to_string()));
    assert_eq!(font_stem(".otf"), Some("".to_string()));
    assert_eq!(font_stem("Gr\u{00fc}n-italic-300.otf"), Some("Gr\u{00fc}n-italic-300".to_string()));
}

#[test]
fn font_stem_of_other_names_is_none() {
    assert_eq!(font_stem("notes.txt"), None);
    assert_eq!(font_stem("Acme-normal-400.OTF"), None);
    assert_eq!(font_stem("Acme-normal-400.otf.bak"), None);
    assert_eq!(font_stem("Acme-normal-400otf"), None);
    assert_eq!(font_stem("otf"), None);
    assert_eq!(font_stem(""), None);
    assert_eq!(font_stem("Acme-normal-400.ttf"), None);
}

#[test]
fn scan_keeps_the_fonts_in_the_order_of_the_listing() {
    let entries = vec![
        file("Beta-italic-700.otf"),
        file("readme.md"),
        file("Acme-normal-400.otf"),
        ScanEntry { name: Some("Nested-normal-400.otf".to_string()), kind: EntryKind::Other },
        ScanEntry { name: None, kind: EntryKind::File },
        ScanEntry { name: None, kind: EntryKind::Other },
        file("Acme-bold-900.otf"),
    ];
    assert_eq!(
        scan(&entries),
        Some(vec![
            "Beta-italic-700".to_string(),
            "Acme-normal-400".to_string(),
            "Acme-bold-900".to_string(),
        ])
    );
}

#[test]
fn scan_lists_every_regular_font_file_whatever_its_name() {
    let entries = vec![
        file("a:b.otf"),
        file("a:b-normal-400.otf"),
        file("back\\slash-normal-400.otf"),
        file("Acme-normal-400.otf"),
        file(" .otf"),
    ];
    assert_eq!(
        scan(&entries),
        Some(vec![
            "a:b".to_string(),
            "a:b-normal-400".to_string(),
            "back\\slash-normal-400".to_string(),
            "Acme-normal-400".to_string(),
            " ".to_string(),
        ])
    );
}

#[test]
fn scan_of_an_empty_listing_is_empty() {
    assert_eq!(scan(&Vec::new()), Some(Vec::new()));
}

#[test]
fn scan_fails_on_an_entry_that_could_not_be_read() {
    let last = vec![file("Acme-normal-400.otf"), ScanEntry { name: None, kind: EntryKind::Unknown }];
    assert_eq!(scan(&last), None);
    let first = vec![
        ScanEntry { name: Some("Acme-normal-400.otf".to_string()), kind: EntryKind::Unknown },
        file("Beta-italic-700.otf"),
    ];
    assert_eq!(scan(&first), None);
    let no_font = vec![ScanEntry { name: Some("notes.txt".to_string()), kind: EntryKind::Unknown }];
    assert_eq!(scan(&no_font), None);
}

#[test]
fn text_helpers() {
    assert!(same_text("abc", "abc"));
    assert!(!same_text("abc", "abd"));
    assert!(!same_text("abc", "ab"));
    assert!(same_text("", ""));
    assert_eq!(join3("a", "-", "b"), "a-b");
    assert_eq!(join3("", "", ""), "");
    assert_eq!(strip_tail("hello.otf", ".otf"), Some("hello".to_string()));
    assert_eq!(strip_tail("hello", "hello"), Some("".to_string()));
    assert_eq!(strip_tail("hello", ""), Some("hello".to_string()));
    assert_eq!(strip_tail("lo", "hello"), None);
    assert_eq!(strip_tail("hello", "hell"), None);
    let names = vec!["a".to_string(), "b".to_string()];
    assert!(holds_text(&names, "b"));
    assert!(!holds_text(&names, "c"));
    assert!(!holds_text(&Vec::new(), ""));
    assert!(single_line("one line"));
    assert!(single_line(""));
    assert!(!single_line("two\nlines"));
    assert!(!single_line("\n"));
    assert!(single_line("carriage\rreturn"));
}
