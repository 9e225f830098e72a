use std::collections::BTreeSet;
use tksync::reconcile::count_unsaved;
use tksync::reconcile::Download;
use tksync::reconcile::FontOutcome;
use tksync::reconcile::Pass;
use tksync::reconcile::PassAction;
use tksync::reconcile::PassEvent;
use tksync::reconcile::Stage;
use tksync::reconcile::STATUS_OK;
use tksync::sync::is_fit_for_file;
use tksync::sync::FontStyle;
use tksync::sync::FontWeight;
use tksync::sync::TkFont;

fn font(name: &str, style: FontStyle, weight: FontWeight, opentype: &str) -> TkFont {
    TkFont {
        name: name.to_string(),
        woff2: format!("{}.woff2", opentype),
        woff: format!("{}.woff", opentype),
        opentype: opentype.to_string(),
        style,
        weight,
    }
}

fn acme() -> Vec<TkFont> {
    vec![
        font("Acme", FontStyle::Normal, FontWeight::Normal, "A"),
        font("Acme", FontStyle::Italic, FontWeight::Bold, "B"),
    ]
}

fn names(items: &[&str]) -> Vec<String> {
    items.iter().map(|s| s.to_string()).collect()
}

fn stems(folder: &BTreeSet<String>) -> Vec<String> {
    folder.iter().filter_map(|f| f.strip_suffix(".otf")).map(|s| s.to_string()).collect()
}

/// Runs the pass against a folder and a set of addresses that answer; gives
/// the actions in the order in which they were asked for.
fn run(pass: &mut Pass, folder: &mut BTreeSet<String>, reachable: &[&str]) -> Vec<PassAction> {
    let mut log = Vec::new();
    loop {
        let action = pass.action();
        let event = match &action {
            PassAction::Delete(file) => {
                if folder.remove(file) {
                    PassEvent::Deleted
                } else {
                    PassEvent::DeleteFailed
                }
            }
            PassAction::Fetch(url) => {
                if reachable.contains(&url.as_str()) {
                    PassEvent::Fetched(200)
                } else {
                    PassEvent::FetchFailed
                }
            }
            PassAction::Write(file) => {
                folder.insert(file.clone());
                PassEvent::Written
            }
            PassAction::Skip(_) => PassEvent::Skipped,
            PassAction::Stop => break,
        };
        log.push(action);
        pass.step(event);
    }
    log
}

#[test]
fn plan_deletes_the_stale_and_fetches_the_missing() {
    let pass = Pass::new(&acme(), &names(&["Acme-bold-900", "Acme-normal-400", "Old-italic-100"]));
    assert_eq!(pass.deletions(), &names(&["Acme-bold-900", "Old-italic-100"]));
    assert_eq!(
        pass.downloads(),
        &vec![Download { name: "Acme-italic-700".to_string(), url: "B".to_string() }]
    );
    assert_eq!(pass.stage(), Stage::Deleting);
    assert_eq!(pass.deleted(), 0);
    assert!(pass.outcomes().is_empty());
    assert!(!pass.is_over());
}

#[test]
fn plan_for_an_empty_manifest_deletes_every_font() {
    let pass = Pass::new(&Vec::new(), &names(&["Acme-normal-400", "Beta-italic-700"]));
    assert_eq!(pass.deletions(), &names(&["Acme-normal-400", "Beta-italic-700"]));
    assert!(pass.downloads().is_empty());
}

#[test]
fn plan_for_nothing_is_finished() {
    let pass = Pass::new(&Vec::new(), &Vec::new());
    assert_eq!(pass.stage(), Stage::Finished);
    assert_eq!(pass.action(), PassAction::Stop);
    assert!(pass.is_over());
}

#[test]
fn stale_file_is_deleted_and_missing_fonts_are_fetched() {
    let mut folder: BTreeSet<String> = BTreeSet::new();
    folder.insert("Acme-bold-900.otf".to_string());
    let mut pass = Pass::new(&acme(), &stems(&folder));
    let log = run(&mut pass, &mut folder, &["A", "B"]);
    assert_eq!(
        log,
        vec![
            PassAction::Delete("Acme-bold-900.otf".to_string()),
            PassAction::Fetch("A".to_string()),
            PassAction::Write("Acme-normal-400.otf".to_string()),
            PassAction::Fetch("B".to_string()),
            PassAction::Write("Acme-italic-700.otf".to_string()),
        ]
    );
    assert_eq!(pass.stage(), Stage::Finished);
    assert_eq!(pass.outcomes(), &vec![FontOutcome::Saved, FontOutcome::Saved]);
    let left: Vec<&str> = folder.iter().map(|s| s.as_str()).collect();
    assert_eq!(left, vec!["Acme-italic-700.otf", "Acme-normal-400.otf"]);
}

#[test]
fn second_run_does_nothing() {
    let mut folder: BTreeSet<String> = BTreeSet::new();
    let mut first = Pass::new(&acme(), &stems(&folder));
    let log = run(&mut first, &mut folder, &["A", "B"]);
    assert_eq!(log.len(), 4);
    let after_first = folder.clone();
    assert_eq!(after_first.len(), 2);
    let mut second = Pass::new(&acme(), &stems(&folder));
    assert!(second.deletions().is_empty());
    assert!(second.downloads().is_empty());
    assert_eq!(second.stage(), Stage::Finished);
    let log = run(&mut second, &mut folder, &[]);
    assert!(log.is_empty());
    assert_eq!(folder, after_first);
}

#[test]
fn folder_holds_exactly_the_desired_fonts_after_a_pass() {
    let starts: [&[&str]; 4] = [
        &[],
        &["Acme-normal-400.otf"],
        &["Acme-normal-400.otf", "Acme-italic-700.otf", "Zed-normal-100.otf"],
        &["Acme-normal-400.otf", "notes.txt", "Old-italic-900.otf"],
    ];
    for start in starts {
        let mut folder: BTreeSet<String> = start.iter().map(|s| s.to_string()).collect();
        let mut pass = Pass::new(&acme(), &stems(&folder));
        run(&mut pass, &mut folder, &["A", "B"]);
        let fonts: BTreeSet<String> = stems(&folder).into_iter().collect();
        let wanted: BTreeSet<String> = acme().iter().map(|f| f.full_name()).collect();
        assert_eq!(fonts, wanted);
        assert_eq!(folder.contains("notes.txt"), start.contains(&"notes.txt"));
    }
}

#[test]
fn every_deletion_comes_before_the_first_fetch() {
    let mut folder: BTreeSet<String> =
        ["Old-normal-100.otf", "Older-italic-200.otf", "Oldest-normal-300.otf"].iter().map(|s| s.to_string()).collect();
    let mut pass = Pass::new(&acme(), &stems(&folder));
    let log = run(&mut pass, &mut folder, &["A", "B"]);
    let first_fetch = log.iter().position(|a| matches!(a, PassAction::Fetch(_))).unwrap();
    let last_delete = log.iter().rposition(|a| matches!(a, PassAction::Delete(_))).unwrap();
    assert_eq!(first_fetch, 3);
    assert_eq!(last_delete, 2);
    assert!(last_delete < first_fetch);
}

#[test]
fn one_font_that_cannot_be_fetched_holds_up_no_other() {
    let mut folder: BTreeSet<String> = BTreeSet::new();
    let mut pass = Pass::new(&acme(), &stems(&folder));
    let log = run(&mut pass, &mut folder, &["B"]);
    assert_eq!(
        log,
        vec![
            PassAction::Fetch("A".to_string()),
            PassAction::Fetch("B".to_string()),
            PassAction::Write("Acme-italic-700.otf".to_string()),
        ]
    );
    assert_eq!(pass.stage(), Stage::Finished);
    assert_eq!(pass.outcomes(), &vec![FontOutcome::Unreachable, FontOutcome::Saved]);
    let left: Vec<&str> = folder.iter().map(|s| s.as_str()).collect();
    assert_eq!(left, vec!["Acme-italic-700.otf"]);
}

#[test]
fn a_status_other_than_200_is_noted_and_nothing_is_written() {
    let mut pass = Pass::new(&acme(), &Vec::new());
    assert_eq!(pass.action(), PassAction::Fetch("A".to_string()));
    pass.step(PassEvent::Fetched(404));
    assert_eq!(pass.outcomes(), &vec![FontOutcome::Refused(404)]);
    assert_eq!(pass.action(), PassAction::Fetch("B".to_string()));
    pass.step(PassEvent::Fetched(204));
    assert_eq!(pass.outcomes(), &vec![FontOutcome::Refused(404), FontOutcome::Refused(204)]);
    assert_eq!(pass.stage(), Stage::Finished);
    assert_eq!(STATUS_OK, 200);
}

#[test]
fn a_write_that_fails_is_noted_and_the_next_font_is_tried() {
    let mut pass = Pass::new(&acme(), &Vec::new());
    pass.step(PassEvent::Fetched(200));
    assert_eq!(pass.stage(), Stage::Writing);
    assert_eq!(pass.action(), PassAction::Write("Acme-normal-400.otf".to_string()));
    pass.step(PassEvent::WriteFailed);
    assert_eq!(pass.outcomes(), &vec![FontOutcome::Unwritten]);
    assert_eq!(pass.stage(), Stage::Fetching);
    assert_eq!(pass.action(), PassAction::Fetch("B".to_string()));
    pass.step(PassEvent::Fetched(200));
    pass.step(PassEvent::Written);
    assert_eq!(pass.outcomes(), &vec![FontOutcome::Unwritten, FontOutcome::Saved]);
    assert_eq!(pass.stage(), Stage::Finished);
}

#[test]
fn a_deletion_that_fails_ends_the_pass() {
    let mut pass = Pass::new(&acme(), &names(&["Old-normal-100", "Older-italic-200"]));
    assert_eq!(pass.action(), PassAction::Delete("Old-normal-100.otf".to_string()));
    pass.step(PassEvent::Deleted);
    assert_eq!(pass.deleted(), 1);
    assert_eq!(pass.action(), PassAction::Delete("Older-italic-200.otf".to_string()));
    pass.step(PassEvent::DeleteFailed);
    assert_eq!(pass.stage(), Stage::Aborted);
    assert!(pass.is_over());
    assert_eq!(pass.action(), PassAction::Stop);
    assert_eq!(pass.deleted(), 1);
    assert!(pass.outcomes().is_empty());
    pass.step(PassEvent::Deleted);
    pass.step(PassEvent::Fetched(200));
    assert_eq!(pass.stage(), Stage::Aborted);
    assert_eq!(pass.deleted(), 1);
}

#[test]
fn an_event_that_answers_nothing_changes_nothing() {
    let mut pass = Pass::new(&acme(), &names(&["Old-normal-100"]));
    for event in [PassEvent::Fetched(200), PassEvent::FetchFailed, PassEvent::Written, PassEvent::WriteFailed] {
        pass.step(event);
        assert_eq!(pass.stage(), Stage::Deleting);
        assert_eq!(pass.deleted(), 0);
    }
    pass.step(PassEvent::Deleted);
    for event in [PassEvent::Deleted, PassEvent::DeleteFailed, PassEvent::Written, PassEvent::WriteFailed] {
        pass.step(event);
        assert_eq!(pass.stage(), Stage::Fetching);
        assert!(pass.outcomes().is_empty());
    }
    pass.step(PassEvent::Fetched(200));
    for event in [PassEvent::Deleted, PassEvent::DeleteFailed, PassEvent::Fetched(200), PassEvent::FetchFailed] {
        pass.step(event);
        assert_eq!(pass.stage(), Stage::Writing);
        assert!(pass.outcomes().is_empty());
    }
}

#[test]
fn a_present_font_is_left_alone() {
    let mut folder: BTreeSet<String> = ["Acme-normal-400.otf"].iter().map(|s| s.to_string()).collect();
    let mut pass = Pass::new(&acme(), &stems(&folder));
    let log = run(&mut pass, &mut folder, &["A", "B"]);
    assert_eq!(
        log,
        vec![PassAction::Fetch("B".to_string()), PassAction::Write("Acme-italic-700.otf".to_string())]
    );
}

#[test]
fn two_variants_with_one_key_are_both_fetched_to_one_file() {
    let desired = vec![
        font("Acme", FontStyle::Normal, FontWeight::Normal, "first"),
        font("Acme", FontStyle::Normal, FontWeight::Normal, "second"),
    ];
    let mut folder: BTreeSet<String> = BTreeSet::new();
    let mut pass = Pass::new(&desired, &stems(&folder));
    let log = run(&mut pass, &mut folder, &["first", "second"]);
    assert_eq!(
        log,
        vec![
            PassAction::Fetch("first".to_string()),
            PassAction::Write("Acme-normal-400.otf".to_string()),
            PassAction::Fetch("second".to_string()),
            PassAction::Write("Acme-normal-400.otf".to_string()),
        ]
    );
    assert_eq!(folder.len(), 1);
    let mut again = Pass::new(&desired, &stems(&folder));
    assert!(run(&mut again, &mut folder, &[]).is_empty());
}

#[test]
fn names_with_separators_are_not_fit_for_a_file() {
    assert!(is_fit_for_file("Acme-normal-400"));
    assert!(is_fit_for_file("Acme-normal-400.otf"));
    assert!(is_fit_for_file(""));
    assert!(is_fit_for_file("Mr Eaves XL-italic-300"));
    assert!(is_fit_for_file(".."));
    assert!(is_fit_for_file("Gr\u{00fc}n"));
    assert!(is_fit_for_file("a\\b"));
    assert!(is_fit_for_file("a:b"));
    assert!(is_fit_for_file("C:fonts"));
    assert!(is_fit_for_file("a*b?c|d<e>f\"g"));
    assert!(!is_fit_for_file("../Acme-normal-400"));
    assert!(!is_fit_for_file("a/b"));
    assert!(!is_fit_for_file("a\0b"));
    assert!(!is_fit_for_file("/"));
    assert!(!is_fit_for_file("\0"));
}

#[test]
fn a_font_with_an_unfit_key_is_passed_over() {
    let desired = vec![
        font("../../etc/Acme", FontStyle::Normal, FontWeight::Normal, "bad"),
        font("Acme", FontStyle::Italic, FontWeight::Bold, "B"),
        font("sub/Acme", FontStyle::Normal, FontWeight::Thin, "worse"),
    ];
    let mut folder: BTreeSet<String> = BTreeSet::new();
    let mut pass = Pass::new(&desired, &stems(&folder));
    assert_eq!(pass.stage(), Stage::Skipping);
    assert_eq!(pass.font(), Some(&"../../etc/Acme-normal-400".to_string()));
    let log = run(&mut pass, &mut folder, &["bad", "B", "worse"]);
    assert_eq!(
        log,
        vec![
            PassAction::Skip("bad".to_string()),
            PassAction::Fetch("B".to_string()),
            PassAction::Write("Acme-italic-700.otf".to_string()),
            PassAction::Skip("worse".to_string()),
        ]
    );
    assert_eq!(pass.outcomes(), &vec![FontOutcome::Unfit, FontOutcome::Saved, FontOutcome::Unfit]);
    assert_eq!(pass.stage(), Stage::Finished);
    assert_eq!(count_unsaved(pass.outcomes()), 2);
    let left: Vec<&str> = folder.iter().map(|s| s.as_str()).collect();
    assert_eq!(left, vec!["Acme-italic-700.otf"]);
}

#[test]
fn a_font_that_is_passed_over_waits_for_its_answer() {
    let desired = vec![font("a/b", FontStyle::Normal, FontWeight::Normal, "bad")];
    let mut pass = Pass::new(&desired, &Vec::new());
    for event in [PassEvent::Fetched(200), PassEvent::FetchFailed, PassEvent::Written, PassEvent::Deleted] {
        pass.step(event);
        assert_eq!(pass.stage(), Stage::Skipping);
        assert!(pass.outcomes().is_empty());
    }
    assert_eq!(pass.action(), PassAction::Skip("bad".to_string()));
    pass.step(PassEvent::Skipped);
    assert_eq!(pass.stage(), Stage::Finished);
    assert_eq!(pass.outcomes(), &vec![FontOutcome::Unfit]);
    let mut other = Pass::new(&acme(), &Vec::new());
    other.step(PassEvent::Skipped);
    assert_eq!(other.stage(), Stage::Fetching);
    assert!(other.outcomes().is_empty());
}

#[test]
fn a_stale_file_with_a_colon_in_its_name_is_deleted() {
    let mut folder: BTreeSet<String> = ["a:b.otf".to_string()].into_iter().collect();
    let mut pass = Pass::new(&Vec::new(), &stems(&folder));
    assert_eq!(pass.deletions(), &names(&["a:b"]));
    let log = run(&mut pass, &mut folder, &[]);
    assert_eq!(log, vec![PassAction::Delete("a:b.otf".to_string())]);
    assert_eq!(pass.stage(), Stage::Finished);
    assert!(folder.is_empty());
}

#[test]
fn a_font_with_a_colon_in_its_family_is_fetched_and_written() {
    let desired = vec![
        font("a:b", FontStyle::Normal, FontWeight::Normal, "A"),
        font("back\\slash", FontStyle::Italic, FontWeight::Bold, "B"),
    ];
    let mut folder: BTreeSet<String> = BTreeSet::new();
    let mut pass = Pass::new(&desired, &stems(&folder));
    let log = run(&mut pass, &mut folder, &["A", "B"]);
    assert_eq!(
        log,
        vec![
            PassAction::Fetch("A".to_string()),
            PassAction::Write("a:b-normal-400.otf".to_string()),
            PassAction::Fetch("B".to_string()),
            PassAction::Write("back\\slash-italic-700.otf".to_string()),
        ]
    );
    assert_eq!(pass.outcomes(), &vec![FontOutcome::Saved, FontOutcome::Saved]);
    let fonts: BTreeSet<String> = stems(&folder).into_iter().collect();
    let wanted: BTreeSet<String> = desired.iter().map(|f| f.full_name()).collect();
    assert_eq!(fonts, wanted);
}

#[test]
fn a_present_key_that_is_unfit_is_left_alone() {
    let pass = Pass::new(&acme(), &names(&["../Old-normal-100", "Old-normal-100", "a:b", "x\\y", "n\0l"]));
    assert_eq!(pass.deletions(), &names(&["Old-normal-100", "a:b", "x\\y"]));
    let none = Pass::new(&Vec::new(), &names(&["../Old-normal-100"]));
    assert_eq!(none.stage(), Stage::Finished);
    assert_eq!(none.action(), PassAction::Stop);
}

#[test]
fn no_action_names_a_file_outside_the_folder() {
    let desired = vec![
        font("../up", FontStyle::Normal, FontWeight::Normal, "u1"),
        font("Acme", FontStyle::Normal, FontWeight::Normal, "A"),
        font("sub/dir", FontStyle::Italic, FontWeight::Black, "u2"),
    ];
    let mut folder: BTreeSet<String> = ["Old-normal-100.otf".to_string()].into_iter().collect();
    let mut pass = Pass::new(&desired, &names(&["Old-normal-100", "../../home/me/Old-normal-100"]));
    let log = run(&mut pass, &mut folder, &["u1", "A", "u2"]);
    for action in &log {
        match action {
            PassAction::Delete(file) | PassAction::Write(file) => {
                assert!(is_fit_for_file(file), "{} leads out of the folder", file);
            }
            _ => {}
        }
    }
    assert_eq!(log.iter().filter(|a| matches!(a, PassAction::Delete(_))).count(), 1);
    assert_eq!(log.iter().filter(|a| matches!(a, PassAction::Write(_))).count(), 1);
}

#[test]
fn font_in_hand_is_the_one_that_the_action_is_about() {
    let mut pass = Pass::new(&acme(), &names(&["Old-normal-100"]));
    assert_eq!(pass.font(), Some(&"Old-normal-100".to_string()));
    pass.step(PassEvent::Deleted);
    assert_eq!(pass.font(), Some(&"Acme-normal-400".to_string()));
    pass.step(PassEvent::Fetched(200));
    assert_eq!(pass.font(), Some(&"Acme-normal-400".to_string()));
    pass.step(PassEvent::Written);
    assert_eq!(pass.font(), Some(&"Acme-italic-700".to_string()));
    pass.step(PassEvent::FetchFailed);
    assert_eq!(pass.font(), None);
    let mut failing = Pass::new(&acme(), &names(&["Old-normal-100"]));
    failing.step(PassEvent::DeleteFailed);
    assert_eq!(failing.font(), Some(&"Old-normal-100".to_string()));
}

#[test]
fn count_unsaved_counts_what_went_wrong() {
    assert_eq!(count_unsaved(&Vec::new()), 0);
    assert_eq!(count_unsaved(&vec![FontOutcome::Saved, FontOutcome::Saved]), 0);
    assert_eq!(
        count_unsaved(&vec![
            FontOutcome::Saved,
            FontOutcome::Unreachable,
            FontOutcome::Refused(404),
            FontOutcome::Saved,
            FontOutcome::Unwritten,
            FontOutcome::Unfit,
        ]),
        4
    );
}
