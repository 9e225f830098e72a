use std::path::PathBuf;
use tksync::batch::Batch;
use tksync::config::TkConfig;
use tksync::config::TkProject;
use tksync::project::FetchFault;
use tksync::project::ProjectOutcome;
use tksync::project::ProjectSync;
use tksync::project::SyncAction;
use tksync::project::SyncError;
use tksync::project::SyncEvent;
use tksync::reconcile::FontOutcome;
use tksync::reconcile::PassAction;
use tksync::reconcile::PassEvent;
use tksync::sync::ManifestError;

fn registry(ids: &[&str]) -> TkConfig {
    let mut config = TkConfig::new();
    for id in ids {
        config.add_or_replace(id, TkProject { name: format!("P{}", id), path: PathBuf::from("/fonts") });
    }
    config
}

fn block(family: &str, opentype: &str, style: &str, weight: &str) -> String {
    format!(
        "@font-face {{\nfont-family:\"{}\";\nsrc:url(\"{}.woff2\") format(\"woff2\"),url(\"{}.woff\") format(\"woff\"),url(\"{}\") format(\"opentype\");\nfont-display:auto;font-style:{};font-weight:{};font-stretch:normal;\n}}",
        family, opentype, opentype, opentype, style, weight
    )
}

/// Syncs one project whose manifest is `css` (or does not answer) into an
/// empty folder where every fetch but that of `dead` goes well.
fn sync_one(id: &str, name: &str, css: Option<&str>, dead: &str) -> ProjectOutcome {
    let mut sync = ProjectSync::new(id, name);
    loop {
        let event = match sync.action() {
            SyncAction::Request(_) => match css {
                Some(_) => SyncEvent::Responded(200),
                None => SyncEvent::Unreachable,
            },
            SyncAction::ReadManifest => SyncEvent::ManifestRead(css.unwrap().to_string()),
            SyncAction::CheckPath => SyncEvent::PathChecked { exists: true, absolute: true, directory: true },
            SyncAction::CreateFolder(_) => SyncEvent::FolderCreated,
            SyncAction::List => SyncEvent::Listed(Vec::new()),
            SyncAction::Reconcile(PassAction::Fetch(url)) => {
                SyncEvent::Font(if url == dead { PassEvent::FetchFailed } else { PassEvent::Fetched(200) })
            }
            SyncAction::Reconcile(PassAction::Write(_)) => SyncEvent::Font(PassEvent::Written),
            SyncAction::Reconcile(PassAction::Skip(_)) => SyncEvent::Font(PassEvent::Skipped),
            SyncAction::Reconcile(PassAction::Delete(_)) => SyncEvent::Font(PassEvent::Deleted),
            SyncAction::Reconcile(PassAction::Stop) => break,
            SyncAction::Finish => break,
        };
        sync = sync.step(event);
    }
    sync.outcome().unwrap()
}

#[test]
fn run_over_no_project_is_done() {
    let batch = Batch::new(&TkConfig::new());
    assert!(batch.is_done());
    assert_eq!(batch.current(), None);
    assert_eq!(batch.failed(), 0);
    assert!(batch.outcomes().is_empty());
}

#[test]
fn run_takes_the_projects_in_order() {
    let config = registry(&["a", "b", "c"]);
    let mut batch = Batch::new(&config);
    assert!(!batch.is_done());
    assert_eq!(batch.current(), Some(0));
    batch.record(ProjectOutcome::Synced(vec![]));
    assert_eq!(batch.current(), Some(1));
    batch.record(ProjectOutcome::Failed(SyncError::DirectoryRead));
    assert_eq!(batch.current(), Some(2));
    assert!(!batch.is_done());
    batch.record(ProjectOutcome::Synced(vec![FontOutcome::Saved]));
    assert_eq!(batch.current(), None);
    assert!(batch.is_done());
    assert_eq!(batch.failed(), 1);
    assert_eq!(
        batch.outcomes(),
        &vec![
            ProjectOutcome::Synced(vec![]),
            ProjectOutcome::Failed(SyncError::DirectoryRead),
            ProjectOutcome::Synced(vec![FontOutcome::Saved]),
        ]
    );
}

#[test]
fn run_that_is_done_keeps_no_more() {
    let config = registry(&["a"]);
    let mut batch = Batch::new(&config);
    batch.record(ProjectOutcome::Failed(SyncError::DirectoryCreate));
    batch.record(ProjectOutcome::Synced(vec![]));
    assert_eq!(batch.outcomes().len(), 1);
    assert_eq!(batch.failed(), 1);
}

#[test]
fn run_ends_when_every_project_failed() {
    let config = registry(&["a", "b"]);
    let mut batch = Batch::new(&config);
    batch.record(ProjectOutcome::Failed(SyncError::ManifestFetch(FetchFault::Unreachable)));
    batch.record(ProjectOutcome::Failed(SyncError::ManifestFetch(FetchFault::Status(500))));
    assert!(batch.is_done());
    assert_eq!(batch.failed(), 2);
}

#[test]
fn project_with_a_bad_manifest_does_not_stop_the_others() {
    let config = registry(&["good", "bad", "gone", "last"]);
    let good = format!("{}\n{}\n", block("Acme", "A", "normal", "400"), block("Acme", "B", "italic", "700"));
    let bad = block("Acme", "C", "normal", "350");
    let mut batch = Batch::new(&config);
    while let Some(i) = batch.current() {
        let (id, project) = &config.iter()[i];
        let css = match id.as_str() {
            "bad" => Some(bad.as_str()),
            "gone" => None,
            _ => Some(good.as_str()),
        };
        batch.record(sync_one(id, &project.name, css, "B"));
    }
    assert!(batch.is_done());
    assert_eq!(batch.failed(), 2);
    let synced = ProjectOutcome::Synced(vec![FontOutcome::Saved, FontOutcome::Unreachable]);
    assert_eq!(
        batch.outcomes(),
        &vec![
            ProjectOutcome::Synced(vec![FontOutcome::Saved, FontOutcome::Unreachable]),
            ProjectOutcome::Failed(SyncError::ManifestFormat(ManifestError::Weight("350".to_string()))),
            ProjectOutcome::Failed(SyncError::ManifestFetch(FetchFault::Unreachable)),
            synced,
        ]
    );
}
