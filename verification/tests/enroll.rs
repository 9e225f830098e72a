use std::path::PathBuf;
use tksync::config::TkConfig;
use tksync::config::TkProject;
use tksync::enroll::AddError;
use tksync::enroll::EnrollAction;
use tksync::enroll::EnrollEvent;
use tksync::enroll::Enrollment;

fn registry() -> TkConfig {
    let mut config = TkConfig::new();
    config.add_or_replace("abc", TkProject { name: "One".to_string(), path: PathBuf::from("/one") });
    config
}

#[test]
fn new_project_is_taken_in() {
    let mut config = registry();
    let e = Enrollment::begin(&config, "xyz", "Two", false);
    assert_eq!(e.action(), EnrollAction::Resolve);
    assert_eq!(e.path(), None);
    assert!(!e.is_over());
    let e = e.step(EnrollEvent::Resolved(PathBuf::from("/abs/two")));
    assert_eq!(e.action(), EnrollAction::Inspect);
    assert_eq!(e.path(), Some(&PathBuf::from("/abs/two")));
    let e = e.step(EnrollEvent::Inspected { readonly: false });
    assert_eq!(e.action(), EnrollAction::Probe("https://use.typekit.net/xyz.css".to_string()));
    let e = e.step(EnrollEvent::Probed(200));
    assert_eq!(e.action(), EnrollAction::Store);
    assert!(e.is_over());
    assert_eq!(e.finish(&mut config), Ok(()));
    assert_eq!(config.len(), 2);
    assert_eq!(config.get("xyz"), Some(&TkProject { name: "Two".to_string(), path: PathBuf::from("/abs/two") }));
    assert_eq!(config.get("abc"), Some(&TkProject { name: "One".to_string(), path: PathBuf::from("/one") }));
}

#[test]
fn taken_id_is_rejected_at_once() {
    let mut config = registry();
    let e = Enrollment::begin(&config, "abc", "Again", false);
    assert_eq!(e.action(), EnrollAction::Reject(AddError::Duplicate));
    assert!(e.is_over());
    let e = e.step(EnrollEvent::Resolved(PathBuf::from("/abs"))).step(EnrollEvent::Probed(200));
    assert_eq!(e.action(), EnrollAction::Reject(AddError::Duplicate));
    assert_eq!(e.finish(&mut config), Err(AddError::Duplicate));
    assert_eq!(config.get("abc"), Some(&TkProject { name: "One".to_string(), path: PathBuf::from("/one") }));
    assert_eq!(config.len(), 1);
}

#[test]
fn taken_id_is_replaced_where_asked() {
    let mut config = registry();
    let e = Enrollment::begin(&config, "abc", "Again", true);
    assert_eq!(e.action(), EnrollAction::Resolve);
    let e = e
        .step(EnrollEvent::Resolved(PathBuf::from("/abs/again")))
        .step(EnrollEvent::Inspected { readonly: false })
        .step(EnrollEvent::Probed(200));
    assert_eq!(e.finish(&mut config), Ok(()));
    assert_eq!(config.len(), 1);
    assert_eq!(
        config.get("abc"),
        Some(&TkProject { name: "Again".to_string(), path: PathBuf::from("/abs/again") })
    );
}

#[test]
fn each_failure_rejects_with_its_reason() {
    let config = registry();
    let start = || Enrollment::begin(&config, "xyz", "Two", false);
    let resolved = || start().step(EnrollEvent::Resolved(PathBuf::from("/abs")));
    let inspected = || resolved().step(EnrollEvent::Inspected { readonly: false });
    assert_eq!(start().step(EnrollEvent::ResolveFailed).action(), EnrollAction::Reject(AddError::Unresolved));
    assert_eq!(resolved().step(EnrollEvent::InspectFailed).action(), EnrollAction::Reject(AddError::Uninspected));
    assert_eq!(
        resolved().step(EnrollEvent::Inspected { readonly: true }).action(),
        EnrollAction::Reject(AddError::ReadOnly)
    );
    assert_eq!(inspected().step(EnrollEvent::ProbeFailed).action(), EnrollAction::Reject(AddError::Unreachable));
    assert_eq!(inspected().step(EnrollEvent::Probed(404)).action(), EnrollAction::Reject(AddError::Unknown(404)));
    assert_eq!(inspected().step(EnrollEvent::Probed(302)).action(), EnrollAction::Reject(AddError::Unknown(302)));
}

#[test]
fn rejected_or_unfinished_enrollment_stores_nothing() {
    let mut config = registry();
    let e = Enrollment::begin(&config, "xyz", "Two", false).step(EnrollEvent::Resolved(PathBuf::from("/abs")));
    assert_eq!(e.finish(&mut config), Err(AddError::Unfinished));
    assert_eq!(config.len(), 1);
    let e = Enrollment::begin(&config, "xyz", "Two", false);
    assert_eq!(e.finish(&mut config), Err(AddError::Unfinished));
    let e = Enrollment::begin(&config, "xyz", "Two", false).step(EnrollEvent::ResolveFailed);
    assert_eq!(e.finish(&mut config), Err(AddError::Unresolved));
    assert_eq!(config.len(), 1);
    assert!(!config.contains("xyz"));
}

#[test]
fn events_out_of_turn_are_passed_over() {
    let config = registry();
    let e = Enrollment::begin(&config, "xyz", "Two", false)
        .step(EnrollEvent::Probed(200))
        .step(EnrollEvent::Inspected { readonly: true })
        .step(EnrollEvent::InspectFailed)
        .step(EnrollEvent::ProbeFailed);
    assert_eq!(e.action(), EnrollAction::Resolve);
    let e = e.step(EnrollEvent::Resolved(PathBuf::from("/a"))).step(EnrollEvent::Resolved(PathBuf::from("/b")));
    assert_eq!(e.path(), Some(&PathBuf::from("/a")));
    assert_eq!(e.action(), EnrollAction::Inspect);
}
