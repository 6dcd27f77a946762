use dockswitcher::apply::{ApplyAction, ApplyEvent, ApplySession};
use dockswitcher::profiles::StoreError;
use dockswitcher::store::{AppEntry, Profile, StoreData};

fn data_with(apps: Vec<AppEntry>) -> StoreData {
    let mut data = StoreData::default();
    data.profiles.push(Profile {
        id: "work-id".to_string(),
        name: "Work".to_string(),
        apps,
        created_at: "c".to_string(),
        updated_at: "u".to_string(),
    });
    data
}

fn entry(name: &str) -> AppEntry {
    AppEntry {
        name: name.to_string(),
        path: format!("/Applications/{}.app", name),
        icon: None,
        bundle_id: None,
    }
}

#[test]
fn missing_bundle_is_a_warning_and_apply_completes() {
    let data = data_with(vec![entry("Gone")]);
    let (mut s, a) = ApplySession::begin(&data, &"work-id".to_string()).unwrap();
    assert!(matches!(a, ApplyAction::RemoveAll));
    let a = s.step(ApplyEvent::Succeeded);
    assert!(matches!(a, ApplyAction::CheckPath(ref p) if p == "/Applications/Gone.app"));
    let a = s.step(ApplyEvent::Missing);
    assert!(matches!(a, ApplyAction::RestartDock));
    let a = s.step(ApplyEvent::Succeeded);
    assert!(matches!(a, ApplyAction::RecordActive(ref id) if id == "work-id"));
    let a = s.step(ApplyEvent::Succeeded);
    assert!(matches!(a, ApplyAction::Finish));
    assert_eq!(s.adds(), 0);
    assert_eq!(s.warnings().len(), 1);
    assert_eq!(s.warnings()[0], "Gone not found at /Applications/Gone.app");
}

#[test]
fn failed_removal_aborts_without_adds() {
    let data = data_with(vec![entry("A"), entry("B")]);
    let (mut s, _) = ApplySession::begin(&data, &"work-id".to_string()).unwrap();
    let a = s.step(ApplyEvent::Failed("boom".to_string()));
    assert!(matches!(a, ApplyAction::Abort(ref m) if m == "dockutil --remove failed: boom"));
    assert!(matches!(s.step(ApplyEvent::Succeeded), ApplyAction::Stop));
    assert!(matches!(s.step(ApplyEvent::Succeeded), ApplyAction::Stop));
    assert_eq!(s.adds(), 0);
}

#[test]
fn every_entry_is_added_in_order_and_add_failures_are_warnings() {
    let data = data_with(vec![entry("A"), entry("B"), entry("C")]);
    let (mut s, _) = ApplySession::begin(&data, &"work-id".to_string()).unwrap();
    let mut added = Vec::new();
    let mut a = s.step(ApplyEvent::Succeeded);
    loop {
        a = match a {
            ApplyAction::CheckPath(_) => s.step(ApplyEvent::Succeeded),
            ApplyAction::AddApp(p) => {
                let ev = if p.contains("/B.app") {
                    ApplyEvent::Failed("nope".to_string())
                } else {
                    ApplyEvent::Succeeded
                };
                added.push(p);
                s.step(ev)
            }
            ApplyAction::RestartDock => s.step(ApplyEvent::Succeeded),
            ApplyAction::RecordActive(_) => s.step(ApplyEvent::Succeeded),
            other => break assert!(matches!(other, ApplyAction::Finish)),
        };
    }
    assert_eq!(added, vec!["/Applications/A.app", "/Applications/B.app", "/Applications/C.app"]);
    assert_eq!(s.adds(), 3);
    assert_eq!(s.warnings(), &vec!["Failed to add B: nope".to_string()]);
}

#[test]
fn restart_failure_is_a_hard_error() {
    let data = data_with(vec![]);
    let (mut s, _) = ApplySession::begin(&data, &"work-id".to_string()).unwrap();
    assert!(matches!(s.step(ApplyEvent::Succeeded), ApplyAction::RestartDock));
    let a = s.step(ApplyEvent::Failed("no killall".to_string()));
    assert!(matches!(a, ApplyAction::Abort(ref m) if m == "Failed to restart Dock: no killall"));
}

#[test]
fn unknown_profile_cannot_be_applied() {
    let data = data_with(vec![]);
    let r = ApplySession::begin(&data, &"other".to_string());
    assert!(matches!(r, Err(StoreError::ProfileNotFound)));
}
