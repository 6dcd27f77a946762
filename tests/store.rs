use dockswitcher::profiles::{new_profile, StoreError};
use dockswitcher::store::{config_path_in, AppEntry, Profile, Settings, Store, StoreData};

fn sample_profile(id: &str, name: &str) -> Profile {
    Profile {
        id: id.to_string(),
        name: name.to_string(),
        apps: vec![AppEntry {
            name: "Safari".to_string(),
            path: "/Applications/Safari.app".to_string(),
            icon: None,
            bundle_id: Some("com.apple.Safari".to_string()),
        }],
        created_at: "2025-01-01T00:00:00Z".to_string(),
        updated_at: "2025-01-01T00:00:00Z".to_string(),
    }
}

fn entry(name: &str) -> AppEntry {
    AppEntry {
        name: name.to_string(),
        path: format!("/Applications/{}.app", name),
        icon: None,
        bundle_id: None,
    }
}

#[test]
fn store_default_has_empty_profiles_and_v1_schema() {
    let data = StoreData::default();
    assert!(data.profiles.is_empty());
    assert_eq!(data.active_profile_id, None);
    assert_eq!(data.schema_version, 1);
    assert!(!data.settings.launch_at_login);
    assert!(!data.settings.confirm_before_switch);
}

#[test]
fn settings_default_is_all_off() {
    let s = Settings::default();
    assert!(!s.launch_at_login);
    assert!(!s.confirm_before_switch);
}

#[test]
fn load_without_stored_data_gives_default() {
    let store = Store::load("/tmp/dockswitcher-test-nonexistent/config.json".to_string(), None);
    assert!(store.data.profiles.is_empty());
    assert_eq!(store.data.schema_version, 1);
    assert_eq!(store.data.active_profile_id, None);
    assert_eq!(store.path(), "/tmp/dockswitcher-test-nonexistent/config.json");
}

#[test]
fn load_with_stored_data_keeps_it() {
    let mut data = StoreData::default();
    data.profiles.push(sample_profile("work-id", "Work"));
    data.active_profile_id = Some("work-id".to_string());
    data.settings.confirm_before_switch = true;
    let store = Store::load("/tmp/c.json".to_string(), Some(data));
    assert_eq!(store.data.profiles.len(), 1);
    assert_eq!(store.data.profiles[0].name, "Work");
    assert_eq!(store.data.active_profile_id, Some("work-id".to_string()));
    assert!(store.data.settings.confirm_before_switch);
}

#[test]
fn with_path_holds_default_data() {
    let store = Store::with_path("/tmp/x/config.json".to_string());
    assert!(store.data.profiles.is_empty());
    assert_eq!(store.path(), "/tmp/x/config.json");
}

#[test]
fn deleting_active_profile_clears_active_id() {
    let mut data = StoreData::default();
    data.profiles.push(sample_profile("work-id", "Work"));
    data.profiles.push(sample_profile("home-id", "Home"));
    data.active_profile_id = Some("work-id".to_string());
    data.delete_profile(&"work-id".to_string());
    assert_eq!(data.profiles.len(), 1);
    assert_eq!(data.profiles[0].id, "home-id");
    assert_eq!(data.active_profile_id, None);
}

#[test]
fn deleting_other_profile_keeps_active_id() {
    let mut data = StoreData::default();
    data.profiles.push(sample_profile("work-id", "Work"));
    data.profiles.push(sample_profile("home-id", "Home"));
    data.active_profile_id = Some("work-id".to_string());
    data.delete_profile(&"home-id".to_string());
    assert_eq!(data.profiles.len(), 1);
    assert_eq!(data.profiles[0].id, "work-id");
    assert_eq!(data.active_profile_id, Some("work-id".to_string()));
}

#[test]
fn reorder_follows_ids_and_drops_unknown() {
    let mut data = StoreData::default();
    data.profiles.push(sample_profile("work-id", "Work"));
    data.profiles.push(sample_profile("home-id", "Personal"));
    data.profiles.push(sample_profile("dev-id", "Dev"));
    data.reorder_profiles(&vec!["dev-id".to_string(), "zz".to_string(), "work-id".to_string()]);
    assert_eq!(data.profiles.len(), 2);
    assert_eq!(data.profiles[0].name, "Dev");
    assert_eq!(data.profiles[1].name, "Work");
}

#[test]
fn update_profile_renames_and_replaces_apps() {
    let mut data = StoreData::default();
    data.profiles.push(sample_profile("work-id", "First"));
    let mut changed = sample_profile("work-id", "Updated");
    changed.apps = vec![entry("A"), entry("B")];
    changed.created_at = "ignored".to_string();
    assert_eq!(data.update_profile(changed, "2025-02-02T00:00:00Z".to_string()), Ok(()));
    assert_eq!(data.profiles[0].name, "Updated");
    assert_eq!(data.profiles[0].apps.len(), 2);
    assert_eq!(data.profiles[0].created_at, "2025-01-01T00:00:00Z");
    assert_eq!(data.profiles[0].updated_at, "2025-02-02T00:00:00Z");
}

#[test]
fn update_missing_profile_is_not_found() {
    let mut data = StoreData::default();
    data.profiles.push(sample_profile("work-id", "First"));
    let r = data.update_profile(sample_profile("missing-id", "X"), "now".to_string());
    assert_eq!(r, Err(StoreError::ProfileNotFound));
    assert_eq!(data.profiles[0].name, "First");
}

#[test]
fn add_and_remove_app_entries() {
    let mut data = StoreData::default();
    data.profiles.push(sample_profile("work-id", "Work"));
    let id = "work-id".to_string();
    assert_eq!(data.add_app_to_profile(&id, entry("Mail"), "t1".to_string()), Ok(()));
    assert_eq!(data.profiles[0].apps.len(), 2);
    assert_eq!(data.profiles[0].apps[1].name, "Mail");
    assert_eq!(data.profiles[0].updated_at, "t1");
    assert_eq!(data.remove_app_from_profile(&id, 0, "t2".to_string()), Ok(()));
    assert_eq!(data.profiles[0].apps.len(), 1);
    assert_eq!(data.profiles[0].apps[0].name, "Mail");
    assert_eq!(
        data.remove_app_from_profile(&id, 5, "t3".to_string()),
        Err(StoreError::EntryNotFound)
    );
    assert_eq!(data.profiles[0].updated_at, "t2");
    assert_eq!(
        data.add_app_to_profile(&"nope".to_string(), entry("X"), "t4".to_string()),
        Err(StoreError::ProfileNotFound)
    );
    assert_eq!(
        data.remove_app_from_profile(&"nope".to_string(), 0, "t4".to_string()),
        Err(StoreError::ProfileNotFound)
    );
}

#[test]
fn replace_profile_apps_sets_entries() {
    let mut data = StoreData::default();
    data.profiles.push(sample_profile("work-id", "Work"));
    let id = "work-id".to_string();
    assert_eq!(data.replace_profile_apps(&id, vec![entry("A"), entry("B"), entry("C")], "t".to_string()), Ok(()));
    assert_eq!(data.profiles[0].apps.len(), 3);
    assert_eq!(data.profiles[0].apps[2].name, "C");
    assert_eq!(
        data.replace_profile_apps(&"q".to_string(), vec![], "t".to_string()),
        Err(StoreError::ProfileNotFound)
    );
}

#[test]
fn create_profile_appends_empty_profile() {
    let mut data = StoreData::default();
    let p = data.create_profile("Work".to_string());
    assert_eq!(p.name, "Work");
    assert!(p.apps.is_empty());
    assert_eq!(p.created_at, p.updated_at);
    assert_eq!(data.profiles.len(), 1);
    assert_eq!(data.profiles[0].id, p.id);
    assert!(!p.id.is_empty());
}

#[test]
fn new_profile_has_given_fields() {
    let p = new_profile("id1".to_string(), "Dev".to_string(), "2025-03-03T00:00:00Z".to_string());
    assert_eq!(p.id, "id1");
    assert_eq!(p.name, "Dev");
    assert!(p.apps.is_empty());
    assert_eq!(p.created_at, "2025-03-03T00:00:00Z");
    assert_eq!(p.updated_at, "2025-03-03T00:00:00Z");
}

#[test]
fn find_profile_gives_first_match() {
    let mut data = StoreData::default();
    data.profiles.push(sample_profile("a", "One"));
    data.profiles.push(sample_profile("b", "Two"));
    data.profiles.push(sample_profile("b", "Three"));
    assert_eq!(data.find_profile(&"b".to_string()), Some(1));
    assert_eq!(data.find_profile(&"c".to_string()), None);
    assert_eq!(data.profile(&"b".to_string()).map(|p| p.name), Some("Two".to_string()));
}

#[test]
fn set_active_profile_records_id() {
    let mut data = StoreData::default();
    data.set_active_profile("other-id".to_string());
    assert_eq!(data.active_profile_id, Some("other-id".to_string()));
}

#[test]
fn error_messages() {
    assert_eq!(StoreError::ProfileNotFound.message(), "Profile not found");
    assert_eq!(StoreError::EntryNotFound.message(), "App entry not found");
}

#[test]
fn entry_for_path_uses_file_stem() {
    let e = dockswitcher::profiles::entry_for_path("/Applications/Safari.app".to_string(), None);
    assert_eq!(e.name, "Safari");
    assert_eq!(e.path, "/Applications/Safari.app");
    assert_eq!(e.bundle_id, None);
    let root = dockswitcher::profiles::entry_for_path("/".to_string(), Some("icon".to_string()));
    assert_eq!(root.name, "Unknown");
    assert_eq!(root.icon, Some("icon".to_string()));
}

#[test]
fn menu_items_mark_the_active_profile() {
    let mut data = StoreData::default();
    data.profiles.push(sample_profile("work-id", "Work"));
    data.profiles.push(sample_profile("home-id", "Home"));
    data.active_profile_id = Some("home-id".to_string());
    let items = data.menu_items();
    assert_eq!(
        items,
        vec![
            ("work-id".to_string(), "Work".to_string(), false),
            ("home-id".to_string(), "Home".to_string(), true),
        ]
    );
}

#[test]
fn dangling_active_id_resolves_to_nothing() {
    let mut data = StoreData::default();
    data.profiles.push(sample_profile("work-id", "Work"));
    data.active_profile_id = Some("gone".to_string());
    assert_eq!(data.active_profile_index(), None);
    assert!(!data.is_active_profile(&"work-id".to_string()));
    data.active_profile_id = Some("work-id".to_string());
    assert_eq!(data.active_profile_index(), Some(0));
}

#[test]
fn launch_at_login_change_only_when_flag_differs() {
    let mut data = StoreData::default();
    let on = Settings { launch_at_login: true, confirm_before_switch: false };
    assert_eq!(data.launch_at_login_change(&on), Some(true));
    data.set_settings(on);
    assert_eq!(data.launch_at_login_change(&Settings { launch_at_login: true, confirm_before_switch: true }), None);
    assert_eq!(data.launch_at_login_change(&Settings::default()), Some(false));
}

#[test]
fn config_path_under_base_or_current_dir() {
    assert_eq!(
        config_path_in(Some("/Users/me/Library/Application Support".to_string())),
        "/Users/me/Library/Application Support/com.dockswitcher.app/config.json"
    );
    assert_eq!(config_path_in(None), "./com.dockswitcher.app/config.json");
    assert!(Store::config_path().ends_with("com.dockswitcher.app/config.json"));
}

#[test]
fn unused_id_keeps_a_free_candidate_and_replaces_a_taken_one() {
    let mut data = StoreData::default();
    data.profiles.push(sample_profile("work-id", "Work"));
    data.profiles.push(sample_profile("a-much-longer-id", "Home"));
    assert_eq!(data.unused_id("fresh".to_string()), "fresh");
    let other = data.unused_id("work-id".to_string());
    assert_eq!(other, "work-id-a-much-longer-id");
    assert_eq!(data.find_profile(&other), None);
}
