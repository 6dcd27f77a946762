use dockswitcher::icon::{
    icon_candidates, icon_file_name, icon_from_container, icon_text, info_plist_path, join_path,
    preferred_icon_kinds, bundle_icon_name, IconKind,
};
use dockswitcher::tool::{dockutil_candidates, find_dockutil_path, get_dockutil_path};

#[test]
fn icon_file_name_appends_extension_once() {
    assert_eq!(icon_file_name("AppIcon"), "AppIcon.icns");
    assert_eq!(icon_file_name("AppIcon.icns"), "AppIcon.icns");
}

#[test]
fn join_path_like_std() {
    assert_eq!(join_path("/Applications/A.app", "Contents"), "/Applications/A.app/Contents");
    assert_eq!(join_path("/Applications/A.app/", "Contents"), "/Applications/A.app/Contents");
    assert_eq!(join_path("a", "/abs"), "/abs");
    assert_eq!(join_path("", "x"), "x");
}

#[test]
fn icon_paths_inside_bundle() {
    assert_eq!(info_plist_path("/Applications/A.app"), "/Applications/A.app/Contents/Info.plist");
    let c = icon_candidates("/Applications/A.app", Some("Icon".to_string()));
    assert_eq!(
        c,
        vec![
            "/Applications/A.app/Contents/Resources/Icon.icns".to_string(),
            "/Applications/A.app/Contents/Resources/AppIcon.icns".to_string(),
        ]
    );
    let d = icon_candidates("/Applications/A.app", None);
    assert_eq!(d, vec!["/Applications/A.app/Contents/Resources/AppIcon.icns".to_string()]);
}

#[test]
fn preference_order_of_representations() {
    assert_eq!(
        preferred_icon_kinds(),
        vec![IconKind::Rgba128, IconKind::Rgba64, IconKind::Rgba256, IconKind::Rgba32]
    );
}

#[test]
fn icon_text_is_base64() {
    assert_eq!(icon_text(&b"abc".to_vec()), Some("YWJj".to_string()));
    assert_eq!(icon_text(&b"\x89PNG".to_vec()), Some("iVBORw==".to_string()));
}

#[test]
fn garbage_is_no_icon_container() {
    assert_eq!(icon_from_container(b"not an icon"), None);
}

#[test]
fn manifest_icon_name_is_read() {
    let xml = br#"<?xml version="1.0" encoding="UTF-8"?>
<!DOCTYPE plist PUBLIC "-//Apple//DTD PLIST 1.0//EN" "http://www.apple.com/DTDs/PropertyList-1.0.dtd">
<plist version="1.0"><dict><key>CFBundleIconFile</key><string>Safari</string></dict></plist>"#;
    assert_eq!(bundle_icon_name(xml), Some("Safari".to_string()));
    assert_eq!(bundle_icon_name(b"junk"), None);
}

#[test]
fn dockutil_lookup_order() {
    let c = dockutil_candidates();
    assert_eq!(c, vec!["/opt/homebrew/bin/dockutil".to_string(), "/usr/local/bin/dockutil".to_string()]);
    assert_eq!(find_dockutil_path(&vec![false, true]), Some("/usr/local/bin/dockutil".to_string()));
    assert_eq!(find_dockutil_path(&vec![true, true]), Some("/opt/homebrew/bin/dockutil".to_string()));
    assert_eq!(find_dockutil_path(&vec![false, false]), None);
    assert_eq!(get_dockutil_path(Some("/b/dockutil".to_string()), &vec![true, true]), Ok("/b/dockutil".to_string()));
    assert_eq!(
        get_dockutil_path(None, &vec![false, false]),
        Err("dockutil not found. Install it with: brew install dockutil".to_string())
    );
}
