use dockswitcher::decode::percent_decode;
use dockswitcher::dockutil::parse_dockutil_output;

#[test]
fn lib_parse_dockutil_standard_output() {
    let output = "Zen\tfile:///Applications/Zen.app/\tpersistentApps\t/Users/test/Library/Preferences/com.apple.dock.plist\tapp.zen-browser.zen\n\
                   Safari\tfile:///Applications/Safari.app/\tpersistentApps\t/Users/test/Library/Preferences/com.apple.dock.plist\tcom.apple.Safari";
    let apps = parse_dockutil_output(output);
    assert_eq!(apps.len(), 2);

    assert_eq!(apps[0].name, "Zen");
    assert_eq!(apps[0].path, "/Applications/Zen.app");
    assert_eq!(apps[0].bundle_id, Some("app.zen-browser.zen".to_string()));

    assert_eq!(apps[1].name, "Safari");
    assert_eq!(apps[1].path, "/Applications/Safari.app");
    assert_eq!(apps[1].bundle_id, Some("com.apple.Safari".to_string()));
}

#[test]
fn lib_parse_dockutil_url_encoded_paths() {
    let output = "Visual Studio Code - Insiders\tfile:///Applications/Visual%20Studio%20Code%20-%20Insiders.app/\tpersistentApps\t/Users/test/Library/Preferences/com.apple.dock.plist\tcom.microsoft.VSCodeInsiders";
    let apps = parse_dockutil_output(output);
    assert_eq!(apps.len(), 1);
    assert_eq!(apps[0].name, "Visual Studio Code - Insiders");
    assert_eq!(
        apps[0].path,
        "/Applications/Visual Studio Code - Insiders.app"
    );
}

#[test]
fn lib_parse_dockutil_empty_output() {
    let apps = parse_dockutil_output("");
    assert!(apps.is_empty());
}

#[test]
fn lib_parse_dockutil_skips_non_app_entries() {
    let output = "Downloads\tfile:///Users/test/Downloads/\tpersistentOthers\t/Users/test/Library/Preferences/com.apple.dock.plist\t";
    let apps = parse_dockutil_output(output);
    assert!(apps.is_empty());
}

#[test]
fn lib_parse_dockutil_minimal_two_field_line() {
    let output = "TestApp\tfile:///Applications/TestApp.app/";
    let apps = parse_dockutil_output(output);
    assert_eq!(apps.len(), 1);
    assert_eq!(apps[0].name, "TestApp");
    assert_eq!(apps[0].path, "/Applications/TestApp.app");
    assert_eq!(apps[0].bundle_id, None);
}

#[test]
fn lib_parse_dockutil_ignores_malformed_lines() {
    let output = "no-tabs-here\n\
                   Valid\tfile:///Applications/Valid.app/\tpersistentApps\tplist\tcom.valid";
    let apps = parse_dockutil_output(output);
    assert_eq!(apps.len(), 1);
    assert_eq!(apps[0].name, "Valid");
}

#[test]
fn lib_parse_dockutil_path_without_trailing_slash() {
    let output =
        "NoSlash\tfile:///Applications/NoSlash.app\tpersistentApps\tplist\tcom.noslash";
    let apps = parse_dockutil_output(output);
    assert_eq!(apps.len(), 1);
    assert_eq!(apps[0].path, "/Applications/NoSlash.app");
}

#[test]
fn lib_percent_decode_basic() {
    assert_eq!(
        percent_decode("/Applications/Test%20App.app"),
        "/Applications/Test App.app"
    );
}

#[test]
fn lib_percent_decode_multiple_encoded_chars() {
    assert_eq!(
        percent_decode("/Applications/My%20App%20%28Beta%29.app"),
        "/Applications/My App (Beta).app"
    );
}

#[test]
fn lib_percent_decode_no_encoding() {
    assert_eq!(
        percent_decode("/Applications/Safari.app"),
        "/Applications/Safari.app"
    );
}

#[test]
fn lib_percent_decode_incomplete_sequence() {
    assert_eq!(percent_decode("test%2"), "test%2");
    assert_eq!(percent_decode("test%"), "test%");
}

#[test]
fn lib_percent_decode_invalid_hex() {
    assert_eq!(percent_decode("test%ZZ"), "test%ZZ");
}

#[test]
fn zen_line_gives_one_entry() {
    let apps = parse_dockutil_output(
        "Zen\tfile:///Applications/Zen.app/\tpersistentApps\t/plist\tapp.zen-browser.zen",
    );
    assert_eq!(apps.len(), 1);
    assert_eq!(apps[0].name, "Zen");
    assert_eq!(apps[0].path, "/Applications/Zen.app");
    assert_eq!(apps[0].icon, None);
    assert_eq!(apps[0].bundle_id, Some("app.zen-browser.zen".to_string()));
}

#[test]
fn crlf_line_endings_are_removed() {
    let apps = parse_dockutil_output("A\tfile:///Applications/A.app/\r\nB\tfile:///Applications/B.app\r\n");
    assert_eq!(apps.len(), 2);
    assert_eq!(apps[0].path, "/Applications/A.app");
    assert_eq!(apps[1].path, "/Applications/B.app");
}

#[test]
fn name_is_trimmed_and_empty_bundle_id_kept() {
    let apps = parse_dockutil_output("  Mail \tfile:///System/Applications/Mail.app/\tpersistentApps\tplist\t");
    assert_eq!(apps.len(), 1);
    assert_eq!(apps[0].name, "Mail");
    assert_eq!(apps[0].bundle_id, Some(String::new()));
}

#[test]
fn four_fields_give_no_bundle_id() {
    let apps = parse_dockutil_output("Notes\tfile:///Applications/Notes.app/\tpersistentApps\tplist");
    assert_eq!(apps.len(), 1);
    assert_eq!(apps[0].bundle_id, None);
}

#[test]
fn lines_around_skipped_ones_keep_their_order() {
    let output = "X\tfile:///Applications/X.app/\n\nbroken\nDocs\tfile:///Users/me/Documents/\nY\tfile:///Applications/Y%20Z.app\n";
    let apps = parse_dockutil_output(output);
    assert_eq!(apps.len(), 2);
    assert_eq!(apps[0].name, "X");
    assert_eq!(apps[1].path, "/Applications/Y Z.app");
}

#[test]
fn repeated_scheme_and_slashes_are_stripped() {
    let apps = parse_dockutil_output("R\tfile://file:///Applications/R.app/");
    assert_eq!(apps.len(), 1);
    assert_eq!(apps[0].path, "/Applications/R.app");
    let none = parse_dockutil_output("R\tfile:///Applications/R.app//");
    assert!(none.is_empty());
}

#[test]
fn percent_decode_keeps_invalid_utf8_input() {
    assert_eq!(percent_decode("a%FFb"), "a%FFb");
}

#[test]
fn percent_decode_multibyte_and_mixed_case() {
    assert_eq!(percent_decode("%C3%A9t%c3%a9"), "été");
    assert_eq!(percent_decode("%41%2f"), "A/");
}

#[test]
fn percent_decode_sign_is_no_hex_digit() {
    assert_eq!(percent_decode("%+1x"), "%+1x");
}

#[test]
fn percent_decode_escape_at_end_is_kept() {
    assert_eq!(percent_decode("a%41"), "aA");
    assert_eq!(percent_decode("%41"), "A");
}

#[test]
fn short_first_line_leaves_the_rest_as_is() {
    let rest = "A\tfile:///Applications/A.app/\nB\tfile:///Applications/B.app";
    let with_short = format!("short line\n{}", rest);
    let a = parse_dockutil_output(&with_short);
    let b = parse_dockutil_output(rest);
    assert_eq!(a, b);
    assert_eq!(a.len(), 2);
}
