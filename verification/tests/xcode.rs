use target_aliases::xcode::XcodeVersionInfo;

fn short_version(plist_content: &str) -> String {
    let value = plist::Value::from_reader(std::io::Cursor::new(plist_content.trim_start().as_bytes()))
        .expect("failed to parse version info");
    value
        .as_dictionary()
        .and_then(|dict| dict.get("CFBundleShortVersionString"))
        .and_then(|v| v.as_string())
        .expect("failed to parse version info")
        .to_owned()
}

#[test]
fn test_resolves_version_from_plist() {
    let plist = short_version(
        r#"
<?xml version="1.0" encoding="UTF-8"?>
<!DOCTYPE plist PUBLIC "-//Apple//DTD PLIST 1.0//EN" "http://www.apple.com/DTDs/PropertyList-1.0.dtd">
<plist version="1.0">
<dict>
    <key>CFBundleIconName</key>
    <string>Xcode</string>
    <key>CFBundleShortVersionString</key>
    <string>14.0.1</string>
</dict>
</plist>
        "#,
    );

    let got = XcodeVersionInfo::from_version_string(&plist);
    let want = XcodeVersionInfo {
        version_string: Some("14.0.1".to_owned()),
        major_version: Some("14".to_owned()),
        minor_version: Some("0".to_owned()),
        patch_version: Some("1".to_owned()),
        build_number: None,
    };
    assert_eq!(want, got);
}

#[test]
fn test_resolves_version_from_plist_no_patch_version() {
    let plist = short_version(
        r#"
<?xml version="1.0" encoding="UTF-8"?>
<!DOCTYPE plist PUBLIC "-//Apple//DTD PLIST 1.0//EN" "http://www.apple.com/DTDs/PropertyList-1.0.dtd">
<plist version="1.0">
<dict>
    <key>CFBundleIconName</key>
    <string>Xcode</string>
    <key>CFBundleShortVersionString</key>
    <string>14.0</string>
</dict>
</plist>
        "#,
    );

    let got = XcodeVersionInfo::from_version_string(&plist);
    let want = XcodeVersionInfo {
        version_string: Some("14.0".to_owned()),
        major_version: Some("14".to_owned()),
        minor_version: Some("0".to_owned()),
        patch_version: Some("0".to_owned()),
        build_number: None,
    };
    assert_eq!(want, got);
}

#[test]
fn test_resolves_version_from_plist_beta() {
    let plist = short_version(
        r#"
<?xml version="1.0" encoding="UTF-8"?>
<!DOCTYPE plist PUBLIC "-//Apple//DTD PLIST 1.0//EN" "http://www.apple.com/DTDs/PropertyList-1.0.dtd">
<plist version="1.0">
<dict>
    <key>CFBundleIconName</key>
    <string>XcodeBeta</string>
    <key>CFBundleShortVersionString</key>
    <string>14.0</string>
</dict>
</plist>
        "#,
    );

    let got = XcodeVersionInfo::from_version_string(&plist);
    let want = XcodeVersionInfo {
        version_string: Some("14.0".to_owned()),
        major_version: Some("14".to_owned()),
        minor_version: Some("0".to_owned()),
        patch_version: Some("0".to_owned()),
        build_number: None,
    };
    assert_eq!(want, got);
}

fn fields(version: &str) -> (Option<String>, Option<String>, Option<String>) {
    let info = XcodeVersionInfo::from_version_string(version);
    assert_eq!(info.version_string.as_deref(), Some(version));
    assert_eq!(info.build_number, None);
    (info.major_version, info.minor_version, info.patch_version)
}

fn some(text: &str) -> Option<String> {
    Some(text.to_owned())
}

#[test]
fn version_with_one_field() {
    assert_eq!(fields("14"), (some("14"), None, some("0")));
}

#[test]
fn empty_version() {
    assert_eq!(fields(""), (some(""), None, some("0")));
}

#[test]
fn version_with_more_than_three_fields() {
    assert_eq!(fields("14.0.1.2"), (some("14"), some("0"), some("1")));
}

#[test]
fn version_with_empty_fields() {
    assert_eq!(fields("14..1"), (some("14"), some(""), some("1")));
    assert_eq!(fields("14.3."), (some("14"), some("3"), some("")));
    assert_eq!(fields("."), (some(""), some(""), some("0")));
}

#[test]
fn version_with_wide_characters() {
    assert_eq!(fields("1\u{3b2}.\u{4e2d}2.x"), (some("1\u{3b2}"), some("\u{4e2d}2"), some("x")));
}

#[test]
fn default_version_info_is_empty() {
    let info = XcodeVersionInfo::default();
    assert_eq!(info.version_string, None);
    assert_eq!(info.major_version, None);
    assert_eq!(info.patch_version, None);
}
