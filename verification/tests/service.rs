use atlasip::service::{generate_plist, generate_unit_file, plist_path, ServiceError, LABEL, UNIT_PATH};

#[test]
fn test_unit_file_contains_required_fields() {
    let unit = generate_unit_file("/usr/local/bin/atlasip");
    assert!(unit.contains("ExecStart=/usr/local/bin/atlasip serve"));
    assert!(unit.contains("Restart=always"));
    assert!(unit.contains("WantedBy=multi-user.target"));
    assert!(unit.contains("After=network-online.target"));
}

#[test]
fn test_unit_file_exe_path_interpolated() {
    let unit = generate_unit_file("/opt/atlasip/bin/atlasip");
    assert!(unit.contains("ExecStart=/opt/atlasip/bin/atlasip serve"));
}

#[test]
fn test_plist_contains_required_keys() {
    let plist = generate_plist("/usr/local/bin/atlasip", false);
    assert!(plist.contains("<string>com.atlasip.service</string>"));
    assert!(plist.contains("<string>/usr/local/bin/atlasip</string>"));
    assert!(plist.contains("<string>serve</string>"));
    assert!(plist.contains("<key>RunAtLoad</key>"));
    assert!(plist.contains("<true/>"));
    assert!(plist.contains("<key>KeepAlive</key>"));
}

#[test]
fn test_plist_user_mode_omits_username_key() {
    let plist_user = generate_plist("/bin/atlasip", true);
    let plist_system = generate_plist("/bin/atlasip", false);
    assert!(!plist_user.contains("<key>UserName</key>"));
    assert!(plist_system.contains("<key>UserName</key>"));
}

#[test]
fn test_plist_path_user_mode() {
    let path = plist_path(true, Some("/tmp/fake_home")).unwrap();
    assert!(path.contains("LaunchAgents"));
    assert!(path.contains("com.atlasip.service.plist"));
    assert_eq!(path, "/tmp/fake_home/Library/LaunchAgents/com.atlasip.service.plist");
}

#[test]
fn test_plist_path_system_mode() {
    let path = plist_path(false, None).unwrap();
    assert!(path.contains("LaunchDaemons"));
    assert_eq!(path, "/Library/LaunchDaemons/com.atlasip.service.plist");
}

#[test]
fn plist_path_user_mode_needs_home() {
    assert_eq!(plist_path(true, None), Err(ServiceError::HomeNotSet));
}

#[test]
fn service_constants() {
    assert_eq!(UNIT_PATH, "/etc/systemd/system/atlasip.service");
    assert_eq!(LABEL, "com.atlasip.service");
    let unit = generate_unit_file("/x");
    assert!(unit.starts_with("[Unit]\n"));
    assert!(unit.ends_with("WantedBy=multi-user.target\n"));
    let plist = generate_plist("/x", true);
    assert!(plist.ends_with("</plist>\n"));
}
