use multishiva::permissions::{check_permissions, get_permission_help, PermissionStatus, SystemProbe};

#[test]
fn test_permission_status_is_granted() {
    let granted = PermissionStatus::Granted;
    assert!(granted.is_granted());

    let denied = PermissionStatus::Denied {
        missing: vec!["test".to_string()],
    };
    assert!(!denied.is_granted());

    let unknown = PermissionStatus::Unknown;
    assert!(!unknown.is_granted());
}

#[test]
fn test_permission_status_missing() {
    let denied = PermissionStatus::Denied {
        missing: vec!["perm1".to_string(), "perm2".to_string()],
    };
    assert_eq!(denied.missing_permissions().len(), 2);

    let granted = PermissionStatus::Granted;
    assert_eq!(granted.missing_permissions().len(), 0);
}

#[test]
fn test_check_permissions() {
    let probe = SystemProbe {
        uinput_device_present: true,
        uinput_mode_ok: true,
        input_group_member: false,
        display_available: true,
    };
    let result = check_permissions(&probe);
    assert!(result.is_granted());
}

#[test]
fn test_check_permissions_denied_cases() {
    let no_module = SystemProbe {
        uinput_device_present: false,
        uinput_mode_ok: false,
        input_group_member: true,
        display_available: true,
    };
    let status = check_permissions(&no_module);
    assert_eq!(status.missing_permissions(), vec!["uinput kernel module".to_string()]);

    let no_access = SystemProbe {
        uinput_device_present: true,
        uinput_mode_ok: false,
        input_group_member: false,
        display_available: false,
    };
    let status = check_permissions(&no_access);
    assert_eq!(
        status.missing_permissions(),
        vec![
            "input group membership or /dev/uinput access".to_string(),
            "X11 or Wayland display server".to_string(),
        ]
    );
}

#[test]
fn test_get_permission_help() {
    assert!(get_permission_help("macos").contains("Accessibility"));
    assert!(get_permission_help("linux").contains("uinput"));
    assert!(get_permission_help("windows").contains("Windows"));
    assert!(!get_permission_help("plan9").is_empty());
}
