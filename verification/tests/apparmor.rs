use ssamd::apparmor::{
    enabled_next, find_mountpoint_candidates, get_profile, is_enabled_internal, is_yes,
    lines_end_plainly, parse_profiles, AppArmorState, EnabledStep, ProfileMode, ReadError,
};

fn state() -> AppArmorState {
    AppArmorState {
        enabled: Err(ReadError::NotFound),
        available: Err(ReadError::NotFound),
        mountpoint: Ok(false),
    }
}

#[test]
fn test_enabled_and_mounted() {
    let sys = AppArmorState { enabled: Ok(true), mountpoint: Ok(true), ..state() };
    assert!(is_enabled_internal(&sys).unwrap());
}

#[test]
fn test_enabled_but_no_mount() {
    let sys = AppArmorState { enabled: Ok(true), ..state() };
    assert!(!is_enabled_internal(&sys).unwrap());
}

#[test]
fn test_disabled_explicitly() {
    let sys = AppArmorState { enabled: Ok(false), available: Ok(false), ..state() };
    assert!(!is_enabled_internal(&sys).unwrap());
}

#[test]
fn test_params_missing() {
    assert!(!is_enabled_internal(&state()).unwrap());
}

#[test]
fn test_disabled_but_available_and_mounted() {
    let sys = AppArmorState { enabled: Ok(false), available: Ok(true), mountpoint: Ok(true) };
    assert!(!is_enabled_internal(&sys).unwrap());
}

#[test]
fn test_disabled_but_available_no_mount() {
    let sys = AppArmorState { enabled: Ok(false), available: Ok(true), ..state() };
    assert!(!is_enabled_internal(&sys).unwrap());
}

#[test]
fn test_enabled_missing_but_available() {
    let sys = AppArmorState { available: Ok(true), mountpoint: Ok(true), ..state() };
    assert!(!is_enabled_internal(&sys).unwrap());
}

#[test]
fn test_enabled_param_permission_denied() {
    let sys = AppArmorState { enabled: Err(ReadError::PermissionDenied), ..state() };
    let result = is_enabled_internal(&sys);
    assert!(result.is_err());
    assert_eq!(result.unwrap_err(), ReadError::PermissionDenied);
}

#[test]
fn test_available_param_permission_denied() {
    let sys = AppArmorState { available: Err(ReadError::PermissionDenied), ..state() };
    let result = is_enabled_internal(&sys);
    assert!(result.is_err());
    assert_eq!(result.unwrap_err(), ReadError::PermissionDenied);
}

#[test]
fn test_mountpoint_error() {
    let sys = AppArmorState {
        enabled: Ok(true),
        mountpoint: Err(ReadError::PermissionDenied),
        ..state()
    };
    let result = is_enabled_internal(&sys);
    assert!(result.is_err());
    assert_eq!(result.unwrap_err(), ReadError::PermissionDenied);
}

#[test]
fn test_mountpoint_error_in_private_mode() {
    let sys = AppArmorState {
        enabled: Ok(false),
        available: Ok(true),
        mountpoint: Err(ReadError::Other),
    };
    assert!(is_enabled_internal(&sys).is_err());
}

#[test]
fn test_enabled_param_other_io_error() {
    let sys = AppArmorState { enabled: Err(ReadError::Other), ..state() };
    let result = is_enabled_internal(&sys);
    assert!(result.is_err());
    assert_eq!(result.unwrap_err(), ReadError::Other);
}

#[test]
fn test_parse_profiles() {
    let content = "docker-default (enforce)\n\
                   /usr/sbin/cupsd (complain)\n\
                   /usr/lib/snapd/snap-confine (unconfined)\n\
                   /usr/bin/man (kill)\n\
                   unknown-mode (weird-mode)\n\
                   invalid-format\n\
                   empty-mode ()\n";

    assert!(lines_end_plainly(content));
    let profiles = parse_profiles(content);

    assert_eq!(profiles.len(), 5);

    assert_eq!(profiles[0].name, "docker-default");
    assert_eq!(profiles[0].mode, ProfileMode::Enforce);

    assert_eq!(profiles[1].name, "/usr/sbin/cupsd");
    assert_eq!(profiles[1].mode, ProfileMode::Complain);

    assert_eq!(profiles[2].name, "/usr/lib/snapd/snap-confine");
    assert_eq!(profiles[2].mode, ProfileMode::Unconfined);

    assert_eq!(profiles[3].name, "/usr/bin/man");
    assert_eq!(profiles[3].mode, ProfileMode::Kill);

    assert_eq!(profiles[4].name, "unknown-mode");
    match &profiles[4].mode {
        ProfileMode::Unknown(s) => assert_eq!(s, "weird-mode"),
        _ => panic!("Expected Unknown mode"),
    }
}

#[test]
fn profiles_with_carriage_returns_and_no_final_newline() {
    let profiles = parse_profiles("a (b) (enforce)\r\nlast (kill)");
    assert_eq!(profiles.len(), 2);
    assert_eq!(profiles[0].name, "a (b)");
    assert_eq!(profiles[0].mode, ProfileMode::Enforce);
    assert_eq!(profiles[1].name, "last");
    assert_eq!(profiles[1].mode, ProfileMode::Kill);
}

#[test]
fn lines_that_end_in_a_long_character_are_told() {
    assert!(!lines_end_plainly("x (\u{e9}"));
    assert!(lines_end_plainly("x \u{e9}"));
}

#[test]
fn get_profile_finds_the_first_of_a_name() {
    let profiles = parse_profiles("a (enforce)\nb (kill)\na (complain)\n");
    assert_eq!(get_profile(&profiles, "a").unwrap().mode, ProfileMode::Enforce);
    assert_eq!(get_profile(&profiles, "b").unwrap().mode, ProfileMode::Kill);
    assert!(get_profile(&profiles, "c").is_none());
}

#[test]
fn steps_read_only_what_is_needed() {
    assert!(matches!(
        enabled_next(EnabledStep::ReadEnabled, Ok(true)),
        EnabledStep::FindMountpoint { public: true }
    ));
    assert!(matches!(
        enabled_next(EnabledStep::ReadEnabled, Err(ReadError::NotFound)),
        EnabledStep::ReadAvailable
    ));
    assert!(matches!(
        enabled_next(EnabledStep::ReadAvailable, Ok(false)),
        EnabledStep::Finish(Ok(false))
    ));
}

#[test]
fn parameter_files_say_yes() {
    assert!(is_yes("Y\n"));
    assert!(is_yes("  Y \n"));
    assert!(!is_yes("N\n"));
    assert!(!is_yes(""));
    assert!(!is_yes("YY"));
}

#[test]
fn mountpoint_is_looked_for_below_security_file_systems() {
    let mounts = vec![
        ("ext4".to_string(), "/".to_string()),
        ("securityfs".to_string(), "/sys/kernel/security".to_string()),
    ];
    assert_eq!(
        find_mountpoint_candidates(&mounts),
        vec!["/sys/kernel/security/apparmor".to_string()]
    );
}
