use sys_switch::elevation::{
    elevate_if_needed, linux_elevation_outcome, pkexec_arguments, session_env_keys,
    windows_elevation_outcome, windows_parameters, Elevation,
};

#[test]
fn elevation_only_when_not_elevated() {
    assert_eq!(elevate_if_needed(true, true), Elevation::NotNeeded);
    assert_eq!(elevate_if_needed(true, false), Elevation::Relaunch);
}

#[test]
fn session_keys_in_order() {
    assert_eq!(
        session_env_keys(),
        vec!["DISPLAY", "XAUTHORITY", "WAYLAND_DISPLAY", "XDG_RUNTIME_DIR"]
    );
}

#[test]
fn pkexec_argument_list() {
    let env = vec![
        ("DISPLAY".to_string(), Some(":0".to_string())),
        ("XAUTHORITY".to_string(), None),
        ("WAYLAND_DISPLAY".to_string(), Some("wayland-0".to_string())),
        ("XDG_RUNTIME_DIR".to_string(), None),
    ];
    let args = vec!["list".to_string()];
    let (before, after) = pkexec_arguments(&env, &args);
    assert_eq!(before, vec!["env", "DISPLAY=:0", "WAYLAND_DISPLAY=wayland-0"]);
    assert_eq!(after, vec!["list"]);
    let (before, after) = pkexec_arguments(&Vec::new(), &Vec::new());
    assert_eq!(before, vec!["env"]);
    assert!(after.is_empty());
}

#[test]
fn elevation_outcomes() {
    assert_eq!(linux_elevation_outcome(true), Ok(true));
    assert_eq!(
        linux_elevation_outcome(false),
        Err("Root privileges required. Please run with sudo".to_string())
    );
    assert_eq!(windows_elevation_outcome(42), Ok(true));
    assert_eq!(
        windows_elevation_outcome(5),
        Err("Failed to elevate: error code 5".to_string())
    );
    assert_eq!(windows_elevation_outcome(32), Err("Failed to elevate: error code 32".to_string()));
    assert_eq!(windows_parameters(&vec!["--cli".to_string(), "set".to_string(), "1".to_string()]), "--cli set 1");
}
