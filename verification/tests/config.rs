use swb::config::{
    comm_spec_relative_path, launcher_config_relative, playback_binary_subpath,
    settings_file_name, spectate_subdir_name, ConfigError,
};

#[test]
fn playback_binary_per_platform() {
    assert_eq!(
        playback_binary_subpath("linux").unwrap(),
        "Slippi_Playback-x86_64.AppImage"
    );
    assert_eq!(
        playback_binary_subpath("macos").unwrap(),
        "Slippi Dolphin.app/Contents/MacOS/Slippi Dolphin"
    );
    assert_eq!(playback_binary_subpath("windows").unwrap(), "Slippi Dolphin.exe");
}

#[test]
fn unknown_platform_is_an_error() {
    let err = playback_binary_subpath("plan9").unwrap_err();
    match &err {
        ConfigError::PlatformError { os } => assert_eq!(os, "plan9"),
        _ => panic!("expected a platform error"),
    }
    let msg = err.message();
    assert!(msg.starts_with("Unable to locate Playback Dolphin for unknown platform: plan9"));
}

#[test]
fn error_messages_name_the_path_and_cause() {
    let err = ConfigError::FileRead {
        path: "/cfg/settings.json".to_string(),
        detail: "No such file".to_string(),
    };
    assert_eq!(
        err.message(),
        "Failed to read settings file at /cfg/settings.json: No such file"
    );
    let err = ConfigError::JsonParse {
        path: "/cfg/settings.json".to_string(),
        detail: "expected value".to_string(),
    };
    assert_eq!(
        err.message(),
        "Failed to parse JSON in settings file at /cfg/settings.json: expected value"
    );
}

#[test]
fn fixed_names_under_the_config_directory() {
    assert_eq!(settings_file_name(), "settings.json");
    assert_eq!(spectate_subdir_name(), "Spectate");
    assert_eq!(comm_spec_relative_path(), "temp/launch.json");
    assert_eq!(launcher_config_relative("windows"), "../../Slippi Launcher");
    assert_eq!(launcher_config_relative("linux"), "../Slippi Launcher");
}
