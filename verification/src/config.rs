//! Configuration façade: the error taxonomy of the settings reader, the
//! platform decision for the playback binary, and the fixed names under the
//! application's config directory. Reading and writing the files themselves
//! happens outside the library, which hands paths and file contents in as
//! plain strings.

use vstd::prelude::*;

verus! {

/// Why configuration could not be read or written. Each variant carries the
/// path concerned and the underlying error's text.
#[derive(Debug)]
pub enum ConfigError {
    /// A settings file could not be read.
    FileRead { path: String, detail: String },
    /// A settings file could not be written.
    FileWrite { path: String, detail: String },
    /// A settings file held malformed JSON.
    JsonParse { path: String, detail: String },
    /// Settings could not be serialized to JSON.
    JsonSerialize { path: String, detail: String },
    /// The operating system is not one the playback binary is known for.
    PlatformError { os: String },
}

/// The user-facing text of a configuration error.
pub open spec fn spec_config_error_message(e: ConfigError) -> Seq<char> {
    match e {
        ConfigError::FileRead { path, detail } => "Failed to read settings file at "@ + path@
            + ": "@ + detail@,
        ConfigError::FileWrite { path, detail } => "Failed to write settings file at "@ + path@
            + ": "@ + detail@,
        ConfigError::JsonParse { path, detail } =>
            "Failed to parse JSON in settings file at "@ + path@ + ": "@ + detail@,
        ConfigError::JsonSerialize { path, detail } =>
            "Failed to serialize JSON for settings file at "@ + path@ + ": "@ + detail@,
        ConfigError::PlatformError { os } =>
            "Unable to locate Playback Dolphin for unknown platform: "@ + os@
                + ", please submit a bug report to the repository indicating your operating system:\nhttps://github.com/gcpreston/swb-rs/issues/new"@,
    }
}

impl ConfigError {
    /// Render the error for the user, exactly as
    /// `spec_config_error_message` says.
    pub fn message(&self) -> (msg: String)
        ensures
            msg@ == spec_config_error_message(*self),
    {
        match self {
            ConfigError::FileRead { path, detail } => {
                let mut m = String::from_str("Failed to read settings file at ");
                m.append(path.as_str());
                m.append(": ");
                m.append(detail.as_str());
                m
            },
            ConfigError::FileWrite { path, detail } => {
                let mut m = String::from_str("Failed to write settings file at ");
                m.append(path.as_str());
                m.append(": ");
                m.append(detail.as_str());
                m
            },
            ConfigError::JsonParse { path, detail } => {
                let mut m = String::from_str("Failed to parse JSON in settings file at ");
                m.append(path.as_str());
                m.append(": ");
                m.append(detail.as_str());
                m
            },
            ConfigError::JsonSerialize { path, detail } => {
                let mut m = String::from_str("Failed to serialize JSON for settings file at ");
                m.append(path.as_str());
                m.append(": ");
                m.append(detail.as_str());
                m
            },
            ConfigError::PlatformError { os } => {
                let mut m = String::from_str(
                    "Unable to locate Playback Dolphin for unknown platform: ",
                );
                m.append(os.as_str());
                m.append(
                    ", please submit a bug report to the repository indicating your operating system:\nhttps://github.com/gcpreston/swb-rs/issues/new",
                );
                m
            },
        }
    }
}

/// The playback binary's path below the launcher's `playback` directory,
/// decided by the operating system's name; unknown systems are an error.
pub fn playback_binary_subpath(os: &str) -> (res: Result<&'static str, ConfigError>)
    ensures
        match res {
            Ok(p) => (os@ == "linux"@ && p@ == "Slippi_Playback-x86_64.AppImage"@) || (os@
                == "macos"@ && p@ == "Slippi Dolphin.app/Contents/MacOS/Slippi Dolphin"@) || (
            os@ == "windows"@ && p@ == "Slippi Dolphin.exe"@),
            Err(e) => os@ != "linux"@ && os@ != "macos"@ && os@ != "windows"@ && (e matches
                ConfigError::PlatformError { os: o } && o@ == os@),
        },
{
    if String::from_str(os) == String::from_str("linux") {
        Ok("Slippi_Playback-x86_64.AppImage")
    } else if String::from_str(os) == String::from_str("macos") {
        Ok("Slippi Dolphin.app/Contents/MacOS/Slippi Dolphin")
    } else if String::from_str(os) == String::from_str("windows") {
        Ok("Slippi Dolphin.exe")
    } else {
        Err(ConfigError::PlatformError { os: String::from_str(os) })
    }
}

/// The launcher's config directory, relative to this application's: one
/// level further up on Windows, whose config path carries an extra
/// directory.
pub fn launcher_config_relative(os: &str) -> (res: &'static str)
    ensures
        os@ == "windows"@ ==> res@ == "../../Slippi Launcher"@,
        os@ != "windows"@ ==> res@ == "../Slippi Launcher"@,
{
    if String::from_str(os) == String::from_str("windows") {
        "../../Slippi Launcher"
    } else {
        "../Slippi Launcher"
    }
}

/// Name of this application's settings file.
pub fn settings_file_name() -> (res: &'static str)
    ensures
        res@ == "settings.json"@,
{
    "settings.json"
}

/// Name of the directory, below the spectate root, where replay files land
/// by default.
pub fn spectate_subdir_name() -> (res: &'static str)
    ensures
        res@ == "Spectate"@,
{
    "Spectate"
}

/// The comm-spec file's path relative to the application's config
/// directory.
pub fn comm_spec_relative_path() -> (res: &'static str)
    ensures
        res@ == "temp/launch.json"@,
{
    "temp/launch.json"
}

} // verus!
