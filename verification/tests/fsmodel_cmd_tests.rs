use cli_sync::cmd::create_command;
use cli_sync::errors::CliError;
use cli_sync::fsmodel::{copy_bytes, FsModel};

#[test]
fn model_read_back_what_was_written() {
    let mut fs = FsModel::new();
    assert!(!fs.contains_path("/a/b"));
    fs.write("/a/b", vec![1, 2, 3], 0o644);
    assert!(fs.contains_path("/a/b"));
    let f = fs.read("/a/b").unwrap();
    assert_eq!(f.bytes, vec![1, 2, 3]);
    assert_eq!(f.mode, 0o644);
    assert!(fs.read("/other").is_none());
}

#[test]
fn model_last_write_wins() {
    let mut fs = FsModel::new();
    fs.write("/a", vec![1], 0o644);
    fs.write("/a", vec![9, 9], 0o755);
    let f = fs.read("/a").unwrap();
    assert_eq!(f.bytes, vec![9, 9]);
    assert_eq!(f.mode, 0o755);
}

#[test]
fn copy_bytes_is_exact() {
    let src = vec![0u8, 255, 7, 42];
    assert_eq!(copy_bytes(&src), src);
    let empty: Vec<u8> = Vec::new();
    assert_eq!(copy_bytes(&empty), empty);
}

#[test]
fn command_splits_arguments_and_injects_environment() {
    let c = create_command("run --flag  x", "/data/state");
    assert_eq!(c.program, "anyon-cli");
    assert_eq!(
        c.args,
        vec![String::from("run"), String::from("--flag"), String::from("x")]
    );
    assert_eq!(c.env.len(), 3);
    assert_eq!(
        c.env[0],
        (
            String::from("ANYON_EXPERIMENTAL_ICON_DISCOVERY"),
            String::from("true")
        )
    );
    assert_eq!(c.env[1], (String::from("ANYON_CLIENT"), String::from("desktop")));
    assert_eq!(
        c.env[2],
        (String::from("XDG_STATE_HOME"), String::from("/data/state"))
    );
}

#[test]
fn command_with_empty_arguments() {
    let c = create_command("", "/s");
    assert!(c.args.is_empty());
    let c2 = create_command("   ", "/s");
    assert!(c2.args.is_empty());
}

#[test]
fn error_descriptions() {
    assert_eq!(
        CliError::UnsupportedPlatform.describe(),
        "CLI installation is only supported on macOS & Linux"
    );
    assert_eq!(CliError::SidecarNotFound.describe(), "Sidecar binary not found");
    assert_eq!(CliError::Configuration.describe(), "Could not determine install path");
    assert_eq!(
        CliError::Resolution.describe(),
        "Could not determine the running binary's location"
    );
    assert_eq!(CliError::Filesystem.describe(), "Filesystem operation failed");
    assert_eq!(CliError::VersionQuery.describe(), "Failed to get CLI version");
    assert_eq!(CliError::VersionParse.describe(), "Failed to parse CLI version");
}
