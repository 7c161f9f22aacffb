use cli_sync::errors::CliError;
use cli_sync::fsmodel::FsModel;
use cli_sync::install::{install_cli, is_cli_installed, sync_cli, QueryOutcome};
use cli_sync::target::{Arch, Os};
use cli_sync::version::{parse_version, Version};

const EXE: &str = "/opt/app/bin/host";
const SIDECAR: &str = "/opt/app/bin/anyon-cli-x86_64-unknown-linux-gnu";
const DEST: &str = "/home/u/.anyon/bin/anyon";

fn home() -> Option<String> {
    Some(String::from("/home/u"))
}

fn fs_with_sidecar(bytes: &[u8]) -> FsModel {
    let mut fs = FsModel::new();
    fs.write(SIDECAR, bytes.to_vec(), 0o644);
    fs
}

fn v(s: &str) -> Version {
    parse_version(s).unwrap()
}

#[test]
fn install_copies_sidecar_to_destination() {
    let mut fs = fs_with_sidecar(&[7, 8, 9]);
    let r = install_cli(Arch::X86_64, Os::Linux, EXE, &home(), &mut fs);
    assert_eq!(r, Ok(String::from(DEST)));
    let f = fs.read(DEST).unwrap();
    assert_eq!(f.bytes, vec![7, 8, 9]);
    assert_eq!(f.mode, 0o755);
}

#[test]
fn install_is_idempotent() {
    let mut fs = fs_with_sidecar(&[1, 2]);
    let r1 = install_cli(Arch::X86_64, Os::Linux, EXE, &home(), &mut fs);
    let first = fs.read(DEST).unwrap().bytes.clone();
    let r2 = install_cli(Arch::X86_64, Os::Linux, EXE, &home(), &mut fs);
    let second = fs.read(DEST).unwrap().bytes.clone();
    assert_eq!(r1, Ok(String::from(DEST)));
    assert_eq!(r2, Ok(String::from(DEST)));
    assert_eq!(first, second);
    assert_eq!(second, vec![1, 2]);
}

#[test]
fn install_rejects_non_posix_before_touching_anything() {
    let mut fs = fs_with_sidecar(&[1]);
    let r = install_cli(Arch::X86_64, Os::Windows, EXE, &home(), &mut fs);
    assert_eq!(r, Err(CliError::UnsupportedPlatform));
    assert!(fs.read(DEST).is_none());
}

#[test]
fn install_rejects_unsupported_arch() {
    let mut fs = fs_with_sidecar(&[1]);
    let r = install_cli(Arch::Aarch64, Os::Linux, EXE, &home(), &mut fs);
    assert_eq!(r, Err(CliError::UnsupportedPlatform));
    assert!(fs.read(DEST).is_none());
}

#[test]
fn install_requires_the_sidecar() {
    let mut fs = FsModel::new();
    let r = install_cli(Arch::X86_64, Os::Linux, EXE, &home(), &mut fs);
    assert_eq!(r, Err(CliError::SidecarNotFound));
    assert!(fs.read(DEST).is_none());
}

#[test]
fn install_requires_a_home() {
    let mut fs = fs_with_sidecar(&[1]);
    let r = install_cli(Arch::X86_64, Os::Linux, EXE, &None, &mut fs);
    assert_eq!(r, Err(CliError::Configuration));
    assert!(fs.read(DEST).is_none());
}

#[test]
fn install_reports_unresolvable_binary_location() {
    let mut fs = FsModel::new();
    let r = install_cli(Arch::X86_64, Os::Linux, "host", &home(), &mut fs);
    assert_eq!(r, Err(CliError::Resolution));
}

#[test]
fn installed_check() {
    let mut fs = FsModel::new();
    assert!(!is_cli_installed(&home(), &fs));
    assert!(!is_cli_installed(&None, &fs));
    fs.write(DEST, vec![1], 0o755);
    assert!(is_cli_installed(&home(), &fs));
    assert!(!is_cli_installed(&None, &fs));
}

#[test]
fn sync_debug_build_is_a_no_op() {
    let mut fs = fs_with_sidecar(&[1]);
    fs.write(DEST, vec![0], 0o755);
    let q = QueryOutcome::Stdout(String::from("0.0.1"));
    let r = sync_cli(true, Arch::X86_64, Os::Linux, EXE, &home(), &v("2.0.5"), &q, &mut fs);
    assert_eq!(r, Ok(()));
    assert_eq!(fs.read(DEST).unwrap().bytes, vec![0]);
}

#[test]
fn sync_without_installation_writes_nothing() {
    let mut fs = fs_with_sidecar(&[1]);
    let q = QueryOutcome::Failure;
    let r = sync_cli(false, Arch::X86_64, Os::Linux, EXE, &home(), &v("2.0.5"), &q, &mut fs);
    assert_eq!(r, Ok(()));
    assert!(fs.read(DEST).is_none());
    assert_eq!(fs.files.len(), 1);
}

#[test]
fn sync_overwrites_stale_installation() {
    let mut fs = fs_with_sidecar(&[7, 7, 7]);
    fs.write(DEST, vec![0], 0o755);
    let q = QueryOutcome::Stdout(String::from("1.9.0\n"));
    let r = sync_cli(false, Arch::X86_64, Os::Linux, EXE, &home(), &v("2.0.5"), &q, &mut fs);
    assert_eq!(r, Ok(()));
    let f = fs.read(DEST).unwrap();
    assert_eq!(f.bytes, vec![7, 7, 7]);
    assert_eq!(f.mode, 0o755);
}

#[test]
fn sync_keeps_newer_installation() {
    let mut fs = fs_with_sidecar(&[7, 7, 7]);
    fs.write(DEST, vec![0], 0o755);
    let q = QueryOutcome::Stdout(String::from("2.1.0\n"));
    let r = sync_cli(false, Arch::X86_64, Os::Linux, EXE, &home(), &v("2.0.5"), &q, &mut fs);
    assert_eq!(r, Ok(()));
    assert_eq!(fs.read(DEST).unwrap().bytes, vec![0]);
}

#[test]
fn sync_keeps_equal_installation() {
    let mut fs = fs_with_sidecar(&[7]);
    fs.write(DEST, vec![0], 0o755);
    let q = QueryOutcome::Stdout(String::from("2.0.5"));
    let r = sync_cli(false, Arch::X86_64, Os::Linux, EXE, &home(), &v("2.0.5"), &q, &mut fs);
    assert_eq!(r, Ok(()));
    assert_eq!(fs.read(DEST).unwrap().bytes, vec![0]);
}

#[test]
fn sync_aborts_on_malformed_version_output() {
    let mut fs = fs_with_sidecar(&[7]);
    fs.write(DEST, vec![0], 0o755);
    let q = QueryOutcome::Stdout(String::from("not-a-version"));
    let r = sync_cli(false, Arch::X86_64, Os::Linux, EXE, &home(), &v("2.0.5"), &q, &mut fs);
    assert_eq!(r, Err(CliError::VersionParse));
    assert_eq!(fs.read(DEST).unwrap().bytes, vec![0]);
}

#[test]
fn sync_aborts_on_query_failure() {
    let mut fs = fs_with_sidecar(&[7]);
    fs.write(DEST, vec![0], 0o755);
    let q = QueryOutcome::Failure;
    let r = sync_cli(false, Arch::X86_64, Os::Linux, EXE, &home(), &v("2.0.5"), &q, &mut fs);
    assert_eq!(r, Err(CliError::VersionQuery));
    assert_eq!(fs.read(DEST).unwrap().bytes, vec![0]);
}

#[test]
fn sync_surfaces_install_failure() {
    // Installed and stale, but the sidecar has gone missing.
    let mut fs = FsModel::new();
    fs.write(DEST, vec![0], 0o755);
    let q = QueryOutcome::Stdout(String::from("1.0.0"));
    let r = sync_cli(false, Arch::X86_64, Os::Linux, EXE, &home(), &v("2.0.5"), &q, &mut fs);
    assert_eq!(r, Err(CliError::SidecarNotFound));
    assert_eq!(fs.read(DEST).unwrap().bytes, vec![0]);
}
