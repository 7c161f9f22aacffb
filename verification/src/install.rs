//! The installer and the version synchronizer: the state transitions over
//! the filesystem model, and the decision whether an installed binary is
//! stale. The shell around the library performs the real copy, permission
//! and subprocess work and hands their outcomes in as plain values.

use vstd::prelude::*;
use crate::errors::CliError;
use crate::fsmodel::{copy_bytes, FsMap, FsModel};
use crate::paths::{
    get_cli_install_path,
    get_sidecar_path,
    home_view,
    install_path_view,
    sidecar_path_view,
};
use crate::strutil::{trim, trim_view};
use crate::target::{is_posix, os_is_posix, triple_view, Arch, Os};
use crate::version::{parse_version, semver_parsed, split_dots, version_lt, Version, VersionView};

verus! {

// ---------------------------------------------------------------------------
// Install
// ---------------------------------------------------------------------------
/// What installing returns: the destination path, or the first failing
/// check's error, in the order the checks are made.
pub open spec fn install_result(
    arch: Arch,
    os: Os,
    exe: Seq<char>,
    home: Option<Seq<char>>,
    m: FsMap,
) -> Result<Seq<char>, CliError> {
    if !os_is_posix(os) {
        Err(CliError::UnsupportedPlatform)
    } else if triple_view(arch, os) is None {
        Err(CliError::UnsupportedPlatform)
    } else if sidecar_path_view(exe, triple_view(arch, os).unwrap()) is None {
        Err(CliError::Resolution)
    } else if !m.dom().contains(sidecar_path_view(exe, triple_view(arch, os).unwrap()).unwrap()) {
        Err(CliError::SidecarNotFound)
    } else if home is None {
        Err(CliError::Configuration)
    } else {
        Ok(install_path_view(home.unwrap()))
    }
}

/// The filesystem after installing: on success the destination holds the
/// sidecar's bytes under mode rwxr-xr-x; on any failure nothing changes.
pub open spec fn install_post(
    arch: Arch,
    os: Os,
    exe: Seq<char>,
    home: Option<Seq<char>>,
    m: FsMap,
) -> FsMap {
    if install_result(arch, os, exe, home, m) is Ok {
        let sc = sidecar_path_view(exe, triple_view(arch, os).unwrap()).unwrap();
        m.insert(install_path_view(home.unwrap()), (m[sc].0, 0o755u32))
    } else {
        m
    }
}

/// Installs the bundled sidecar at the single install location: verifies the
/// platform, resolves the sidecar source, and copies its bytes to the
/// destination with executable permissions. Returns the destination path.
/// Directory creation is idempotent and not part of the model; a real
/// directory, copy or permission failure is the shell's `Filesystem` error.
pub fn install_cli(
    arch: Arch,
    os: Os,
    exe_path: &str,
    home: &Option<String>,
    fs: &mut FsModel,
) -> (r: Result<String, CliError>)
    ensures
        final(fs).as_map() == install_post(arch, os, exe_path@, home_view(home), old(fs).as_map()),
        match r {
            Ok(p) => install_result(arch, os, exe_path@, home_view(home), old(fs).as_map())
                == Ok::<Seq<char>, CliError>(p@),
            Err(e) => install_result(arch, os, exe_path@, home_view(home), old(fs).as_map())
                == Err::<Seq<char>, CliError>(e),
        },
{
    if !is_posix(os) {
        return Err(CliError::UnsupportedPlatform);
    }
    let sidecar = match get_sidecar_path(exe_path, arch, os) {
        Ok(p) => p,
        Err(e) => {
            return Err(e);
        },
    };
    let bytes = match fs.read(sidecar.as_str()) {
        Some(f) => copy_bytes(&f.bytes),
        None => {
            return Err(CliError::SidecarNotFound);
        },
    };
    let dest = match get_cli_install_path(home) {
        Some(p) => p,
        None => {
            return Err(CliError::Configuration);
        },
    };
    fs.write(dest.as_str(), bytes, 0o755);
    Ok(dest)
}

/// Existence check at the install path; a missing home directory counts as
/// "not installed", not as an error.
pub open spec fn installed_view(home: Option<Seq<char>>, m: FsMap) -> bool {
    home matches Some(h) && m.dom().contains(install_path_view(h))
}

/// Whether a binary is installed at the install location.
pub fn is_cli_installed(home: &Option<String>, fs: &FsModel) -> (r: bool)
    ensures
        r == installed_view(home_view(home), fs.as_map()),
{
    match get_cli_install_path(home) {
        Some(p) => fs.contains_path(p.as_str()),
        None => false,
    }
}

// ---------------------------------------------------------------------------
// Sync
// ---------------------------------------------------------------------------
/// Outcome of asking the installed binary for its version: the text it
/// printed to standard output, or failure to spawn or exit successfully.
pub enum QueryOutcome {
    Failure,
    Stdout(String),
}

/// View of a query outcome.
pub open spec fn query_view(q: &QueryOutcome) -> Option<Seq<char>> {
    match q {
        QueryOutcome::Failure => None,
        QueryOutcome::Stdout(s) => Some(s@),
    }
}

/// The version a successful parse denotes, its pre-release text split into
/// identifiers.
pub open spec fn parsed_version_view(parts: (u64, u64, u64, Seq<char>)) -> VersionView {
    VersionView { major: parts.0, minor: parts.1, patch: parts.2, pre: split_dots(parts.3) }
}

/// What synchronizing returns: a debug build and a missing installation are
/// legitimate no-action successes; a failed query, malformed version text,
/// or a failing reinstall abort this attempt with that error.
pub open spec fn sync_result(
    debug: bool,
    arch: Arch,
    os: Os,
    exe: Seq<char>,
    home: Option<Seq<char>>,
    app: VersionView,
    q: Option<Seq<char>>,
    m: FsMap,
) -> Result<(), CliError> {
    if debug {
        Ok(())
    } else if !installed_view(home, m) {
        Ok(())
    } else if q is None {
        Err(CliError::VersionQuery)
    } else {
        match semver_parsed(trim_view(q.unwrap())) {
            None => Err(CliError::VersionParse),
            Some(parts) => if !version_lt(parsed_version_view(parts), app) {
                Ok(())
            } else {
                match install_result(arch, os, exe, home, m) {
                    Ok(_) => Ok(()),
                    Err(e) => Err(e),
                }
            },
        }
    }
}

/// The filesystem after synchronizing: unchanged unless an installed,
/// well-formed, strictly older version forces a reinstall.
pub open spec fn sync_post(
    debug: bool,
    arch: Arch,
    os: Os,
    exe: Seq<char>,
    home: Option<Seq<char>>,
    app: VersionView,
    q: Option<Seq<char>>,
    m: FsMap,
) -> FsMap {
    if debug || !installed_view(home, m) || q is None {
        m
    } else {
        match semver_parsed(trim_view(q.unwrap())) {
            None => m,
            Some(parts) => if !version_lt(parsed_version_view(parts), app) {
                m
            } else {
                install_post(arch, os, exe, home, m)
            },
        }
    }
}

/// Synchronizes the installed binary with the application's version, once at
/// startup. Debug builds succeed as a no-op; so does a missing installation
/// (a first run never auto-installs). Otherwise the installed binary's
/// trimmed version output is parsed and compared; a strictly older installed
/// version is overwritten by a fresh install. Nothing is retried.
pub fn sync_cli(
    debug: bool,
    arch: Arch,
    os: Os,
    exe_path: &str,
    home: &Option<String>,
    app_version: &Version,
    query: &QueryOutcome,
    fs: &mut FsModel,
) -> (r: Result<(), CliError>)
    ensures
        final(fs).as_map() == sync_post(
            debug,
            arch,
            os,
            exe_path@,
            home_view(home),
            app_version@,
            query_view(query),
            old(fs).as_map(),
        ),
        match r {
            Ok(_) => sync_result(
                debug,
                arch,
                os,
                exe_path@,
                home_view(home),
                app_version@,
                query_view(query),
                old(fs).as_map(),
            ) == Ok::<(), CliError>(()),
            Err(e) => sync_result(
                debug,
                arch,
                os,
                exe_path@,
                home_view(home),
                app_version@,
                query_view(query),
                old(fs).as_map(),
            ) == Err::<(), CliError>(e),
        },
{
    if debug {
        return Ok(());
    }
    if !is_cli_installed(home, fs) {
        return Ok(());
    }
    let out = match query {
        QueryOutcome::Failure => {
            return Err(CliError::VersionQuery);
        },
        QueryOutcome::Stdout(s) => s,
    };
    let trimmed = trim(out.as_str());
    let installed_version = match parse_version(trimmed) {
        Ok(v) => v,
        Err(e) => {
            return Err(e);
        },
    };
    proof {
        let parts = semver_parsed(trim_view(out@)).unwrap();
        assert(installed_version@ =~~= parsed_version_view(parts));
    }
    if !installed_version.precedes(app_version) {
        return Ok(());
    }
    match install_cli(arch, os, exe_path, home, fs) {
        Ok(_) => Ok(()),
        Err(e) => Err(e),
    }
}

// ---------------------------------------------------------------------------
// Laws
// ---------------------------------------------------------------------------
/// Installing is idempotent: after a successful install, installing again
/// with an unchanged source succeeds too and leaves the filesystem — the
/// destination's bytes included — exactly as the first install left it.
pub proof fn lemma_install_idempotent(
    arch: Arch,
    os: Os,
    exe: Seq<char>,
    home: Option<Seq<char>>,
    m: FsMap,
)
    requires
        install_result(arch, os, exe, home, m) is Ok,
    ensures
        install_result(arch, os, exe, home, install_post(arch, os, exe, home, m)) is Ok,
        install_post(arch, os, exe, home, install_post(arch, os, exe, home, m)) == install_post(
            arch,
            os,
            exe,
            home,
            m,
        ),
{
    let m1 = install_post(arch, os, exe, home, m);
    assert(install_post(arch, os, exe, home, m1) =~= m1);
}

/// On a platform outside the supported set, installing fails with
/// `UnsupportedPlatform` and the filesystem is untouched.
pub proof fn lemma_install_unsupported_platform(
    arch: Arch,
    os: Os,
    exe: Seq<char>,
    home: Option<Seq<char>>,
    m: FsMap,
)
    requires
        !os_is_posix(os),
    ensures
        install_result(arch, os, exe, home, m) == Err::<Seq<char>, CliError>(
            CliError::UnsupportedPlatform,
        ),
        install_post(arch, os, exe, home, m) == m,
{
}

/// With no prior installation, synchronizing performs no filesystem write
/// and succeeds.
pub proof fn lemma_sync_skips_when_not_installed(
    arch: Arch,
    os: Os,
    exe: Seq<char>,
    home: Option<Seq<char>>,
    app: VersionView,
    q: Option<Seq<char>>,
    m: FsMap,
)
    requires
        !installed_view(home, m),
    ensures
        sync_result(false, arch, os, exe, home, app, q, m) == Ok::<(), CliError>(()),
        sync_post(false, arch, os, exe, home, app, q, m) == m,
{
}

/// When the installed version is strictly older than the application's and
/// the reinstall can run, synchronizing succeeds and leaves the destination
/// byte-identical to the sidecar source, under executable permissions.
pub proof fn lemma_sync_overwrites_when_stale(
    arch: Arch,
    os: Os,
    exe: Seq<char>,
    home: Option<Seq<char>>,
    app: VersionView,
    out: Seq<char>,
    parts: (u64, u64, u64, Seq<char>),
    m: FsMap,
)
    requires
        installed_view(home, m),
        semver_parsed(trim_view(out)) == Some(parts),
        version_lt(parsed_version_view(parts), app),
        install_result(arch, os, exe, home, m) is Ok,
    ensures
        sync_result(false, arch, os, exe, home, app, Some(out), m) == Ok::<(), CliError>(()),
        ({
            let m1 = sync_post(false, arch, os, exe, home, app, Some(out), m);
            let sc = sidecar_path_view(exe, triple_view(arch, os).unwrap()).unwrap();
            let dest = install_path_view(home.unwrap());
            &&& m1.dom().contains(dest)
            &&& m1[dest].0 == m[sc].0
            &&& m1[dest].1 == 0o755u32
        }),
{
}

/// When the installed version is not older than the application's,
/// synchronizing succeeds and the filesystem is unchanged: no write occurs.
pub proof fn lemma_sync_keeps_up_to_date(
    arch: Arch,
    os: Os,
    exe: Seq<char>,
    home: Option<Seq<char>>,
    app: VersionView,
    out: Seq<char>,
    parts: (u64, u64, u64, Seq<char>),
    m: FsMap,
)
    requires
        installed_view(home, m),
        semver_parsed(trim_view(out)) == Some(parts),
        !version_lt(parsed_version_view(parts), app),
    ensures
        sync_result(false, arch, os, exe, home, app, Some(out), m) == Ok::<(), CliError>(()),
        sync_post(false, arch, os, exe, home, app, Some(out), m) == m,
{
}

/// Malformed version output from the installed binary makes synchronizing
/// fail with `VersionParse` and leaves the installed file untouched.
pub proof fn lemma_sync_malformed_output(
    arch: Arch,
    os: Os,
    exe: Seq<char>,
    home: Option<Seq<char>>,
    app: VersionView,
    out: Seq<char>,
    m: FsMap,
)
    requires
        installed_view(home, m),
        semver_parsed(trim_view(out)) is None,
    ensures
        sync_result(false, arch, os, exe, home, app, Some(out), m) == Err::<(), CliError>(
            CliError::VersionParse,
        ),
        sync_post(false, arch, os, exe, home, app, Some(out), m) == m,
{
}

} // verus!
