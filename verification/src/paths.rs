//! Path resolution: the deterministic install location under the user's home
//! directory, and the bundled sidecar's location next to the running binary.

use vstd::prelude::*;
use vstd::string::*;
use crate::errors::CliError;
use crate::target::{triple_view, Arch, Os};

verus! {

/// The install path owed for a given home directory: a fixed relative
/// subdirectory and a fixed binary name appended to the home value.
pub open spec fn install_path_view(home: Seq<char>) -> Seq<char> {
    home + "/.anyon/bin/anyon"@
}

/// View of an optional home-directory value.
pub open spec fn home_view(home: &Option<String>) -> Option<Seq<char>> {
    match home {
        Some(h) => Some(h@),
        None => None,
    }
}

/// The install path is a pure function of the home-directory value: a fixed
/// home yields one fixed path, always — the home value followed by the fixed
/// subdirectory and binary name, and nothing else enters into it.
pub proof fn lemma_install_path_pure(h1: Seq<char>, h2: Seq<char>)
    requires
        h1 == h2,
    ensures
        install_path_view(h1) == install_path_view(h2),
        install_path_view(h1) == h1 + "/.anyon/bin/anyon"@,
{
}

/// Computes the single install location, or `None` when the home directory
/// cannot be determined.
pub fn get_cli_install_path(home: &Option<String>) -> (r: Option<String>)
    ensures
        match home {
            Some(h) => r matches Some(p) && p@ == install_path_view(h@),
            None => r is None,
        },
{
    match home {
        Some(h) => Some(h.clone().concat("/.anyon/bin/anyon")),
        None => None,
    }
}

/// Index of the last `/` in a path, or `None` when it has none.
pub open spec fn last_slash(p: Seq<char>) -> Option<int>
    decreases p.len(),
{
    if p.len() == 0 {
        None
    } else if p.last() == '/' {
        Some(p.len() - 1)
    } else {
        last_slash(p.drop_last())
    }
}

/// The sidecar path owed for a running-binary path and a target triple: the
/// binary's directory plus the triple-suffixed sidecar filename.
pub open spec fn sidecar_path_view(exe: Seq<char>, triple: Seq<char>) -> Option<Seq<char>> {
    match last_slash(exe) {
        Some(i) => Some(exe.take(i) + "/anyon-cli-"@ + triple),
        None => None,
    }
}

proof fn lemma_last_slash_none(p: Seq<char>)
    requires
        forall|j: int| 0 <= j < p.len() ==> p[j] != '/',
    ensures
        last_slash(p) is None,
    decreases p.len(),
{
    if p.len() > 0 {
        lemma_last_slash_none(p.drop_last());
    }
}

proof fn lemma_last_slash_at(p: Seq<char>, k: int)
    requires
        0 <= k < p.len(),
        p[k] == '/',
        forall|j: int| k < j < p.len() ==> p[j] != '/',
    ensures
        last_slash(p) == Some(k),
    decreases p.len(),
{
    if k == p.len() - 1 {
    } else {
        lemma_last_slash_at(p.drop_last(), k);
    }
}

/// Resolves the bundled sidecar's path from the running binary's path.
/// Fails with `UnsupportedPlatform` when no triple exists for the platform,
/// and with `Resolution` when the binary's directory cannot be determined.
pub fn get_sidecar_path(exe_path: &str, arch: Arch, os: Os) -> (r: Result<String, CliError>)
    ensures
        triple_view(arch, os) is None ==> r == Err::<String, CliError>(
            CliError::UnsupportedPlatform,
        ),
        triple_view(arch, os) matches Some(t) ==> match sidecar_path_view(exe_path@, t) {
            Some(p) => r matches Ok(s) && s@ == p,
            None => r == Err::<String, CliError>(CliError::Resolution),
        },
{
    let triple = match crate::target::get_target_triple(arch, os) {
        Some(t) => t,
        None => {
            return Err(CliError::UnsupportedPlatform);
        },
    };
    let len = exe_path.unicode_len();
    let mut i: usize = len;
    loop
        invariant
            0 <= i <= len,
            len == exe_path@.len(),
            triple_view(arch, os) == Some(triple@),
            forall|j: int| i <= j < len ==> exe_path@[j] != '/',
        decreases i,
    {
        if i == 0 {
            proof {
                lemma_last_slash_none(exe_path@);
            }
            return Err(CliError::Resolution);
        }
        if exe_path.get_char(i - 1) == '/' {
            proof {
                lemma_last_slash_at(exe_path@, i - 1);
            }
            let dir = exe_path.substring_char(0, i - 1);
            let p = String::from_str(dir).concat("/anyon-cli-").concat(triple);
            proof {
                assert(p@ =~= exe_path@.take(i - 1) + "/anyon-cli-"@ + triple@);
            }
            return Ok(p);
        }
        i = i - 1;
    }
}

} // verus!
