//! Target-platform resolution: maps an architecture/OS pair to the stable
//! target-triple identifier that names the bundled sidecar binary variant.

use vstd::prelude::*;

verus! {

/// CPU architecture of the host, as a runtime descriptor.
#[derive(Clone, Copy, PartialEq, Eq, Structural, Debug)]
pub enum Arch {
    X86_64,
    Aarch64,
    Other,
}

/// Operating-system family of the host, as a runtime descriptor.
#[derive(Clone, Copy, PartialEq, Eq, Structural, Debug)]
pub enum Os {
    Macos,
    Linux,
    Windows,
    Other,
}

/// Whether the OS family is POSIX-like; installation is supported there only.
pub open spec fn os_is_posix(os: Os) -> bool {
    os == Os::Macos || os == Os::Linux
}

/// The target triple the resolver owes for each supported platform, if any.
pub open spec fn triple_view(arch: Arch, os: Os) -> Option<Seq<char>> {
    match (arch, os) {
        (Arch::X86_64, Os::Macos) => Some("x86_64-apple-darwin"@),
        (Arch::Aarch64, Os::Macos) => Some("aarch64-apple-darwin"@),
        (Arch::X86_64, Os::Windows) => Some("x86_64-pc-windows-msvc"@),
        (Arch::X86_64, Os::Linux) => Some("x86_64-unknown-linux-gnu"@),
        _ => None,
    }
}

/// Executable check mirroring `os_is_posix`.
pub fn is_posix(os: Os) -> (r: bool)
    ensures
        r == os_is_posix(os),
{
    match os {
        Os::Macos => true,
        Os::Linux => true,
        _ => false,
    }
}

/// Resolves the target triple for a platform, or `None` when the platform is
/// outside the supported set: resolution must fail explicitly rather than
/// silently select no binary.
pub fn get_target_triple(arch: Arch, os: Os) -> (r: Option<&'static str>)
    ensures
        match r {
            Some(t) => triple_view(arch, os) == Some(t@),
            None => triple_view(arch, os) is None,
        },
{
    match (arch, os) {
        (Arch::X86_64, Os::Macos) => Some("x86_64-apple-darwin"),
        (Arch::Aarch64, Os::Macos) => Some("aarch64-apple-darwin"),
        (Arch::X86_64, Os::Windows) => Some("x86_64-pc-windows-msvc"),
        (Arch::X86_64, Os::Linux) => Some("x86_64-unknown-linux-gnu"),
        _ => None,
    }
}

/// For every supported platform the resolver returns one value out of a
/// fixed, non-empty, enumerated set of triples, and being a function of the
/// platform descriptor alone it does so deterministically.
pub proof fn lemma_triple_fixed_set()
    ensures
        forall|arch: Arch, os: Os|
            (#[trigger] triple_view(arch, os)) matches Some(t) ==> t == "x86_64-apple-darwin"@
                || t == "aarch64-apple-darwin"@ || t == "x86_64-pc-windows-msvc"@
                || t == "x86_64-unknown-linux-gnu"@,
        triple_view(Arch::X86_64, Os::Macos) is Some,
{
}

} // verus!
