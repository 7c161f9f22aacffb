//! Error kinds of the install/sync core. All failures are returned as values;
//! none of the verified functions panics.

use vstd::prelude::*;
use vstd::string::*;

verus! {

/// Every failure the install/sync core can report.
#[derive(Clone, Copy, PartialEq, Eq, Structural, Debug)]
pub enum CliError {
    /// A required environment value (the home directory) is missing.
    Configuration,
    /// The running binary's location cannot be determined.
    Resolution,
    /// The host platform is outside the supported set.
    UnsupportedPlatform,
    /// The bundled sidecar binary is absent from its resolved path.
    SidecarNotFound,
    /// A directory-creation, copy or permission operation failed.
    Filesystem,
    /// Spawning the installed binary, or its exit status, failed.
    VersionQuery,
    /// The installed binary printed text that is not a semantic version.
    VersionParse,
}

impl CliError {
    /// The descriptive text owed for each error kind.
    pub open spec fn describe_view(self) -> Seq<char> {
        match self {
            CliError::Configuration => "Could not determine install path"@,
            CliError::Resolution => "Could not determine the running binary's location"@,
            CliError::UnsupportedPlatform => "CLI installation is only supported on macOS & Linux"@,
            CliError::SidecarNotFound => "Sidecar binary not found"@,
            CliError::Filesystem => "Filesystem operation failed"@,
            CliError::VersionQuery => "Failed to get CLI version"@,
            CliError::VersionParse => "Failed to parse CLI version"@,
        }
    }

    /// Descriptive text for surfacing the error to the host application.
    pub fn describe(&self) -> (r: String)
        ensures
            r@ == self.describe_view(),
    {
        match self {
            CliError::Configuration => String::from_str("Could not determine install path"),
            CliError::Resolution => String::from_str(
                "Could not determine the running binary's location",
            ),
            CliError::UnsupportedPlatform => String::from_str(
                "CLI installation is only supported on macOS & Linux",
            ),
            CliError::SidecarNotFound => String::from_str("Sidecar binary not found"),
            CliError::Filesystem => String::from_str("Filesystem operation failed"),
            CliError::VersionQuery => String::from_str("Failed to get CLI version"),
            CliError::VersionParse => String::from_str("Failed to parse CLI version"),
        }
    }
}

} // verus!
