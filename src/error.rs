use vstd::prelude::*;

verus! {

/// A failure of an external program run on behalf of a backend.
#[derive(Debug, Clone, PartialEq, Eq)]
pub enum CommandError {
    /// The program could not be started.
    CommandIO { program: String, cause: String },
    /// The program ran and reported failure.
    CommandFailed { program: String, exit_code: Option<i32>, stderr: Vec<u8> },
}

/// Everything that can go wrong while reading or setting wallpapers.
#[derive(Debug, Clone, PartialEq, Eq)]
pub enum WallpaperError {
    /// No backend matches the desktop and session that were detected.
    Unsupported { desktop: String, session: String },
    /// A required environment variable is not set.
    EnvVarMissing(String),
    /// An external program failed.
    Command(CommandError),
    /// A remote call could not be carried out.
    ProtocolError(String),
    /// A response could not be decoded.
    DecodeError(String),
    /// A wallpaper path does not resolve to an existing file.
    PathInvalid { path: String, cause: String },
    /// A backend reported a mode value that has no equivalent.
    UnknownNativeMode(String),
    /// The single-wallpaper delegate failed.
    DelegatedBackendError(String),
}

impl From<CommandError> for WallpaperError {
    fn from(e: CommandError) -> (r: WallpaperError)
        ensures
            r == WallpaperError::Command(e),
    {
        WallpaperError::Command(e)
    }
}

impl vstd::std_specs::convert::FromSpecImpl<CommandError> for WallpaperError {
    open spec fn obeys_from_spec() -> bool {
        true
    }

    open spec fn from_spec(e: CommandError) -> WallpaperError {
        WallpaperError::Command(e)
    }
}

} // verus!
