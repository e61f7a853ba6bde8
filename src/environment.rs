//! The desktop environments that can be driven, and how one is picked.
use vstd::prelude::*;
use crate::error::WallpaperError;
use crate::text::str_eq;

verus! {

/// The desktop environment or operating system whose wallpaper is set.
#[derive(Debug, Clone, Copy, PartialEq, Eq, Structural)]
#[non_exhaustive]
pub enum Environment {
    Cinnamon,
    Kde,
    Sway,
    LinuxFallback,
    MacOS,
    Windows,
    X11,
    Xfce,
}

/// Whether an environment can show a different wallpaper on each screen.
pub open spec fn per_screen(e: Environment) -> bool {
    !delegates(e)
}

/// Whether an environment is driven through the single-wallpaper delegate.
pub open spec fn delegates(e: Environment) -> bool {
    e == Environment::LinuxFallback || e == Environment::MacOS || e == Environment::Windows
}

pub open spec fn environment_name(e: Environment) -> Seq<char> {
    match e {
        Environment::Cinnamon => "cinnamon"@,
        Environment::Kde => "kde"@,
        Environment::Sway => "sway"@,
        Environment::LinuxFallback => "linuxfallback"@,
        Environment::MacOS => "macos"@,
        Environment::Windows => "windows"@,
        Environment::X11 => "x11"@,
        Environment::Xfce => "xfce"@,
    }
}

impl Environment {
    /// Returns true if this environment can show a different wallpaper on each screen.
    pub fn support_various_wallpaper(&self) -> (r: bool)
        ensures
            r == per_screen(*self),
    {
        match self {
            Environment::Cinnamon => true,
            Environment::Kde => true,
            Environment::Sway => true,
            Environment::LinuxFallback => false,
            Environment::MacOS => false,
            Environment::Windows => false,
            Environment::X11 => true,
            Environment::Xfce => true,
        }
    }

    /// The lower-case name of this environment.
    pub fn name(&self) -> (r: &'static str)
        ensures
            r@ == environment_name(*self),
    {
        match self {
            Environment::Cinnamon => "cinnamon",
            Environment::Kde => "kde",
            Environment::Sway => "sway",
            Environment::LinuxFallback => "linuxfallback",
            Environment::MacOS => "macos",
            Environment::Windows => "windows",
            Environment::X11 => "x11",
            Environment::Xfce => "xfce",
        }
    }
}

/// The variable that names the current desktop.
pub const DESKTOP_VAR: &'static str = "XDG_CURRENT_DESKTOP";

/// The variable that names the session type.
pub const SESSION_VAR: &'static str = "XDG_SESSION_TYPE";

/// The variable that holds the sway compositor's control socket.
pub const SWAY_SOCKET_VAR: &'static str = "SWAYSOCK";

/// The values of the environment variables that decide the backend; `None`
/// where a variable is not set.
pub struct EnvConfig {
    pub desktop: Option<String>,
    pub session_type: Option<String>,
    pub sway_socket: Option<String>,
}

/// What `str::to_lowercase` returns for `s`.
pub uninterp spec fn lower_of(s: Seq<char>) -> Seq<char>;

/// Relies on `str::to_lowercase`: its result depends on the characters alone.
#[verifier::external_body]
fn lowercase(s: &str) -> (r: String)
    ensures
        r@ == lower_of(s@),
{
    s.to_lowercase()
}

/// The lower-cased value of a variable, or nothing when it is not set.
pub open spec fn lowered(v: Option<String>) -> Seq<char> {
    match v {
        Some(s) => lower_of(s@),
        None => Seq::empty(),
    }
}

/// Desktops on wayland that can only take one wallpaper for all screens.
pub open spec fn single_wallpaper_desktop(d: Seq<char>) -> bool {
    d == "budgie:gnome"@ || d == "deepin"@ || d == "gnome"@ || d == "lxde"@ || d == "mate"@
}

pub open spec fn missing_var(e: WallpaperError, name: Seq<char>) -> bool {
    e matches WallpaperError::EnvVarMissing(n) && n@ == name
}

/// `r` is the backend chosen for `config`, given the lower-cased desktop `d`
/// and session type `s`: a sway socket wins over everything; then the
/// desktop, which must be set; then the session type, which must be set too.
pub open spec fn resolution(
    config: EnvConfig,
    d: Seq<char>,
    s: Seq<char>,
    r: Result<Environment, WallpaperError>,
) -> bool {
    if config.sway_socket is Some {
        r == Ok::<Environment, WallpaperError>(Environment::Sway)
    } else if config.desktop is None {
        r is Err && missing_var(r->Err_0, DESKTOP_VAR@)
    } else if d == "x-cinnamon"@ {
        r == Ok::<Environment, WallpaperError>(Environment::Cinnamon)
    } else if d == "kde"@ {
        r == Ok::<Environment, WallpaperError>(Environment::Kde)
    } else if d == "xfce"@ {
        r == Ok::<Environment, WallpaperError>(Environment::Xfce)
    } else if config.session_type is None {
        r is Err && missing_var(r->Err_0, SESSION_VAR@)
    } else if s == "x11"@ {
        r == Ok::<Environment, WallpaperError>(Environment::X11)
    } else if s == "wayland"@ && single_wallpaper_desktop(d) {
        r == Ok::<Environment, WallpaperError>(Environment::LinuxFallback)
    } else {
        &&& r is Err
        &&& r->Err_0 matches WallpaperError::Unsupported { desktop, session }
        &&& desktop@ == config.desktop->0@
        &&& session@ == config.session_type->0@
    }
}

/// Picks the backend from the variables in `config`, where `desktop_lower`
/// and `session_lower` are the lower-cased desktop and session type.
pub fn select_environment(config: &EnvConfig, desktop_lower: &str, session_lower: &str) -> (r:
    Result<Environment, WallpaperError>)
    ensures
        resolution(*config, desktop_lower@, session_lower@, r),
{
    if config.sway_socket.is_some() {
        return Ok(Environment::Sway);
    }
    let desktop = match &config.desktop {
        Some(d) => d,
        None => return Err(WallpaperError::EnvVarMissing(DESKTOP_VAR.to_string())),
    };
    if str_eq(desktop_lower, "x-cinnamon") {
        return Ok(Environment::Cinnamon);
    }
    if str_eq(desktop_lower, "kde") {
        return Ok(Environment::Kde);
    }
    if str_eq(desktop_lower, "xfce") {
        return Ok(Environment::Xfce);
    }
    let session = match &config.session_type {
        Some(s) => s,
        None => return Err(WallpaperError::EnvVarMissing(SESSION_VAR.to_string())),
    };
    if str_eq(session_lower, "x11") {
        return Ok(Environment::X11);
    }
    if str_eq(session_lower, "wayland") && (str_eq(desktop_lower, "budgie:gnome") || str_eq(
        desktop_lower,
        "deepin",
    ) || str_eq(desktop_lower, "gnome") || str_eq(desktop_lower, "lxde") || str_eq(
        desktop_lower,
        "mate",
    )) {
        return Ok(Environment::LinuxFallback);
    }
    Err(WallpaperError::Unsupported { desktop: desktop.clone(), session: session.clone() })
}

/// Picks the backend from the variables in `config`; the desktop and session
/// type are compared without regard to case.
pub fn get_environment(config: &EnvConfig) -> (r: Result<Environment, WallpaperError>)
    ensures
        resolution(*config, lowered(config.desktop), lowered(config.session_type), r),
{
    let desktop_lower = match &config.desktop {
        Some(d) => lowercase(d.as_str()),
        None => String::new(),
    };
    let session_lower = match &config.session_type {
        Some(s) => lowercase(s.as_str()),
        None => String::new(),
    };
    select_environment(config, desktop_lower.as_str(), session_lower.as_str())
}

} // verus!
