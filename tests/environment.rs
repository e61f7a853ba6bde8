use more_wallpapers::environment::{select_environment, DESKTOP_VAR, SESSION_VAR};
use more_wallpapers::{get_environment, EnvConfig, Environment, WallpaperError};

fn config(desktop: Option<&str>, session: Option<&str>, sway: Option<&str>) -> EnvConfig {
    EnvConfig {
        desktop: desktop.map(|s| s.to_string()),
        session_type: session.map(|s| s.to_string()),
        sway_socket: sway.map(|s| s.to_string()),
    }
}

#[test]
fn sway_socket_wins_over_everything() {
    let c = config(Some("KDE"), Some("x11"), Some("/run/user/1000/sway-ipc.sock"));
    assert_eq!(get_environment(&c), Ok(Environment::Sway));
    let c = config(None, None, Some("/tmp/s"));
    assert_eq!(get_environment(&c), Ok(Environment::Sway));
}

#[test]
fn desktops_are_matched_without_regard_to_case() {
    assert_eq!(get_environment(&config(Some("X-Cinnamon"), None, None)), Ok(Environment::Cinnamon));
    assert_eq!(get_environment(&config(Some("KDE"), None, None)), Ok(Environment::Kde));
    assert_eq!(get_environment(&config(Some("XFCE"), Some("x11"), None)), Ok(Environment::Xfce));
}

#[test]
fn session_type_decides_for_other_desktops() {
    assert_eq!(get_environment(&config(Some("i3"), Some("X11"), None)), Ok(Environment::X11));
    assert_eq!(get_environment(&config(Some("GNOME"), Some("wayland"), None)), Ok(Environment::LinuxFallback));
    assert_eq!(get_environment(&config(Some("Budgie:GNOME"), Some("Wayland"), None)), Ok(Environment::LinuxFallback));
}

#[test]
fn unknown_wayland_desktop_is_unsupported_with_raw_values() {
    match get_environment(&config(Some("Hyprland"), Some("Wayland"), None)) {
        Err(WallpaperError::Unsupported { desktop, session }) => {
            assert_eq!(desktop, "Hyprland");
            assert_eq!(session, "Wayland");
        }
        other => panic!("unexpected {other:?}"),
    }
    assert!(matches!(
        get_environment(&config(Some("gnome"), Some("tty"), None)),
        Err(WallpaperError::Unsupported { .. })
    ));
}

#[test]
fn missing_variables_are_reported_by_name() {
    assert_eq!(
        get_environment(&config(None, Some("x11"), None)),
        Err(WallpaperError::EnvVarMissing(DESKTOP_VAR.to_string()))
    );
    assert_eq!(
        get_environment(&config(Some("i3"), None, None)),
        Err(WallpaperError::EnvVarMissing(SESSION_VAR.to_string()))
    );
    // a known desktop needs no session type
    assert_eq!(get_environment(&config(Some("kde"), None, None)), Ok(Environment::Kde));
}

#[test]
fn selection_compares_the_lowered_values_it_is_given() {
    let c = config(Some("Whatever"), Some("Whatever"), None);
    assert_eq!(select_environment(&c, "kde", ""), Ok(Environment::Kde));
    assert_eq!(select_environment(&c, "mate", "wayland"), Ok(Environment::LinuxFallback));
    assert!(matches!(select_environment(&c, "KDE", "X11"), Err(WallpaperError::Unsupported { .. })));
}

#[test]
fn per_screen_support_and_names() {
    assert!(Environment::X11.support_various_wallpaper());
    assert!(Environment::Kde.support_various_wallpaper());
    assert!(Environment::Sway.support_various_wallpaper());
    assert!(Environment::Xfce.support_various_wallpaper());
    assert!(Environment::Cinnamon.support_various_wallpaper());
    assert!(!Environment::LinuxFallback.support_various_wallpaper());
    assert!(!Environment::MacOS.support_various_wallpaper());
    assert!(!Environment::Windows.support_various_wallpaper());
    assert_eq!(Environment::LinuxFallback.name(), "linuxfallback");
    assert_eq!(Environment::MacOS.name(), "macos");
}
