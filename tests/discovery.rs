use more_wallpapers::discover::{
    cinnamon_default_screen, delegate_screens, kde_screens, parse_backdrop_key, sway_screens,
    x11_screens, xfce_keys, xfce_property_value, xfce_screens, BackdropKind, KdeDesktop, SwayOutput,
    X11Monitor,
};
use more_wallpapers::text::{to_decimal, trim_around};
use more_wallpapers::{Mode, WallpaperError};

#[test]
fn image_style_key_parses_to_its_bucket_and_mode() {
    let key = parse_backdrop_key("/backdrop/screen0/monitor0/image-style").unwrap();
    assert_eq!(key.screen, "screen0/monitor0");
    assert_eq!(key.property, "screen0/monitor0/image-style");
    assert_eq!(key.kind, BackdropKind::ImageStyle);
    assert!(!key.active);
    let screens = xfce_screens(&vec![key.clone()], &vec!["5".to_string()]).unwrap();
    assert_eq!(screens.len(), 1);
    assert_eq!(screens[0].mode, Some(Mode::Crop));
    let screens = xfce_screens(&vec![key], &vec!["0".to_string()]).unwrap();
    assert_eq!(screens[0].mode, None);
}

#[test]
fn key_lines_of_other_shapes_are_skipped() {
    assert!(parse_backdrop_key("/backdrop/screen0/monitor0/last-single-image").is_none());
    assert!(parse_backdrop_key("/backdrop/screen0/last-image").is_none());
    assert!(parse_backdrop_key("/backdrop/a/b/c/d/last-image").is_none());
    assert!(parse_backdrop_key("/other/screen0/monitor0/last-image").is_none());
    let key = parse_backdrop_key("/backdrop/screen0/monitorVirtual-1/workspace0/last-image").unwrap();
    assert_eq!(key.screen, "screen0/monitorVirtual-1/workspace0");
    assert_eq!(key.kind, BackdropKind::LastImage);
    assert!(key.active);
}

const LISTING: &str = "/backdrop/screen0/monitor0/image-style
/backdrop/screen0/monitor0/last-image
/backdrop/screen0/monitor0/last-single-image
/backdrop/screen0/monitorVirtual-1/workspace0/color-style
/backdrop/screen0/monitorVirtual-1/workspace0/image-style
/backdrop/screen0/monitorVirtual-1/workspace0/last-image
/backdrop/screen0/monitorVirtual-1/workspace1/color-style
/backdrop/screen0/monitorVirtual-1/workspace1/image-style
/backdrop/screen0/monitorVirtual-1/workspace1/last-image
";

#[test]
fn listing_groups_into_one_screen_per_bucket() {
    let keys = xfce_keys(LISTING);
    assert_eq!(keys.len(), 6);
    let values: Vec<String> = ["4", "/a.png", "1", "/b.png", "2", "/c.png"].iter().map(|s| s.to_string()).collect();
    let screens = xfce_screens(&keys, &values).unwrap();
    assert_eq!(screens.len(), 3);
    let find = |n: &str| screens.iter().find(|s| s.name == n).unwrap();
    let d = find("screen0/monitor0");
    assert!(!d.active);
    assert_eq!(d.mode, Some(Mode::Fit));
    assert_eq!(d.wallpaper.as_deref(), Some("/a.png"));
    let w0 = find("screen0/monitorVirtual-1/workspace0");
    assert!(w0.active);
    assert_eq!(w0.mode, Some(Mode::Center));
    assert_eq!(w0.wallpaper.as_deref(), Some("/b.png"));
    let w1 = find("screen0/monitorVirtual-1/workspace1");
    assert_eq!(w1.mode, Some(Mode::Tile));
    assert_eq!(w1.wallpaper.as_deref(), Some("/c.png"));
}

#[test]
fn listing_without_final_break_keeps_its_last_line() {
    let keys = xfce_keys("/backdrop/s/m/last-image\n/backdrop/s/m/w/image-style");
    assert_eq!(keys.len(), 2);
    assert_eq!(keys[1].kind, BackdropKind::ImageStyle);
    assert!(xfce_keys("").is_empty());
}

#[test]
fn an_undefined_image_style_fails_discovery() {
    let keys = xfce_keys("/backdrop/s/m/last-image\n/backdrop/s/m/image-style\n");
    let values = vec!["/x.png".to_string(), "9".to_string()];
    assert_eq!(xfce_screens(&keys, &values), Err(WallpaperError::UnknownNativeMode("9".to_string())));
}

#[test]
fn property_values_lose_their_line_break() {
    assert_eq!(xfce_property_value(b"5\n".to_vec()), Ok("5".to_string()));
    assert_eq!(xfce_property_value(b"/a b.png".to_vec()), Ok("/a b.png".to_string()));
    assert!(matches!(xfce_property_value(vec![0xff, 0xfe]), Err(WallpaperError::DecodeError(_))));
}

#[test]
fn cinnamon_default_is_read_from_the_stored_values() {
    let s = cinnamon_default_screen(b"'file:///usr/share/bg.jpg'\n".to_vec(), b"'zoom'\n".to_vec()).unwrap();
    assert_eq!(s.name, "default");
    assert!(!s.active);
    assert_eq!(s.wallpaper.as_deref(), Some("/usr/share/bg.jpg"));
    assert_eq!(s.mode, Some(Mode::Crop));
    let s = cinnamon_default_screen(b"''\n".to_vec(), b"'spanned'\n".to_vec()).unwrap();
    assert_eq!(s.wallpaper.as_deref(), Some("'"));
    assert_eq!(s.mode, None);
}

#[test]
fn cinnamon_default_reports_bad_values() {
    assert!(matches!(
        cinnamon_default_screen(vec![0xc3], b"'zoom'\n".to_vec()),
        Err(WallpaperError::DecodeError(_))
    ));
    assert!(matches!(
        cinnamon_default_screen(b"'file:///a.jpg'\n".to_vec(), vec![0xff]),
        Err(WallpaperError::DecodeError(_))
    ));
    assert_eq!(
        cinnamon_default_screen(b"'file:///a.jpg'\n".to_vec(), b"'bogus'\n".to_vec()),
        Err(WallpaperError::UnknownNativeMode("bogus".to_string()))
    );
}

#[test]
fn listing_with_crlf_breaks_reads_the_same_keys() {
    let keys = xfce_keys("/backdrop/s/m/last-image\r\n/backdrop/s/m/w/image-style\r\n");
    assert_eq!(keys.len(), 2);
    assert_eq!(keys[0].kind, BackdropKind::LastImage);
    assert_eq!(keys[1].property, "s/m/w/image-style");
}

#[test]
fn kde_keeps_desktops_that_are_on_a_screen() {
    let desktops = vec![
        KdeDesktop { screen: 0, id: 1 },
        KdeDesktop { screen: -1, id: 7 },
        KdeDesktop { screen: 1, id: 42 },
    ];
    let screens = kde_screens(&desktops);
    let names: Vec<&str> = screens.iter().map(|s| s.name.as_str()).collect();
    assert_eq!(names, vec!["1", "42"]);
    assert!(screens.iter().all(|s| s.active && s.wallpaper.is_none()));
}

#[test]
fn sway_and_x11_outputs_become_screens() {
    let outputs = vec![
        SwayOutput { name: "eDP-1".to_string(), active: true },
        SwayOutput { name: "HDMI-A-1".to_string(), active: false },
    ];
    let screens = sway_screens(&outputs);
    assert_eq!(screens.len(), 2);
    assert!(!screens[1].active);
    let monitors = vec![
        X11Monitor { name: "HDMI1".to_string(), is_automatic: true },
        X11Monitor { name: "VIRTUAL1".to_string(), is_automatic: false },
    ];
    let screens = x11_screens(&monitors);
    assert_eq!(screens.len(), 1);
    assert_eq!(screens[0].name, "HDMI1");
    let one = delegate_screens();
    assert_eq!(one.len(), 1);
    assert!(one[0].active);
}

#[test]
fn text_helpers() {
    assert_eq!(to_decimal(0), "0");
    assert_eq!(to_decimal(1907), "1907");
    assert_eq!(trim_around("''''x'\n'\n", "'", "'\n"), "x");
    assert_eq!(trim_around("abc", "", ""), "abc");
}
