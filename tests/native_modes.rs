use more_wallpapers::native::{
    kde_fill_mode, mode_from_kde_fill_mode, mode_from_sway_keyword, mode_from_xfce_image_style,
    mode_from_xwallpaper_flag, sway_keyword, xfce_image_style, xwallpaper_flag, CinnamonMode,
};
use more_wallpapers::{Mode, WallpaperError};

const ALL: [Mode; 5] = [Mode::Center, Mode::Crop, Mode::Fit, Mode::Stretch, Mode::Tile];

#[test]
fn every_table_round_trips() {
    for m in ALL {
        assert_eq!(mode_from_kde_fill_mode(kde_fill_mode(m)), Ok(m));
        assert_eq!(mode_from_xwallpaper_flag(xwallpaper_flag(m)), Ok(m));
        assert_eq!(mode_from_sway_keyword(sway_keyword(m)), Ok(m));
        assert_eq!(mode_from_xfce_image_style(xfce_image_style(m)), Ok(Some(m)));
        let c = CinnamonMode::from_mode(m);
        assert_eq!(c.to_mode(), Some(m));
        assert_eq!(CinnamonMode::from_name(c.name()), Ok(c));
    }
    for v in [0u8, 1, 2, 3, 6] {
        assert_eq!(kde_fill_mode(mode_from_kde_fill_mode(v).unwrap()), v);
    }
    for s in ["center", "zoom", "maximize", "stretch", "tile"] {
        assert_eq!(xwallpaper_flag(mode_from_xwallpaper_flag(s).unwrap()), s);
    }
    for s in ["center", "fill", "fit", "stretch", "tile"] {
        assert_eq!(sway_keyword(mode_from_sway_keyword(s).unwrap()), s);
    }
}

#[test]
fn tables_hold_the_documented_values() {
    assert_eq!(kde_fill_mode(Mode::Stretch), 0);
    assert_eq!(kde_fill_mode(Mode::Fit), 1);
    assert_eq!(kde_fill_mode(Mode::Crop), 2);
    assert_eq!(kde_fill_mode(Mode::Tile), 3);
    assert_eq!(kde_fill_mode(Mode::Center), 6);
    assert_eq!(xwallpaper_flag(Mode::Crop), "zoom");
    assert_eq!(xwallpaper_flag(Mode::Fit), "maximize");
    assert_eq!(sway_keyword(Mode::Crop), "fill");
    assert_eq!(xfce_image_style(Mode::Center), "1");
    assert_eq!(xfce_image_style(Mode::Crop), "5");
    assert_eq!(CinnamonMode::from_mode(Mode::Tile).name(), "wallpaper");
    assert_eq!(CinnamonMode::Spanned.to_mode(), None);
}

#[test]
fn undefined_native_values_are_unknown_modes() {
    assert_eq!(mode_from_kde_fill_mode(4), Err(WallpaperError::UnknownNativeMode("4".to_string())));
    assert_eq!(mode_from_kde_fill_mode(5), Err(WallpaperError::UnknownNativeMode("5".to_string())));
    assert_eq!(mode_from_kde_fill_mode(200), Err(WallpaperError::UnknownNativeMode("200".to_string())));
    assert_eq!(mode_from_xwallpaper_flag("fill"), Err(WallpaperError::UnknownNativeMode("fill".to_string())));
    assert_eq!(mode_from_sway_keyword("zoom"), Err(WallpaperError::UnknownNativeMode("zoom".to_string())));
    assert_eq!(mode_from_xfce_image_style("6"), Err(WallpaperError::UnknownNativeMode("6".to_string())));
    assert_eq!(CinnamonMode::from_name("Zoom"), Err(WallpaperError::UnknownNativeMode("Zoom".to_string())));
}

#[test]
fn image_style_zero_means_no_mode() {
    assert_eq!(mode_from_xfce_image_style("0"), Ok(None));
    assert_eq!(mode_from_xfce_image_style("5"), Ok(Some(Mode::Crop)));
}

#[test]
fn modes_by_name_and_default() {
    assert_eq!(Mode::default(), Mode::Crop);
    assert_eq!(Mode::from_name("stretch"), Some(Mode::Stretch));
    assert_eq!(Mode::from_name("Stretch"), None);
    assert_eq!("tile".parse::<Mode>(), Ok(Mode::Tile));
    assert!("zoom".parse::<Mode>().is_err());
    assert_eq!(Mode::Fit.name(), "fit");
}
