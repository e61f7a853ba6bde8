use more_wallpapers::discover::{parse_backdrop_key, SwayOutput};
use more_wallpapers::plan::{
    cinnamon_default_writes, cinnamon_options_query, cinnamon_uri_query, kde_set_script,
    reapply_cinnamon, sway_outputs_query, xfce_list_query, xfce_property_query, CINNAMON_REAPPLY_MS,
};
use more_wallpapers::{ApplyPlan, ResolvedChoice, Environment, Invocation, Mode, Screen, WallpaperBuilder};

fn screen(name: &str, active: bool) -> Screen {
    Screen { name: name.to_string(), wallpaper: None, mode: None, active }
}

fn assigned(name: &str, path: &str, mode: Mode, active: bool) -> Screen {
    Screen { name: name.to_string(), wallpaper: Some(path.to_string()), mode: Some(mode), active }
}

fn ok(path: &str, mode: Mode) -> ResolvedChoice {
    ResolvedChoice { path: path.to_string(), resolved: Ok(format!("/img/{path}")), mode }
}

fn args(inv: &Invocation) -> Vec<&str> {
    inv.args.iter().map(|s| s.as_str()).collect()
}

#[test]
fn x11_sets_all_screens_in_one_run() {
    let builder = WallpaperBuilder::new(Environment::X11, vec![screen("HDMI1", true), screen("eDP1", true)]);
    let plan = builder.set_wallpapers(vec![ok("a.jpg", Mode::Crop), ok("b.jpg", Mode::Fit)]).unwrap();
    match plan {
        ApplyPlan::Run(v) => {
            assert_eq!(v.len(), 1);
            assert_eq!(v[0].program, "xwallpaper");
            assert_eq!(
                args(&v[0]),
                vec!["--output", "HDMI1", "--zoom", "/img/a.jpg", "--output", "eDP1", "--maximize", "/img/b.jpg"]
            );
        }
        _ => panic!("expected a run"),
    }
}

#[test]
fn sway_sends_one_message_per_screen() {
    let builder = WallpaperBuilder::new(Environment::Sway, vec![screen("eDP-1", true), screen("HDMI-A-1", false)]);
    let plan = builder.set_wallpapers(vec![ok("a.jpg", Mode::Crop), ok("b.jpg", Mode::Center)]).unwrap();
    let ApplyPlan::Run(v) = plan else { panic!("expected a run") };
    assert_eq!(v.len(), 2);
    assert_eq!(v[0].program, "swaymsg");
    assert_eq!(args(&v[0]), vec!["output", "eDP-1", "bg", "/img/a.jpg", "fill"]);
    assert_eq!(args(&v[1]), vec!["output", "HDMI-A-1", "bg", "/img/b.jpg", "center"]);
}

#[test]
fn xfce_writes_image_then_style_for_each_bucket() {
    let builder = WallpaperBuilder::new(Environment::Xfce, vec![screen("screen0/monitor0/workspace0", true)]);
    let plan = builder.set_wallpapers(vec![ok("a.jpg", Mode::Stretch)]).unwrap();
    let ApplyPlan::Run(v) = plan else { panic!("expected a run") };
    assert_eq!(v.len(), 2);
    assert_eq!(v[0].program, "xfconf-query");
    assert_eq!(
        args(&v[0]),
        vec!["--channel", "xfce4-desktop", "--set", "/backdrop/screen0/monitor0/workspace0/last-image", "/img/a.jpg"]
    );
    assert_eq!(
        args(&v[1]),
        vec!["--channel", "xfce4-desktop", "--set", "/backdrop/screen0/monitor0/workspace0/image-style", "3"]
    );
}

#[test]
fn kde_script_configures_each_desktop() {
    let screens = vec![assigned("7", "/img/a \"b\".jpg", Mode::Center, true)];
    let script = kde_set_script(&screens);
    let expected = "\n\tfor (const desktop of desktops()) {\n\t\tdesktop.currentConfigGroup = [\"Wallpaper\", \"org.kde.image\", \"General\"];\n\t\tif (desktop.id === 7){\n\t\t\tdesktop.writeConfig(\"FillMode\", 6);\n\t\t\tdesktop.writeConfig(\"Image\", \"/img/a \\\"b\\\".jpg\");\n\t\t}\n\t}";
    assert_eq!(script, expected);
    let builder = WallpaperBuilder::new(Environment::Kde, vec![screen("1", true), screen("2", true)]);
    let ApplyPlan::Script(s) = builder.set_wallpapers(vec![ok("a.jpg", Mode::Crop), ok("b.jpg", Mode::Tile)]).unwrap() else {
        panic!("expected a script")
    };
    assert!(s.contains("desktop.id === 1){\n\t\t\tdesktop.writeConfig(\"FillMode\", 2);"));
    assert!(s.contains("desktop.writeConfig(\"Image\", \"/img/b.jpg\");"));
}

#[test]
fn cinnamon_paints_active_screens_and_keeps_the_default_apart() {
    let builder = WallpaperBuilder::new(
        Environment::Cinnamon,
        vec![screen("default", false), screen("HDMI1", true)],
    );
    let plan = builder.set_wallpapers(vec![ok("d.jpg", Mode::Fit), ok("a.jpg", Mode::Tile)]).unwrap();
    let ApplyPlan::Cinnamon { active, default } = plan else { panic!("expected cinnamon") };
    assert_eq!(args(&active), vec!["--output", "HDMI1", "--tile", "/img/a.jpg"]);
    let default = default.unwrap();
    assert_eq!(default.name, "default");
    assert_eq!(default.wallpaper.as_deref(), Some("/img/d.jpg"));
}

#[test]
fn cinnamon_writes_both_keys_when_anything_changed() {
    let target = assigned("default", "/x.jpg", Mode::Crop, false);
    let same = assigned("default", "/x.jpg", Mode::Crop, false);
    assert!(cinnamon_default_writes(&target, &same).is_empty());
    let other = Screen { name: "default".to_string(), wallpaper: Some("/y.jpg".to_string()), mode: None, active: false };
    let w = cinnamon_default_writes(&target, &other);
    assert_eq!(w.len(), 2);
    assert_eq!(w[0].program, "dconf");
    assert_eq!(args(&w[0]), vec!["write", "/org/cinnamon/desktop/background/picture-options", "'zoom'"]);
    assert_eq!(args(&w[1]), vec!["write", "/org/cinnamon/desktop/background/picture-uri", "'file:///x.jpg'"]);
    let mode_only = assigned("default", "/x.jpg", Mode::Tile, false);
    let w = cinnamon_default_writes(&target, &mode_only);
    assert_eq!(w.len(), 2);
    assert_eq!(args(&w[0]), vec!["write", "/org/cinnamon/desktop/background/picture-options", "'zoom'"]);
    assert_eq!(args(&w[1]), vec!["write", "/org/cinnamon/desktop/background/picture-uri", "'file:///x.jpg'"]);
    let image_only = assigned("default", "/z.jpg", Mode::Crop, false);
    assert_eq!(cinnamon_default_writes(&target, &image_only).len(), 2);
}

#[test]
fn cinnamon_reapplies_only_within_the_window() {
    assert!(reapply_cinnamon(true, 0));
    assert!(reapply_cinnamon(true, CINNAMON_REAPPLY_MS - 1));
    assert!(!reapply_cinnamon(true, CINNAMON_REAPPLY_MS));
    assert!(!reapply_cinnamon(false, 0));
    assert_eq!(CINNAMON_REAPPLY_MS, 900);
}

#[test]
fn delegate_gets_the_first_screen() {
    let builder = WallpaperBuilder::new(Environment::LinuxFallback, more_wallpapers::discover::delegate_screens());
    let plan = builder.set_wallpapers(vec![ok("a.jpg", Mode::Stretch)]).unwrap();
    let ApplyPlan::Delegate { path, mode } = plan else { panic!("expected a delegate call") };
    assert_eq!(path, "/img/a.jpg");
    assert_eq!(mode, Mode::Stretch);
}

#[test]
fn discovery_queries() {
    assert_eq!(args(&xfce_list_query()), vec!["--channel", "xfce4-desktop", "--list"]);
    let key = parse_backdrop_key("/backdrop/s0/m0/last-image").unwrap();
    assert_eq!(args(&xfce_property_query(&key)), vec!["--channel", "xfce4-desktop", "-p", "/backdrop/s0/m0/last-image"]);
    assert_eq!(args(&sway_outputs_query()), vec!["-t", "get_outputs"]);
    assert_eq!(args(&cinnamon_uri_query()), vec!["read", "/org/cinnamon/desktop/background/picture-uri"]);
    assert_eq!(cinnamon_options_query().program, "dconf");
    let _ = SwayOutput { name: String::new(), active: true };
}

#[test]
fn kde_script_escapes_control_characters_and_backslashes() {
    let screens = vec![assigned("3", "/a\\b\u{1}\tc", Mode::Fit, true)];
    let script = kde_set_script(&screens);
    assert!(script.contains("desktop.writeConfig(\"Image\", \"/a\\\\b\\u0001\\tc\");"));
    assert!(script.contains("desktop.writeConfig(\"FillMode\", 1);"));
}

#[test]
fn choices_may_stop_at_the_first_bad_path() {
    let builder = WallpaperBuilder::new(Environment::X11, vec![screen("A", true), screen("B", true), screen("C", true)]);
    let choices = vec![
        ok("a.jpg", Mode::Crop),
        ResolvedChoice { path: "gone.jpg".to_string(), resolved: Err("not found".to_string()), mode: Mode::Crop },
    ];
    match builder.set_wallpapers(choices) {
        Err(more_wallpapers::WallpaperError::PathInvalid { path, .. }) => assert_eq!(path, "gone.jpg"),
        _ => panic!("expected PathInvalid"),
    }
}
