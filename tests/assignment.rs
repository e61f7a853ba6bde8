use more_wallpapers::{ResolvedChoice, Environment, Mode, Screen, WallpaperBuilder, WallpaperError};

fn screen(name: &str, active: bool) -> Screen {
    Screen { name: name.to_string(), wallpaper: None, mode: None, active }
}

fn strings(v: &[&str]) -> Vec<String> {
    v.iter().map(|s| s.to_string()).collect()
}

#[test]
fn two_active_screens_take_the_first_images() {
    let builder = WallpaperBuilder::new(Environment::X11, vec![screen("HDMI1", true), screen("eDP1", true)]);
    let images = strings(&["a.jpg", "b.jpg", "c.jpg"]);
    let sel = builder.set_wallpapers_from_vec(&images, &"a.jpg".to_string(), Mode::Crop);
    assert_eq!(sel.choices[0].path, "a.jpg");
    assert_eq!(sel.choices[1].path, "b.jpg");
    assert!(sel.choices.iter().all(|c| c.mode == Mode::Crop));
    assert_eq!(sel.used, strings(&["a.jpg", "b.jpg"]));
}

#[test]
fn images_wrap_over_active_screens_and_inactive_take_the_default() {
    let screens = vec![
        screen("default", false),
        screen("A", true),
        screen("B", true),
        screen("old", false),
        screen("C", true),
    ];
    let builder = WallpaperBuilder::new(Environment::Cinnamon, screens);
    let images = strings(&["1.jpg", "2.jpg"]);
    let sel = builder.set_wallpapers_from_vec(&images, &"d.jpg".to_string(), Mode::Fit);
    let paths: Vec<&str> = sel.choices.iter().map(|c| c.path.as_str()).collect();
    assert_eq!(paths, vec!["d.jpg", "1.jpg", "2.jpg", "d.jpg", "1.jpg"]);
    assert_eq!(sel.used, strings(&["1.jpg", "2.jpg", "1.jpg"]));
    assert_eq!(sel.used.len(), builder.active_screen_count());
}

#[test]
fn no_images_give_every_screen_the_default() {
    let builder = WallpaperBuilder::new(
        Environment::Sway,
        vec![screen("A", true), screen("B", false), screen("C", true)],
    );
    let sel = builder.set_wallpapers_from_vec(&Vec::new(), &"d.jpg".to_string(), Mode::Tile);
    assert!(sel.choices.iter().all(|c| c.path == "d.jpg" && c.mode == Mode::Tile));
    assert_eq!(sel.used, strings(&["d.jpg", "d.jpg"]));
}

#[test]
fn random_assignment_repeats_no_image_when_there_are_enough() {
    let screens = vec![screen("default", false), screen("A", true), screen("B", true), screen("C", true)];
    let builder = WallpaperBuilder::new(Environment::Cinnamon, screens);
    let images = strings(&["1.jpg", "2.jpg", "3.jpg"]);
    for _ in 0..50 {
        let sel = builder.set_random_wallpapers_from_vec(&images, &"d.jpg".to_string(), Mode::Crop);
        assert_eq!(sel.used.len(), 3);
        let mut used = sel.used.clone();
        used.sort();
        assert_eq!(used, images);
        assert_eq!(sel.choices[0].path, "d.jpg");
        assert_eq!(sel.choices[1].path, sel.used[0]);
        assert_eq!(sel.choices[3].path, sel.used[2]);
    }
}

#[test]
fn random_assignment_with_one_image_uses_it_everywhere() {
    let screens = vec![screen("A", true), screen("B", true), screen("C", true), screen("x", false)];
    let builder = WallpaperBuilder::new(Environment::Sway, screens);
    let sel = builder.set_random_wallpapers_from_vec(&strings(&["only.jpg"]), &"d.jpg".to_string(), Mode::Fit);
    assert_eq!(sel.used, strings(&["only.jpg", "only.jpg", "only.jpg"]));
    assert_eq!(sel.choices[3].path, "d.jpg");
}

#[test]
fn random_assignment_draws_only_given_images() {
    let screens = vec![screen("A", true), screen("B", true), screen("C", true), screen("D", true), screen("E", true)];
    let builder = WallpaperBuilder::new(Environment::X11, screens);
    let images = strings(&["1.jpg", "2.jpg"]);
    for _ in 0..50 {
        let sel = builder.set_random_wallpapers_from_vec(&images, &"d.jpg".to_string(), Mode::Crop);
        assert_eq!(sel.used.len(), 5);
        assert!(sel.used.iter().all(|u| images.contains(u)));
        // the pool is built in rounds of distinct images: neither appears more than three times
        let ones = sel.used.iter().filter(|u| u.as_str() == "1.jpg").count();
        assert!((2..=3).contains(&ones));
    }
}

#[test]
fn random_assignment_without_images_uses_the_default() {
    let builder = WallpaperBuilder::new(Environment::Sway, vec![screen("A", true), screen("B", false)]);
    let sel = builder.set_random_wallpapers_from_vec(&Vec::new(), &"d.jpg".to_string(), Mode::Crop);
    assert_eq!(sel.used, strings(&["d.jpg"]));
    assert_eq!(sel.choices[1].path, "d.jpg");
}

#[test]
fn builder_reports_counts_and_environment() {
    let builder = WallpaperBuilder::new(
        Environment::Xfce,
        vec![screen("screen0/monitor0", false), screen("screen0/monitor0/workspace0", true)],
    );
    assert_eq!(builder.screen_count(), 2);
    assert_eq!(builder.active_screen_count(), 1);
    assert_eq!(builder.environment(), Environment::Xfce);
    assert_eq!(builder.screens()[1].name, "screen0/monitor0/workspace0");
}

#[test]
fn a_missing_file_fails_the_batch_with_its_path() {
    let builder = WallpaperBuilder::new(Environment::X11, vec![screen("A", true), screen("B", true), screen("C", true)]);
    let choices = vec![
        ResolvedChoice { path: "a.jpg".to_string(), resolved: Ok("/p/a.jpg".to_string()), mode: Mode::Crop },
        ResolvedChoice { path: "gone.jpg".to_string(), resolved: Err("not found".to_string()), mode: Mode::Crop },
        ResolvedChoice { path: "also.jpg".to_string(), resolved: Err("denied".to_string()), mode: Mode::Crop },
    ];
    match builder.set_wallpapers(choices) {
        Err(WallpaperError::PathInvalid { path, cause }) => {
            assert_eq!(path, "gone.jpg");
            assert_eq!(cause, "not found");
        }
        _ => panic!("expected PathInvalid"),
    }
}

#[test]
fn random_assignment_varies_the_order() {
    let screens = vec![screen("A", true), screen("B", true), screen("C", true)];
    let builder = WallpaperBuilder::new(Environment::Sway, screens);
    let images = strings(&["1.jpg", "2.jpg", "3.jpg"]);
    let first = builder.set_random_wallpapers_from_vec(&images, &"d.jpg".to_string(), Mode::Crop).used;
    let mut differs = false;
    for _ in 0..60 {
        let sel = builder.set_random_wallpapers_from_vec(&images, &"d.jpg".to_string(), Mode::Crop);
        differs |= sel.used != first;
    }
    assert!(differs);
}

#[test]
fn random_assignment_bounds_repeats_by_multiplicity() {
    let screens = vec![screen("A", true), screen("B", true), screen("C", true), screen("D", true)];
    let builder = WallpaperBuilder::new(Environment::Sway, screens);
    // four active screens, two images: every occurrence is used at most twice
    let images = strings(&["1.jpg", "2.jpg"]);
    for _ in 0..50 {
        let sel = builder.set_random_wallpapers_from_vec(&images, &"d.jpg".to_string(), Mode::Crop);
        let ones = sel.used.iter().filter(|u| u.as_str() == "1.jpg").count();
        assert_eq!(ones, 2);
    }
}
