//! How each backend names the five modes in its own vocabulary.
use vstd::prelude::*;
use crate::error::WallpaperError;
use crate::mode::Mode;
use crate::text::{decimal, str_eq, to_decimal};

verus! {

/// The error for a native value `raw` that has no mode.
pub open spec fn unknown_native(r: WallpaperError, raw: Seq<char>) -> bool {
    r matches WallpaperError::UnknownNativeMode(s) && s@ == raw
}

// ---- plasma shell: integer `FillMode` ----

/// The plasma shell `FillMode` of a mode; 4 and 5 are never used.
pub open spec fn kde_fill_mode_of(m: Mode) -> u8 {
    match m {
        Mode::Stretch => 0,
        Mode::Fit => 1,
        Mode::Crop => 2,
        Mode::Tile => 3,
        Mode::Center => 6,
    }
}

/// The mode of a plasma shell `FillMode`, if it has one.
pub open spec fn kde_mode_of(v: u8) -> Option<Mode> {
    if v == 0 { Some(Mode::Stretch) }
    else if v == 1 { Some(Mode::Fit) }
    else if v == 2 { Some(Mode::Crop) }
    else if v == 3 { Some(Mode::Tile) }
    else if v == 6 { Some(Mode::Center) }
    else { None }
}

pub fn kde_fill_mode(m: Mode) -> (r: u8)
    ensures
        r == kde_fill_mode_of(m),
{
    match m {
        Mode::Stretch => 0,
        Mode::Fit => 1,
        Mode::Crop => 2,
        Mode::Tile => 3,
        Mode::Center => 6,
    }
}

pub fn mode_from_kde_fill_mode(v: u8) -> (r: Result<Mode, WallpaperError>)
    ensures
        match kde_mode_of(v) {
            Some(m) => r == Ok::<Mode, WallpaperError>(m),
            None => r is Err && unknown_native(r->Err_0, decimal(v as nat)),
        },
{
    match v {
        0 => Ok(Mode::Stretch),
        1 => Ok(Mode::Fit),
        2 => Ok(Mode::Crop),
        3 => Ok(Mode::Tile),
        6 => Ok(Mode::Center),
        _ => Err(WallpaperError::UnknownNativeMode(to_decimal(v as u64))),
    }
}

// ---- X11 painter: command-line flags ----

/// The painter's flag name (without the leading dashes) for a mode.
pub open spec fn xwallpaper_flag_of(m: Mode) -> Seq<char> {
    match m {
        Mode::Center => "center"@,
        Mode::Crop => "zoom"@,
        Mode::Fit => "maximize"@,
        Mode::Stretch => "stretch"@,
        Mode::Tile => "tile"@,
    }
}

/// The mode of a painter flag name, if it has one.
pub open spec fn xwallpaper_mode_of(s: Seq<char>) -> Option<Mode> {
    if s == "center"@ { Some(Mode::Center) }
    else if s == "zoom"@ { Some(Mode::Crop) }
    else if s == "maximize"@ { Some(Mode::Fit) }
    else if s == "stretch"@ { Some(Mode::Stretch) }
    else if s == "tile"@ { Some(Mode::Tile) }
    else { None }
}

pub fn xwallpaper_flag(m: Mode) -> (r: &'static str)
    ensures
        r@ == xwallpaper_flag_of(m),
{
    match m {
        Mode::Center => "center",
        Mode::Crop => "zoom",
        Mode::Fit => "maximize",
        Mode::Stretch => "stretch",
        Mode::Tile => "tile",
    }
}

pub fn mode_from_xwallpaper_flag(s: &str) -> (r: Result<Mode, WallpaperError>)
    ensures
        match xwallpaper_mode_of(s@) {
            Some(m) => r == Ok::<Mode, WallpaperError>(m),
            None => r is Err && unknown_native(r->Err_0, s@),
        },
{
    if str_eq(s, "center") {
        Ok(Mode::Center)
    } else if str_eq(s, "zoom") {
        Ok(Mode::Crop)
    } else if str_eq(s, "maximize") {
        Ok(Mode::Fit)
    } else if str_eq(s, "stretch") {
        Ok(Mode::Stretch)
    } else if str_eq(s, "tile") {
        Ok(Mode::Tile)
    } else {
        Err(WallpaperError::UnknownNativeMode(s.to_string()))
    }
}

// ---- cinnamon: `picture-options` values ----

/// The values cinnamon stores in `picture-options`.
#[derive(Debug, Clone, Copy, PartialEq, Eq, Structural)]
pub enum CinnamonMode {
    Zoom,
    Centered,
    Wallpaper,
    Scaled,
    Stretched,
    /// One image across all monitors; no mode corresponds.
    Spanned,
}

pub open spec fn cinnamon_name_of(c: CinnamonMode) -> Seq<char> {
    match c {
        CinnamonMode::Zoom => "zoom"@,
        CinnamonMode::Centered => "centered"@,
        CinnamonMode::Wallpaper => "wallpaper"@,
        CinnamonMode::Scaled => "scaled"@,
        CinnamonMode::Stretched => "stretched"@,
        CinnamonMode::Spanned => "spanned"@,
    }
}

pub open spec fn cinnamon_parse(s: Seq<char>) -> Option<CinnamonMode> {
    if s == "zoom"@ { Some(CinnamonMode::Zoom) }
    else if s == "centered"@ { Some(CinnamonMode::Centered) }
    else if s == "wallpaper"@ { Some(CinnamonMode::Wallpaper) }
    else if s == "scaled"@ { Some(CinnamonMode::Scaled) }
    else if s == "stretched"@ { Some(CinnamonMode::Stretched) }
    else if s == "spanned"@ { Some(CinnamonMode::Spanned) }
    else { None }
}

pub open spec fn cinnamon_of(m: Mode) -> CinnamonMode {
    match m {
        Mode::Crop => CinnamonMode::Zoom,
        Mode::Center => CinnamonMode::Centered,
        Mode::Tile => CinnamonMode::Wallpaper,
        Mode::Fit => CinnamonMode::Scaled,
        Mode::Stretch => CinnamonMode::Stretched,
    }
}

pub open spec fn cinnamon_mode_of(c: CinnamonMode) -> Option<Mode> {
    match c {
        CinnamonMode::Zoom => Some(Mode::Crop),
        CinnamonMode::Centered => Some(Mode::Center),
        CinnamonMode::Wallpaper => Some(Mode::Tile),
        CinnamonMode::Scaled => Some(Mode::Fit),
        CinnamonMode::Stretched => Some(Mode::Stretch),
        CinnamonMode::Spanned => None,
    }
}

impl CinnamonMode {
    pub fn from_mode(m: Mode) -> (r: CinnamonMode)
        ensures
            r == cinnamon_of(m),
    {
        match m {
            Mode::Crop => CinnamonMode::Zoom,
            Mode::Center => CinnamonMode::Centered,
            Mode::Tile => CinnamonMode::Wallpaper,
            Mode::Fit => CinnamonMode::Scaled,
            Mode::Stretch => CinnamonMode::Stretched,
        }
    }

    /// The mode this value stands for; `Spanned` has none.
    pub fn to_mode(&self) -> (r: Option<Mode>)
        ensures
            r == cinnamon_mode_of(*self),
    {
        match self {
            CinnamonMode::Zoom => Some(Mode::Crop),
            CinnamonMode::Centered => Some(Mode::Center),
            CinnamonMode::Wallpaper => Some(Mode::Tile),
            CinnamonMode::Scaled => Some(Mode::Fit),
            CinnamonMode::Stretched => Some(Mode::Stretch),
            CinnamonMode::Spanned => None,
        }
    }

    pub fn name(&self) -> (r: &'static str)
        ensures
            r@ == cinnamon_name_of(*self),
    {
        match self {
            CinnamonMode::Zoom => "zoom",
            CinnamonMode::Centered => "centered",
            CinnamonMode::Wallpaper => "wallpaper",
            CinnamonMode::Scaled => "scaled",
            CinnamonMode::Stretched => "stretched",
            CinnamonMode::Spanned => "spanned",
        }
    }

    pub fn from_name(s: &str) -> (r: Result<CinnamonMode, WallpaperError>)
        ensures
            match cinnamon_parse(s@) {
                Some(c) => r == Ok::<CinnamonMode, WallpaperError>(c),
                None => r is Err && unknown_native(r->Err_0, s@),
            },
    {
        if str_eq(s, "zoom") {
            Ok(CinnamonMode::Zoom)
        } else if str_eq(s, "centered") {
            Ok(CinnamonMode::Centered)
        } else if str_eq(s, "wallpaper") {
            Ok(CinnamonMode::Wallpaper)
        } else if str_eq(s, "scaled") {
            Ok(CinnamonMode::Scaled)
        } else if str_eq(s, "stretched") {
            Ok(CinnamonMode::Stretched)
        } else if str_eq(s, "spanned") {
            Ok(CinnamonMode::Spanned)
        } else {
            Err(WallpaperError::UnknownNativeMode(s.to_string()))
        }
    }
}

// ---- sway: `output ... bg` mode keywords ----

pub open spec fn sway_keyword_of(m: Mode) -> Seq<char> {
    match m {
        Mode::Center => "center"@,
        Mode::Crop => "fill"@,
        Mode::Fit => "fit"@,
        Mode::Stretch => "stretch"@,
        Mode::Tile => "tile"@,
    }
}

pub open spec fn sway_mode_of(s: Seq<char>) -> Option<Mode> {
    if s == "center"@ { Some(Mode::Center) }
    else if s == "fill"@ { Some(Mode::Crop) }
    else if s == "fit"@ { Some(Mode::Fit) }
    else if s == "stretch"@ { Some(Mode::Stretch) }
    else if s == "tile"@ { Some(Mode::Tile) }
    else { None }
}

pub fn sway_keyword(m: Mode) -> (r: &'static str)
    ensures
        r@ == sway_keyword_of(m),
{
    match m {
        Mode::Center => "center",
        Mode::Crop => "fill",
        Mode::Fit => "fit",
        Mode::Stretch => "stretch",
        Mode::Tile => "tile",
    }
}

pub fn mode_from_sway_keyword(s: &str) -> (r: Result<Mode, WallpaperError>)
    ensures
        match sway_mode_of(s@) {
            Some(m) => r == Ok::<Mode, WallpaperError>(m),
            None => r is Err && unknown_native(r->Err_0, s@),
        },
{
    if str_eq(s, "center") {
        Ok(Mode::Center)
    } else if str_eq(s, "fill") {
        Ok(Mode::Crop)
    } else if str_eq(s, "fit") {
        Ok(Mode::Fit)
    } else if str_eq(s, "stretch") {
        Ok(Mode::Stretch)
    } else if str_eq(s, "tile") {
        Ok(Mode::Tile)
    } else {
        Err(WallpaperError::UnknownNativeMode(s.to_string()))
    }
}

// ---- xfce: `image-style` property values ----

/// The xfce `image-style` of a mode; "0" (a flat color, no image) is read but never written.
pub open spec fn xfce_style_of(m: Mode) -> Seq<char> {
    match m {
        Mode::Center => "1"@,
        Mode::Tile => "2"@,
        Mode::Stretch => "3"@,
        Mode::Fit => "4"@,
        Mode::Crop => "5"@,
    }
}

/// The mode of an `image-style` value: `Some(None)` for "0", `None` when undefined.
pub open spec fn xfce_mode_of(s: Seq<char>) -> Option<Option<Mode>> {
    if s == "0"@ { Some(None) }
    else if s == "1"@ { Some(Some(Mode::Center)) }
    else if s == "2"@ { Some(Some(Mode::Tile)) }
    else if s == "3"@ { Some(Some(Mode::Stretch)) }
    else if s == "4"@ { Some(Some(Mode::Fit)) }
    else if s == "5"@ { Some(Some(Mode::Crop)) }
    else { None }
}

pub fn xfce_image_style(m: Mode) -> (r: &'static str)
    ensures
        r@ == xfce_style_of(m),
{
    match m {
        Mode::Center => "1",
        Mode::Tile => "2",
        Mode::Stretch => "3",
        Mode::Fit => "4",
        Mode::Crop => "5",
    }
}

pub fn mode_from_xfce_image_style(s: &str) -> (r: Result<Option<Mode>, WallpaperError>)
    ensures
        match xfce_mode_of(s@) {
            Some(m) => r == Ok::<Option<Mode>, WallpaperError>(m),
            None => r is Err && unknown_native(r->Err_0, s@),
        },
{
    if str_eq(s, "0") {
        Ok(None)
    } else if str_eq(s, "1") {
        Ok(Some(Mode::Center))
    } else if str_eq(s, "2") {
        Ok(Some(Mode::Tile))
    } else if str_eq(s, "3") {
        Ok(Some(Mode::Stretch))
    } else if str_eq(s, "4") {
        Ok(Some(Mode::Fit))
    } else if str_eq(s, "5") {
        Ok(Some(Mode::Crop))
    } else {
        Err(WallpaperError::UnknownNativeMode(s.to_string()))
    }
}

// ---- laws ----

/// Every mode table is a round trip: a mode survives the way to its native
/// value and back, and every native value that has a mode is the native value
/// of that mode. (Cinnamon's `spanned` and xfce's "0" have no mode.)
pub proof fn lemma_native_round_trip()
    ensures
        forall|m: Mode| #[trigger] kde_mode_of(kde_fill_mode_of(m)) == Some(m),
        forall|v: u8| #[trigger] kde_mode_of(v) matches Some(m) ==> kde_fill_mode_of(m) == v,
        forall|m: Mode| #[trigger] xwallpaper_mode_of(xwallpaper_flag_of(m)) == Some(m),
        forall|s: Seq<char>|
            #[trigger] xwallpaper_mode_of(s) matches Some(m) ==> xwallpaper_flag_of(m) == s,
        forall|m: Mode| #[trigger] cinnamon_mode_of(cinnamon_of(m)) == Some(m),
        forall|c: CinnamonMode|
            #[trigger] cinnamon_mode_of(c) matches Some(m) ==> cinnamon_of(m) == c,
        forall|c: CinnamonMode| #[trigger] cinnamon_parse(cinnamon_name_of(c)) == Some(c),
        forall|s: Seq<char>|
            #[trigger] cinnamon_parse(s) matches Some(c) ==> cinnamon_name_of(c) == s,
        forall|m: Mode| #[trigger] sway_mode_of(sway_keyword_of(m)) == Some(m),
        forall|s: Seq<char>| #[trigger] sway_mode_of(s) matches Some(m) ==> sway_keyword_of(m) == s,
        forall|m: Mode| #[trigger] xfce_mode_of(xfce_style_of(m)) == Some(Some(m)),
        forall|s: Seq<char>|
            #[trigger] xfce_mode_of(s) matches Some(Some(m)) ==> xfce_style_of(m) == s,
{
    reveal_strlit("center");
    reveal_strlit("zoom");
    reveal_strlit("maximize");
    reveal_strlit("stretch");
    reveal_strlit("tile");
    reveal_strlit("centered");
    reveal_strlit("wallpaper");
    reveal_strlit("scaled");
    reveal_strlit("stretched");
    reveal_strlit("spanned");
    reveal_strlit("fill");
    reveal_strlit("fit");
    reveal_strlit("0");
    reveal_strlit("1");
    reveal_strlit("2");
    reveal_strlit("3");
    reveal_strlit("4");
    reveal_strlit("5");
    assert("center"@[0] == 'c' && "center"@[1] == 'e' && "center"@[2] == 'n');
    assert("zoom"@[0] == 'z' && "zoom"@[1] == 'o' && "zoom"@[2] == 'o');
    assert("maximize"@[0] == 'm' && "maximize"@[1] == 'a' && "maximize"@[2] == 'x');
    assert("stretch"@[0] == 's' && "stretch"@[1] == 't' && "stretch"@[2] == 'r');
    assert("tile"@[0] == 't' && "tile"@[1] == 'i' && "tile"@[2] == 'l');
    assert("centered"@[0] == 'c' && "centered"@[1] == 'e' && "centered"@[2] == 'n');
    assert("wallpaper"@[0] == 'w' && "wallpaper"@[1] == 'a' && "wallpaper"@[2] == 'l');
    assert("scaled"@[0] == 's' && "scaled"@[1] == 'c' && "scaled"@[2] == 'a');
    assert("stretched"@[0] == 's' && "stretched"@[1] == 't' && "stretched"@[2] == 'r');
    assert("spanned"@[0] == 's' && "spanned"@[1] == 'p' && "spanned"@[2] == 'a');
    assert("fill"@[0] == 'f' && "fill"@[1] == 'i' && "fill"@[2] == 'l');
    assert("fit"@[0] == 'f' && "fit"@[1] == 'i' && "fit"@[2] == 't');
    assert("0"@[0] == '0');
    assert("1"@[0] == '1');
    assert("2"@[0] == '2');
    assert("3"@[0] == '3');
    assert("4"@[0] == '4');
    assert("5"@[0] == '5');
}

} // verus!
