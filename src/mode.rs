use vstd::prelude::*;
use crate::text::str_eq;

verus! {

/// How an image is fitted to a screen.
#[derive(Debug, Clone, Copy, PartialEq, Eq, Structural)]
pub enum Mode {
    /// No scaling; the image is centered and the rest is filled.
    Center,
    /// Scaled uniformly to cover the whole screen; overflow is cut off.
    Crop,
    /// Scaled uniformly to fit inside the screen; the short axis is padded.
    Fit,
    /// Scaled on each axis independently to cover the screen exactly.
    Stretch,
    /// Repeated at native resolution until the screen is filled.
    Tile,
}

/// The lower-case name of a mode.
pub open spec fn mode_name(m: Mode) -> Seq<char> {
    match m {
        Mode::Center => "center"@,
        Mode::Crop => "crop"@,
        Mode::Fit => "fit"@,
        Mode::Stretch => "stretch"@,
        Mode::Tile => "tile"@,
    }
}

impl Mode {
    /// The lower-case name of this mode.
    pub fn name(&self) -> (r: &'static str)
        ensures
            r@ == mode_name(*self),
    {
        match self {
            Mode::Center => "center",
            Mode::Crop => "crop",
            Mode::Fit => "fit",
            Mode::Stretch => "stretch",
            Mode::Tile => "tile",
        }
    }
}

/// The mode called `s`, by its lower-case name.
pub open spec fn mode_named(s: Seq<char>) -> Option<Mode> {
    if s == "center"@ { Some(Mode::Center) }
    else if s == "crop"@ { Some(Mode::Crop) }
    else if s == "fit"@ { Some(Mode::Fit) }
    else if s == "stretch"@ { Some(Mode::Stretch) }
    else if s == "tile"@ { Some(Mode::Tile) }
    else { None }
}

impl Mode {
    /// The mode with the lower-case name `s`, if there is one.
    pub fn from_name(s: &str) -> (r: Option<Mode>)
        ensures
            r == mode_named(s@),
    {
        if str_eq(s, "center") {
            Some(Mode::Center)
        } else if str_eq(s, "crop") {
            Some(Mode::Crop)
        } else if str_eq(s, "fit") {
            Some(Mode::Fit)
        } else if str_eq(s, "stretch") {
            Some(Mode::Stretch)
        } else if str_eq(s, "tile") {
            Some(Mode::Tile)
        } else {
            None
        }
    }
}

impl std::str::FromStr for Mode {
    type Err = String;

    fn from_str(s: &str) -> Result<Mode, String> {
        match Mode::from_name(s) {
            Some(m) => Ok(m),
            None => Err("expected one of center, crop, fit, stretch, tile".to_string()),
        }
    }
}

impl Default for Mode {
    /// `Crop` is the mode used when none is given.
    fn default() -> (r: Mode)
        ensures
            r == Mode::Crop,
    {
        Mode::Crop
    }
}

} // verus!
