//! Sets desktop wallpapers, with a separate image and fit mode per monitor
//! where the desktop environment allows it.
//!
//! The library decides; the caller performs. It picks the backend from the
//! environment variables it is given, reads each backend's answers into
//! screens, maps images onto the screens, and says exactly which programs,
//! scripts or delegate calls put them on screen.

pub mod builder;
pub mod discover;
pub mod environment;
pub mod error;
pub mod mode;
pub mod native;
pub mod plan;
pub mod sampling;
pub mod text;

pub use builder::{ResolvedChoice, Choice, Screen, Selection, WallpaperBuilder};
pub use environment::{get_environment, EnvConfig, Environment};
pub use error::{CommandError, WallpaperError};
pub use mode::Mode;
pub use plan::{ApplyPlan, Invocation};
