//! Per-monitor wallpapers for a Wayland session.
//!
//! The library remembers which image belongs on which monitor and how each monitor is
//! mounted, and decides what has to happen to show an image: whether it is turned first,
//! which file the wallpaper daemon is given, and when the choice is remembered. It runs
//! no program and touches no file itself. Each piece of work is a job that names the
//! step that is due and takes in how the step went.

pub mod apply;
pub mod display;
pub mod engine;
pub mod gallery;
pub mod json;
pub mod monitor_map;
pub mod shell;
pub mod state;
pub mod store;
pub mod text;
pub mod thumbnail;
pub mod transform;

pub use apply::{reapply_saved_wallpapers, ReapplyJob, ReapplyPhase};
pub use display::{parse_monitors, Invocation};
pub use engine::{set_wallpaper, Action, Assignment, Notice, SetJob, SetPhase};
pub use json::{load_state, save_state};
pub use monitor_map::MonitorMap;
pub use state::{StateDocument, WallpaperState};
pub use store::{get_state_path, state_path};
pub use transform::{total_degrees, Orientation, Rotation};
