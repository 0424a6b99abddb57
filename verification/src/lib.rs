//! Saving and applying monitor arrangements: the model of an arrangement, the
//! stored profiles, and what each platform backend reads and is asked to do.
pub mod apply;
pub mod backend;
pub mod cli;
pub mod display_info;
pub mod gui;
pub mod profile;
pub mod text;

pub use apply::{apply_profile, apply_profile_with_mapping};
pub use backend::{get_backend, get_display_profile, DisplayBackend, UnsupportedDisplayBackend};
pub use display_info::{
    DisplayConfig, DisplayInfo, DisplayMapping, DisplayProfile, DisplayTopology, MonitorProfile,
};
pub use profile::{load_profile_by_name, ProfileInfo};
