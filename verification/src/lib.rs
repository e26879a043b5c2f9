//! Control-and-observability plane for the voxtype daemon.
//!
//! The daemon is observed and steered by short-lived client processes that
//! share nothing but the filesystem, OS signals and a line-oriented JSON
//! stream. This crate holds the logic of that plane: the stable wire schema
//! for daemon status and its encoder and decoder, the follow-mode reader
//! that turns file changes into a stream of status records, the status bus
//! that shares one daemon-status stream across several consumers, and the
//! dispatcher that turns a user command into signals and mailbox files.
//!
//! Everything here is verified; the thin shells that do the actual file,
//! process and signal work live outside the library and only carry plain
//! values in and out.

pub mod bus;
pub mod dispatch;
pub mod follow;
pub mod level;
pub mod notification;
pub mod overlay;
pub mod paths;
pub mod status;
pub mod strutil;
pub mod tray;
pub mod update;
pub mod wire;

pub use bus::fan_out;
pub use level::Level;
pub use paths::get_app_bundle_path;
pub use status::{ExtendedStatusInfo, ResolvedIcons, WaybarStatus, format_state_json,
    format_state_json_with_level, status_class, status_level};
pub use tray::TrayState;
pub use update::{UpdateInfo, is_newer};
