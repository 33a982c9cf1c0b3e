//! The crown dial of a keyboard, from its packets to the actions it runs.
//!
//! The library holds the decisions and leaves the devices, windows and widgets
//! to whoever embeds it:
//!
//! - [`translator`] turns the dial's packets into input edges, and
//!   [`control_table`] does the same for snapshots of the diverted keys.
//! - [`session`] is one keyboard's capture session as a state machine, and
//!   [`watcher`] decides which session runs and what its inputs dispatch.
//! - [`crown_mode`] is what a tap cycles the dial through, and [`app_state`]
//!   edits those lists per device and per application.
//! - [`osd`] is the on-screen mode indicator, [`panel`], [`chord_panel`] and
//!   [`modes_panel`] are what the settings panel shows, and [`ring_preview`] is
//!   a ring to look at.
//! - [`catalog`] offers installed applications for profiles.
//! - [`crown_state`] is what a crown reports about itself.
//! - [`binding`], [`string_map`] and [`text`] are what the others share.

pub mod app_state;
pub mod binding;
pub mod catalog;
pub mod chord_panel;
pub mod control_table;
pub mod crown_mode;
pub mod crown_state;
pub mod modes_panel;
pub mod osd;
pub mod panel;
pub mod ring_preview;
pub mod session;
pub mod string_map;
pub mod text;
pub mod translator;
pub mod watcher;
