//! Resident loader core for a small battery-powered handheld: a menu/file
//! browser over removable storage, a chainload/flash state machine that
//! streams a firmware image into an alternate boot region, and a
//! double-buffered render pipeline model, with status composition helpers.
//!
//! The core works on plain values; a platform adapter outside this crate
//! performs the actual storage, display and boot-service calls.
use vstd::prelude::*;

pub mod chainload;
pub mod control;
pub mod hotkeys;
pub mod launch;
pub mod menu;
pub mod paths;
pub mod progress;
pub mod status;
pub mod storage;
pub mod swapchain;
pub mod textfmt;
pub mod ui;

verus! {

/// Width of the physical display in pixels.
pub const SCREEN_WIDTH: usize = 240;

/// Height of the physical display in pixels.
pub const SCREEN_HEIGHT: usize = 135;

} // verus!
