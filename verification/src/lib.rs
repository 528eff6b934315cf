//! Engine of a full-screen, multi-monitor selection overlay.
//!
//! The overlay freezes one snapshot per display, shows each in a borderless
//! window, lets the user drag out one rectangle and hands the pixels under it
//! on for text recognition. This crate holds the parts of that flow that
//! decide or compute: pixel packing, frame composition, pointer geometry,
//! the selection state machine, the window set, the final crop and the
//! settings of the services that the selection is handed to.

pub mod compositor;
pub mod error;
pub mod geometry;
pub mod overlay;
pub mod pixel;
pub mod selection;
pub mod settings;
pub mod snapshot;
