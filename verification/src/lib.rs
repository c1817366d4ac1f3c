//! A key remapping engine.
//!
//! Raw press and release events are classified against a mapping table,
//! remapped unless the focused window asks for the keys untouched, and turned
//! into logical actions. The decision taken when a key goes down is kept until
//! the key comes up again, so every key that was pressed is released as what
//! it was pressed as.
//!
//! - [`keys`]: key identities and remap targets.
//! - [`mapping`]: the mapping table.
//! - [`layout`]: the standard remapping of W, A, S, D and the numeric pad.
//! - [`window`], [`focus`]: what is known of the focused window, and for how
//!   long.
//! - [`policy`]: in which windows remapping is suppressed.
//! - [`engine`]: the state machine from events to actions.
//! - [`laws`]: what is proved of the engine and the cache in general.
//! - [`backend`], [`keyboard`]: the engine in front of a keyberon layout.
//! - [`pins`]: the pins of a matrix that is simulated in software.

pub mod backend;
pub mod engine;
pub mod focus;
pub mod keyboard;
pub mod keys;
pub mod laws;
pub mod layout;
pub mod mapping;
pub mod pins;
pub mod policy;
pub mod window;
