//! Verified core of a small frame-based game-object runtime.
//!
//! The library models the live world of a real-time engine: a template
//! registry that turns declarative entity definitions into spawnable
//! objects, and a world container that owns the spawned objects, keeps a
//! derived render index consistent with the primary store, and lets an
//! object remove itself safely from inside its own update callback.
//! Window, graphics and plugin-loading backends sit outside this crate and
//! talk to it through plain values.

pub mod game;
pub mod gfx;
pub mod input;
pub mod math;
pub mod plugin;
pub mod ui;
pub mod util;

use vstd::prelude::*;

verus! {

} // verus!
