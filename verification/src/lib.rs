//! A small game framework core: a tick-driven loop driver with typed event
//! dispatch, a frame timer, and a batched text layout layer.
//!
//! All measures are whole layout units; nothing here touches a window, a
//! device or a file. The embedding program polls its platform, hands the
//! library plain events and timestamps, and performs the draw calls that the
//! library hands back.

pub mod conf;
pub mod context;
pub mod draw;
pub mod error;
pub mod event;
pub mod fonts;
pub mod game;
pub mod geometry;
pub mod layout;
pub mod queue;
pub mod state;
pub mod text;
pub mod timer;

