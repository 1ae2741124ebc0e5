//! Decision core of a tiling window manager.
//!
//! Given normalized lifecycle events for on-screen windows (created,
//! destroyed, property-changed, moved, resized), this library computes where
//! each window belongs — which workspace tag, which stacking position,
//! floating or tiled geometry, focus transfer — and appends display actions
//! for an external display server adapter to execute.  Every placement rule
//! is stated in a contract and proved.

#![verifier::loop_isolation(false)]

pub mod ancestry;
pub mod avoidance;
pub mod config;
pub mod display_action;
pub mod focus;
pub mod geometry;
pub mod helpers;
pub mod manager;
pub mod state;
pub mod window;
pub mod window_changed_handler;
pub mod window_create_handler;
pub mod window_destroy_handler;
pub mod window_move_handler;
pub mod window_resize_handler;
pub mod workspace;

