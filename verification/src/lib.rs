//! NoCtrl: the rules engine of a tile-grid puzzle game.
//!
//! A player sprite moves across a rectangular level grid using a limited set
//! of directional "control" items.  Each control is consumable a fixed number
//! of times before it expires; the player must reach the exit tile before
//! running out of usable controls.  This crate holds the verified core: the
//! tile/level data model with its text-based loader, the control inventory
//! lifecycle, the movement resolver, and the per-tick orchestrator.
//! Rendering, windowing and file access live outside the crate.

pub mod game;
pub mod gfx;
pub mod level;
pub mod state;
