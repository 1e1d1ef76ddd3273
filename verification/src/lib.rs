//! Core logic of a terminal dashboard: the tiling pane layout, the
//! application state machine driven by key presses and fetch results, and the
//! pure parts of the weather, calendar and RSS integrations.

pub mod api;
pub mod app;
pub mod app_laws;
pub mod config;
pub mod tiling;
pub mod text;
pub mod screens;
pub mod ui;
