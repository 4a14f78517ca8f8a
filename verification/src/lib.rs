//! Verified core of a desktop toolkit: the status bar's presentation logic,
//! the launcher's query model, password handling and learned predictions,
//! and the session manager's monitor identities.
pub mod text;
pub mod model;
pub mod artwork;
pub mod password;
pub mod sort;
pub mod prediction;
pub mod state;
pub mod context;
pub mod popovers;
pub mod system;
pub mod wm;
pub mod theme;
pub mod monitor;
pub mod config;
pub mod control_center;
pub mod control_spec;
pub mod intents;
pub mod control_view;
pub mod navigation;
pub mod surface;
pub mod compare;
pub mod registry;
pub mod search;
pub mod sources;
pub mod json;
pub mod catalog;
pub mod launcher;
