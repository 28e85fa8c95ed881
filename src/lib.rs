//! Event routing, sequencing and parameter addressing for a small audio host.

pub mod param_address;
pub mod clip;
pub mod events;
pub mod routing;
pub mod sequencer;
pub mod stereo;
pub mod params;
pub mod model;
pub mod plugin;
pub mod manager;
pub mod mixer;
