//! Verified core of the Ferrum engine and its Raspberry Pi sensor link.

pub mod assets;
pub mod camera;
pub mod config;
pub mod deploy;
pub mod keys;
pub mod link;
pub mod mic;
pub mod scene;
pub mod sky;
pub mod store;
pub mod surface;
pub mod wind;
