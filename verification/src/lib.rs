//! Real-time hue remapping for colour-blind users: the colour model, the
//! dither mask and the session logic of a capture-transform-present overlay,
//! with every function verified against its contract.

pub mod units;
pub mod hue_mapper;
pub mod hex;
pub mod spectrum;
pub mod spectrum_laws;
pub mod noise;
pub mod frame_loop;
pub mod overlay;
pub mod monitor;
pub mod capture;
pub mod render;
pub mod logger;
pub mod config;
pub mod state;
pub mod ipc;
pub mod assets;
