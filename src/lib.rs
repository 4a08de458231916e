//! Lens calibration and radial correction: frames, the forward-warp
//! rasterizer, the capture worker's command logic, the calibration board,
//! the solver session and the persisted calibration format.

pub mod frame;
pub mod warp;
pub mod capture;
pub mod calibration;
pub mod persist;
pub mod board;
pub mod solver;
pub mod profile;
