//! Video helpers: time-base arithmetic, video stream information, screenshot
//! planning and decoding decisions, frame rotation and preview-grid
//! composition, each with its contract and proof.
pub mod error;
pub mod frame;
pub mod helper;
pub mod preview;
pub mod rational;
pub mod screengen;
