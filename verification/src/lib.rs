//! Frame capture, transcoding and chunked wireless streaming for a
//! camera-equipped microcontroller that feeds a small pixel display.
//!
//! The crate holds the decisions and the data transformations of the
//! pipeline; the hardware and radio drivers are driven by the embedding
//! program, which hands their results to the state machines defined here.

pub mod ble;
pub mod command;
pub mod config;
pub mod espcam;
pub mod link;
pub mod stream;
pub mod transcode;
