//! The core of a local music-library manager: the rules by which a folder
//! scan becomes a track catalog, and the state machine behind single-stream
//! playback.
//!
//! Nothing here touches the file system, the database or the audio device.
//! The surrounding application performs those effects and hands this crate
//! plain values; every function below is verified against its contract.

pub mod catalog;
pub mod filename;
pub mod indexing;
pub mod monitor;
pub mod playback;
pub mod scanner;
pub mod track;
pub mod volume;
