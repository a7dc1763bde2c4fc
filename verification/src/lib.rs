//! The core of Sori, a local meeting recorder: everything that is decided about a recording.
//!
//! The library touches neither files nor devices. It is told what happened and says what to do.

pub mod text;
mod sequences;
pub mod osstatus;
pub mod stamp;

pub mod timeline;
pub mod wav;
pub mod levels;

pub mod pcm;
pub mod ring;
pub mod tap;
pub mod mic;
pub mod devices;

pub mod paths;
pub mod recordings;
pub mod state;

pub mod events;
pub mod recorder;

pub mod json;
pub mod ipc;
pub mod control;
pub mod cli;
