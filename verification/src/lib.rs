//! Playing an audio stream that comes in over UDP, with a web interface to watch it.
//!
//! * [`config`]: the settings.
//! * [`receiver`]: which datagrams count, and the samples they carry.
//! * [`playback`]: samples in as packets arrive, and out as the sound device asks for them.
//! * [`stats`]: packet counters and their report.
//! * [`gui`]: the answers of the web interface.
//! * [`ring`], [`bytes`], [`text`]: the ring buffer, little-endian numbers, numbers as text.

pub mod bytes;
pub mod config;
pub mod gui;
pub mod playback;
pub mod receiver;
pub mod ring;
pub mod stats;
pub mod text;
