//! The core of a desktop front end for speech transcription.
//!
//! The application runs an external transcription binary over an audio file
//! and shows its progress while it runs. This crate holds what the
//! application decides and computes: which binary to run and with which
//! arguments ([`command`]), how the lines of its output are read as progress
//! ([`progress`]) and turned into events ([`stream`]), and when the one job
//! that may run starts and ends ([`supervisor`]). It also holds the smaller
//! rules around that: settings and their defaults ([`settings`]), media
//! files and what is made from them ([`media`]), the models directory
//! ([`models`]), the lines of the run log ([`logging`]), and what is told
//! about the machine ([`system`]).
//!
//! Nothing here reads a file, starts a process or awaits anything. The host
//! does that, and hands over what it found.
//!
//! Times are whole milliseconds and percentages whole thousandths of a
//! percent throughout; see [`decimal`].

pub mod command;
pub mod decimal;
pub mod logging;
pub mod media;
pub mod models;
pub mod paths;
pub mod progress;
pub mod settings;
pub mod stream;
pub mod supervisor;
pub mod system;
pub mod text;
