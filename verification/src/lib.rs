//! Core of a desktop bell daemon: it decodes newline-terminated UTF-8
//! events out of a raw byte stream, splits each line into an event kind and
//! payload, resolves a bell event's window against the directory's window
//! list, evaluates an ordered rule list — first match wins — and decides
//! which sound, at what volume, to hand to playback. Transport, audio
//! output and configuration files live outside this crate; what reaches
//! the matching engine is already validated here.

mod cache;
mod config;
mod decoder;
mod dispatch;
mod error;
mod event;
mod hypr;
mod pattern;
mod util;

pub use cache::SoundCache;
pub use config::Config;
pub use config::Rule;
pub use config::Volume;
pub use config::WorkspaceRule;
pub use config::VOLUME_FULL;
pub use decoder::char_total_len;
pub use decoder::LineFrameDecoder;
pub use decoder::LINE_TERMINATOR;
pub use dispatch::classify_event;
pub use dispatch::decide_bell;
pub use dispatch::EventAction;
pub use dispatch::MatchOutcome;
pub use error::AppError;
pub use event::split_event;
pub use hypr::HyprClient;
pub use hypr::HyprWorkspace;
pub use pattern::TextPattern;
pub use util::bytes_to_string;
pub use util::reader_to_string;
