use vstd::prelude::*;

verus! {

/// Everything that can go wrong while the daemon runs, each variant carrying
/// the diagnostic text of the underlying failure.
#[derive(Debug)]
pub enum AppError {
    /// A required environment variable was missing or malformed.
    VarError(String),
    /// A transport failure: connect, read or write on a stream.
    IOError(String),
    /// The configuration source could not be decoded.
    TomlDeserializationError(String),
    /// The audio output stream could not be opened.
    RodioStreamError(String),
    /// A sound file could not be decoded for playback.
    RodioDecoderError(String),
    /// A directory response was not the expected JSON shape.
    JsonError(String),
}

impl AppError {
    /// The diagnostic text carried by this error.
    pub fn message(&self) -> (r: &String)
        ensures
            match self {
                AppError::VarError(m) => r == m,
                AppError::IOError(m) => r == m,
                AppError::TomlDeserializationError(m) => r == m,
                AppError::RodioStreamError(m) => r == m,
                AppError::RodioDecoderError(m) => r == m,
                AppError::JsonError(m) => r == m,
            },
    {
        match self {
            AppError::VarError(m) => m,
            AppError::IOError(m) => m,
            AppError::TomlDeserializationError(m) => m,
            AppError::RodioStreamError(m) => m,
            AppError::RodioDecoderError(m) => m,
            AppError::JsonError(m) => m,
        }
    }
}

} // verus!
