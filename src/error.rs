use vstd::prelude::*;

verus! {

/// Errors reported by the library.
#[derive(Debug, Clone, PartialEq, Eq)]
pub enum Error {
    Io(String),
    FFmpeg(String),
    Media(String),
    Project(String),
    Render(String),
    Effect(String),
    Json(String),
    Image(String),
    InvalidPath(String),
    NotFound(String),
    InvalidFormat(String),
    InvalidComposition(String),
    UnsupportedEffect(String),
    UnsupportedTransition(String),
    Encode(String),
    Cancelled,
    Internal(String),
}

} // verus!
