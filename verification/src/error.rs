//! The error taxonomy shared by every fallible operation of the library.

use vstd::prelude::*;

verus! {

/// Why an operation of the framework failed.
#[derive(Debug, Clone, PartialEq, Eq)]
pub enum GameError {
    /// The configuration resource is missing or malformed.
    ConfigError(String),
    /// Constructing a game state failed.
    LoadError(String),
    /// A per-frame update callback failed.
    UpdateError(String),
    /// A per-frame draw callback failed.
    DrawError(String),
    /// A font, an image or the backend failed.
    ResourceError(String),
}

/// The kind of a [`GameError`], without its message.
#[derive(Debug, Clone, Copy, PartialEq, Eq, Structural)]
pub enum ErrorKind {
    Config,
    Load,
    Update,
    Draw,
    Resource,
}

impl GameError {
    /// The kind of this error.
    pub open spec fn spec_kind(&self) -> ErrorKind {
        match self {
            GameError::ConfigError(_) => ErrorKind::Config,
            GameError::LoadError(_) => ErrorKind::Load,
            GameError::UpdateError(_) => ErrorKind::Update,
            GameError::DrawError(_) => ErrorKind::Draw,
            GameError::ResourceError(_) => ErrorKind::Resource,
        }
    }

    /// The kind of this error.
    #[verifier::when_used_as_spec(spec_kind)]
    pub fn kind(&self) -> (k: ErrorKind)
        ensures
            k == self.spec_kind(),
    {
        match self {
            GameError::ConfigError(_) => ErrorKind::Config,
            GameError::LoadError(_) => ErrorKind::Load,
            GameError::UpdateError(_) => ErrorKind::Update,
            GameError::DrawError(_) => ErrorKind::Draw,
            GameError::ResourceError(_) => ErrorKind::Resource,
        }
    }

    /// Only a configuration failure is recovered locally; every other
    /// failure unwinds to the caller.
    pub open spec fn spec_is_recoverable(&self) -> bool {
        self is ConfigError
    }

    /// Whether the framework recovers from this error by itself.
    #[verifier::when_used_as_spec(spec_is_recoverable)]
    pub fn is_recoverable(&self) -> (r: bool)
        ensures
            r == self.spec_is_recoverable(),
    {
        match self {
            GameError::ConfigError(_) => true,
            _ => false,
        }
    }
}

} // verus!
