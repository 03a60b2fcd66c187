//! Error taxonomy of the acquisition engine.
//!
//! Transport-layer failures (`ConfigError`, `CatalogError`, `SocketError`) are
//! recovered internally by retry and never abort the process; frame-level
//! decode failures (`UnknownMessage`, `UnknownSignal`, `DecodeError`) are
//! deterministic for a given frame and catalog and surface to the caller.
use vstd::prelude::*;

verus! {

/// A failure of the acquisition engine, tagged by layer and kind.
#[derive(Debug, Clone, PartialEq, Eq, Structural)]
pub enum CanError {
    /// The DBC description is missing or unreadable.
    ConfigError,
    /// The DBC description is present but the catalog rejected it.
    CatalogError,
    /// Opening, filtering or reading the socket failed at the OS boundary.
    SocketError,
    /// A frame arrived whose extended identifier is not in the index.
    UnknownMessage,
    /// The index names a signal for which the catalog has no descriptor.
    UnknownSignal,
    /// A descriptor rejected the padded payload bytes.
    DecodeError,
}

impl CanError {
    /// True for the transport-layer kinds that the session retries internally.
    pub fn is_transport(&self) -> (r: bool)
        ensures
            r == (self is ConfigError || self is CatalogError || self is SocketError),
    {
        match self {
            CanError::ConfigError => true,
            CanError::CatalogError => true,
            CanError::SocketError => true,
            _ => false,
        }
    }

    /// A short description, for logs kept outside the engine.
    pub fn describe(&self) -> &'static str {
        match self {
            CanError::ConfigError => "DBC file cannot be opened or read",
            CanError::CatalogError => "DBC file was rejected by the signal catalog",
            CanError::SocketError => "CAN socket failure",
            CanError::UnknownMessage => "Message ID not found in DBC.",
            CanError::UnknownSignal => "Signal not found in DBC.",
            CanError::DecodeError => "Failed to parse message, please check the DBC file.",
        }
    }
}

} // verus!
