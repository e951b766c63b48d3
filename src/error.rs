//! Usage and configuration errors found in a compose document.
use vstd::prelude::*;

verus! {

/// Why a compose document cannot be brought up.
#[derive(Debug, PartialEq, Eq)]
pub enum ComposeError {
    /// The document is of a schema version older than 3.
    UnsupportedVersion,
    /// The document declares no `services` section.
    MissingServices,
    /// The named service has no configuration.
    MissingServiceConfig(String),
    /// The named service gives its `command` in a form other than a string.
    UnsupportedCommand(String),
    /// A port shorthand without the `host:container` colon.
    InvalidPort(String),
    /// A volume shorthand without the `host:container` colon.
    InvalidVolume(String),
}

} // verus!
