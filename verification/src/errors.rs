//! The library's internal error.

use vstd::prelude::*;

verus! {

#[verifier::external_type_specification]
#[verifier::external_body]
pub struct ExIoError(std::io::Error);

/// What can go wrong inside the plugin beneath the protocol layer.
#[derive(Debug)]
pub enum InternalPluginErr {
    /// An input/output failure, carrying the underlying error.
    Io(std::io::Error),
}

impl InternalPluginErr {
    /// The error's text. Relies on std::io::Error's Display implementation
    /// for the inner description; nothing is promised of the text.
    #[verifier::external_body]
    pub fn message(&self) -> String {
        match self {
            InternalPluginErr::Io(e) => format!("IO Error. {}", e),
        }
    }
}

} // verus!
