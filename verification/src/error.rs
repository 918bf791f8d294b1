//! The error vocabulary shared by the model and the protocol layers.

use vstd::prelude::*;

verus! {

/// Everything that can go wrong while modelling or talking to an Eleven Rack.
#[derive(Debug)]
#[non_exhaustive]
pub enum Error {
    /// No MIDI port matched the requested address.
    PortNotFound(String),
    /// Another process already holds the advisory lock for this port.
    PortBusy(String),
    /// A System Exclusive message was malformed; the string carries the detail.
    Sysex(String),
    /// The underlying MIDI transport failed; the string carries its message.
    Transport(String),
    /// A reply was expected from the device but none arrived in time.
    Timeout,
    /// A patch (`.tfx`) file was malformed.
    Tfx(String),
}

/// Convenience alias for results returned across the Eleven Rack modules.
pub type Result<T> = core::result::Result<T, Error>;

/// The human-readable message of an error.
pub open spec fn error_message(e: Error) -> Seq<char> {
    match e {
        Error::PortNotFound(p) => "MIDI port not found: "@ + p@,
        Error::PortBusy(p) => "MIDI port "@ + p@ + " is in use by another rackctl process"@,
        Error::Sysex(m) => "sysex error: "@ + m@,
        Error::Transport(m) => "transport error: "@ + m@,
        Error::Timeout => "timed out waiting for a device reply"@,
        Error::Tfx(m) => "tfx error: "@ + m@,
    }
}

impl Error {
    /// The human-readable message of this error.
    pub fn message(&self) -> (r: String)
        ensures
            r@ == error_message(*self),
    {
        match self {
            Error::PortNotFound(p) => String::from_str("MIDI port not found: ").concat(p.as_str()),
            Error::PortBusy(p) => String::from_str("MIDI port ").concat(p.as_str()).concat(
                " is in use by another rackctl process",
            ),
            Error::Sysex(m) => String::from_str("sysex error: ").concat(m.as_str()),
            Error::Transport(m) => String::from_str("transport error: ").concat(m.as_str()),
            Error::Timeout => String::from_str("timed out waiting for a device reply"),
            Error::Tfx(m) => String::from_str("tfx error: ").concat(m.as_str()),
        }
    }
}

} // verus!
