//! Error taxonomy of the library.
//!
//! Driver faults carry the plain values the core actually inspects (an AT
//! `CME` error code, or a vendor function result together with its error
//! number); everything else is a named kind of its own.

use vstd::prelude::*;

verus! {

/// A fault reported by the native modem driver, reduced to the plain values
/// the core reads: either an AT `+CME` error code, or a vendor return code
/// paired with the driver's last error number.
#[derive(Debug, Clone, Copy, PartialEq, Eq, Structural)]
pub enum DriverError {
    /// The modem answered a command with `+CME ERROR: <code>`.
    AtCmeError(u32),
    /// A native call failed: (return code, vendor error number).
    Nordic(i32, i32),
}

#[derive(Debug, Clone, PartialEq, Eq)]
pub enum Error {
    /// A fault surfaced by the native modem driver.
    NrfModem(DriverError),
    /// A vendor error number from the resolver boundary.
    NrfSys(i32),
    AddressNotFound,
    HostnameTooLong,
    HostnameNotAscii,
    SocketAlreadyOpen,
    SocketClosed,
    /// A command response could not be parsed.
    AtParsing,
    /// A command round trip produced no response line at all.
    NoAtResponse,
    /// A response arrived but had an unexpected shape or value.
    UnexpectedAtResponse,
    /// The requested system mode is not a legal combination.
    InvalidConfiguration,
    /// The modem refused the mode change because a subsystem is active.
    NotAllowedInActiveState,
    /// The modem refused the mode change because of the band configuration.
    InvalidBandConfiguration,
    /// The network denied registration; do not retry blindly.
    LteRegistrationDenied,
    /// The SIM reported a failure.
    SimFailure,
    /// A buffer was too small. The number indicates how big the buffer has
    /// to be (if that can be determined).
    BufferTooSmall(Option<usize>),
}

impl From<DriverError> for Error {
    fn from(e: DriverError) -> (r: Self) {
        Error::NrfModem(e)
    }
}

impl vstd::std_specs::convert::FromSpecImpl<DriverError> for Error {
    open spec fn obeys_from_spec() -> bool {
        true
    }

    open spec fn from_spec(e: DriverError) -> Self {
        Error::NrfModem(e)
    }
}

/// Outcome of a non-blocking operation: either a hard error, or
/// `WouldBlock`, the "try again later" signal the caller answers by
/// re-invoking the operation.
#[derive(Debug, Clone, PartialEq, Eq)]
pub enum NbError {
    /// Not ready yet; re-invoke the operation later. Never a failure.
    WouldBlock,
    Other(Error),
}

/// Wraps a hard error into the non-blocking error shape.
pub fn to_nb_result<T>(r: Result<T, Error>) -> (res: Result<T, NbError>)
    ensures
        match r {
            Ok(v) => res == Ok::<T, NbError>(v),
            Err(e) => res == Err::<T, NbError>(NbError::Other(e)),
        },
{
    match r {
        Ok(v) => Ok(v),
        Err(e) => Err(NbError::Other(e)),
    }
}

} // verus!
