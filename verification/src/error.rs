//! The errors of a session, and what the engine knows about their causes.

use vstd::prelude::*;

verus! {

/// `std::io::Error`, carried through the engine as an opaque value.
#[verifier::external_type_specification]
#[verifier::external_body]
pub struct ExIoError(std::io::Error);

/// `nix::errno::Errno`, carried through the engine as an opaque value.
#[verifier::external_type_specification]
#[verifier::external_body]
pub struct ExErrno(nix::errno::Errno);

/// The kinds of I/O error that the engine tells apart.
#[derive(Clone, Copy, Debug, PartialEq, Eq, Structural)]
pub enum IoKind {
    /// The operation was interrupted and can be tried again.
    Interrupted,
    /// The operation was asked for something that cannot be done.
    InvalidInput,
    /// Any other kind.
    Other,
}

/// What `std::io::Error::kind` reports for an error, reduced to [`IoKind`].
pub uninterp spec fn io_kind(error: std::io::Error) -> IoKind;

/// Calls `std::io::Error::kind`; the contract names the result, folded onto
/// the three kinds the engine distinguishes.
#[verifier::external_body]
pub(crate) fn kind_of(error: &std::io::Error) -> (kind: IoKind)
    ensures
        kind == io_kind(*error),
{
    match error.kind() {
        std::io::ErrorKind::Interrupted => IoKind::Interrupted,
        std::io::ErrorKind::InvalidInput => IoKind::InvalidInput,
        _ => IoKind::Other,
    }
}

/// Calls `std::io::Error::from` on `ErrorKind::InvalidInput`; the contract
/// claims that the error made reports that kind.
#[verifier::external_body]
pub(crate) fn invalid_input() -> (error: std::io::Error)
    ensures
        io_kind(error) == IoKind::InvalidInput,
{
    std::io::Error::from(std::io::ErrorKind::InvalidInput)
}

/// Errors associated with a session.
#[derive(Debug)]
pub enum GhciError {
    /// The evaluation timed out.
    ///
    /// The session is not in a good state afterwards and has to be closed.
    Timeout,
    /// I/O error from the child process or one of its pipes.
    IOError(std::io::Error),
    /// The readiness wait on the child's output and error streams failed.
    PollError(nix::errno::Errno),
}

impl From<std::io::Error> for GhciError {
    fn from(error: std::io::Error) -> (converted: GhciError) {
        GhciError::IOError(error)
    }
}

impl vstd::std_specs::convert::FromSpecImpl<std::io::Error> for GhciError {
    open spec fn obeys_from_spec() -> bool {
        true
    }

    open spec fn from_spec(error: std::io::Error) -> GhciError {
        GhciError::IOError(error)
    }
}

impl From<nix::errno::Errno> for GhciError {
    fn from(errno: nix::errno::Errno) -> (converted: GhciError) {
        GhciError::PollError(errno)
    }
}

impl vstd::std_specs::convert::FromSpecImpl<nix::errno::Errno> for GhciError {
    open spec fn obeys_from_spec() -> bool {
        true
    }

    open spec fn from_spec(errno: nix::errno::Errno) -> GhciError {
        GhciError::PollError(errno)
    }
}

} // verus!
