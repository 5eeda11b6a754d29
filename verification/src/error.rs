//! Errors of the packet engine.
use vstd::prelude::*;

verus! {

/// The kinds of operating system error that the engine tells apart.
#[derive(Clone, Copy, Debug, PartialEq, Eq, Structural)]
pub enum OsErrorKind {
    /// The operation would have to wait.
    WouldBlock,
    /// The time for the operation ran out.
    TimedOut,
    /// Anything else.
    Other,
}

/// An operating system error, as plain values.
#[derive(Debug)]
pub struct OsError {
    /// The kind of error.
    pub kind: OsErrorKind,
    /// The system's description of the error.
    pub message: String,
}

/// What can go wrong in the packet engine.
#[derive(Debug)]
pub enum PacketError {
    /// The ring buffer configuration is not valid.
    InvalidConfig(String),
    /// The operation is not available on this platform.
    NotSupported(String),
    /// A packet filter could not be attached or detached.
    BpfFilter(String),
    /// The packet socket could not be created or used.
    SocketCreation(OsError),
    /// A socket option could not be set.
    SocketOption { option: String, source: OsError },
    /// The interface name cannot be an interface name.
    InvalidInterfaceName(String),
    /// There is no interface of this name.
    InterfaceNotFound(String),
    /// The hardware address of the interface could not be read.
    MacAddressFailed { interface: String, source: OsError },
    /// The socket could not be bound to the interface.
    BindFailed { interface: String, source: OsError },
    /// The engine has been started before.
    AlreadyStarted,
    /// The engine has not been started.
    NotStarted,
    /// The file descriptor could not be duplicated.
    FdDupFailed(OsError),
    /// The asynchronous file descriptor could not be made.
    AsyncFdCreate(OsError),
}

/// What can go wrong in a scan.
#[derive(Debug)]
pub enum CoreError {
    /// The configuration asks for something that cannot be done.
    Config(String),
    /// The services behind a port could not be detected.
    ServiceDetection(String),
    /// The operating system of a host could not be detected.
    OsDetection(String),
    /// The way to a host could not be traced.
    Traceroute(String),
}

} // verus!
