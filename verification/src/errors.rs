use vstd::prelude::*;

verus! {

/// The failure vocabulary of the transport abstraction.
///
/// Resource-acquisition failures (binding, connecting, accepting) and
/// data-path failures (reading, writing) both draw from this one set of
/// kinds; the typed errors below say which operation failed.
#[derive(Clone, Copy, PartialEq, Eq, Structural, Debug)]
pub enum ErrorKind {
    /// The requested local address is already bound.
    AddrInUse,
    /// The caller lacks permission for the requested resource.
    PermissionDenied,
    /// The endpoint descriptor is malformed or not usable.
    InvalidAddress,
    /// The endpoint descriptor could not be resolved to an address.
    ResolutionFailed,
    /// The peer actively refused the connection.
    ConnectionRefused,
    /// No route to the peer.
    Unreachable,
    /// The operation did not complete in time.
    TimedOut,
    /// The peer reset the established connection.
    ConnectionReset,
    /// The connection was aborted locally.
    ConnectionAborted,
    /// The peer closed the stream before the requested bytes arrived.
    UnexpectedEof,
    /// The transport accepted none of the bytes offered to it.
    WriteZero,
    /// Any other transport failure.
    Other,
}

/// The fixed description of each failure kind.
pub open spec fn describe_spec(k: ErrorKind) -> Seq<char> {
    match k {
        ErrorKind::AddrInUse => "address in use"@,
        ErrorKind::PermissionDenied => "permission denied"@,
        ErrorKind::InvalidAddress => "invalid address"@,
        ErrorKind::ResolutionFailed => "resolution failed"@,
        ErrorKind::ConnectionRefused => "connection refused"@,
        ErrorKind::Unreachable => "unreachable"@,
        ErrorKind::TimedOut => "timed out"@,
        ErrorKind::ConnectionReset => "connection reset"@,
        ErrorKind::ConnectionAborted => "connection aborted"@,
        ErrorKind::UnexpectedEof => "unexpected end of stream"@,
        ErrorKind::WriteZero => "transport accepted no bytes"@,
        ErrorKind::Other => "transport failure"@,
    }
}

impl ErrorKind {
    /// A short description of this kind, for callers' logs.
    pub fn describe(&self) -> (r: String)
        ensures
            r@ == describe_spec(*self),
    {
        match self {
            ErrorKind::AddrInUse => "address in use".to_owned(),
            ErrorKind::PermissionDenied => "permission denied".to_owned(),
            ErrorKind::InvalidAddress => "invalid address".to_owned(),
            ErrorKind::ResolutionFailed => "resolution failed".to_owned(),
            ErrorKind::ConnectionRefused => "connection refused".to_owned(),
            ErrorKind::Unreachable => "unreachable".to_owned(),
            ErrorKind::TimedOut => "timed out".to_owned(),
            ErrorKind::ConnectionReset => "connection reset".to_owned(),
            ErrorKind::ConnectionAborted => "connection aborted".to_owned(),
            ErrorKind::UnexpectedEof => "unexpected end of stream".to_owned(),
            ErrorKind::WriteZero => "transport accepted no bytes".to_owned(),
            ErrorKind::Other => "transport failure".to_owned(),
        }
    }
}

/// A failure of `bind`: the listening resource could not be acquired.
#[derive(Clone, Copy, PartialEq, Eq, Structural, Debug)]
pub struct BindError {
    pub kind: ErrorKind,
    /// The underlying operating-system error code, when one exists.
    pub os_code: Option<i32>,
}

impl BindError {
    pub fn new(kind: ErrorKind, os_code: Option<i32>) -> (r: Self)
        ensures
            r.kind == kind,
            r.os_code == os_code,
    {
        BindError { kind, os_code }
    }

    /// The address-in-use class of bind failures.
    pub fn is_addr_in_use(&self) -> (r: bool)
        ensures
            r <==> self.kind == ErrorKind::AddrInUse,
    {
        self.kind == ErrorKind::AddrInUse
    }
}

/// A failure of `connect`: no connection was established.
#[derive(Clone, Copy, PartialEq, Eq, Structural, Debug)]
pub struct ConnectError {
    pub kind: ErrorKind,
    /// The underlying operating-system error code, when one exists.
    pub os_code: Option<i32>,
}

impl ConnectError {
    pub fn new(kind: ErrorKind, os_code: Option<i32>) -> (r: Self)
        ensures
            r.kind == kind,
            r.os_code == os_code,
    {
        ConnectError { kind, os_code }
    }

    /// The connection-refused class of connect failures.
    pub fn is_refused(&self) -> (r: bool)
        ensures
            r <==> self.kind == ErrorKind::ConnectionRefused,
    {
        self.kind == ErrorKind::ConnectionRefused
    }
}

/// A failure of `accept`: no inbound connection was delivered. The listener
/// itself stays usable; whether to keep accepting is the caller's decision.
#[derive(Clone, Copy, PartialEq, Eq, Structural, Debug)]
pub struct AcceptError {
    pub kind: ErrorKind,
    /// The underlying operating-system error code, when one exists.
    pub os_code: Option<i32>,
}

impl AcceptError {
    pub fn new(kind: ErrorKind, os_code: Option<i32>) -> (r: Self)
        ensures
            r.kind == kind,
            r.os_code == os_code,
    {
        AcceptError { kind, os_code }
    }
}

/// A failure of `read_exact`: the buffer was not completely filled.
#[derive(Clone, Copy, PartialEq, Eq, Structural, Debug)]
pub struct ReadError {
    pub kind: ErrorKind,
    /// The underlying operating-system error code, when one exists.
    pub os_code: Option<i32>,
}

impl ReadError {
    pub fn new(kind: ErrorKind, os_code: Option<i32>) -> (r: Self)
        ensures
            r.kind == kind,
            r.os_code == os_code,
    {
        ReadError { kind, os_code }
    }

    /// The failure of an exact read against a peer that closed too early.
    /// No operating-system code accompanies it: the close itself is the
    /// whole story.
    pub fn unexpected_eof() -> (r: Self)
        ensures
            r.kind == ErrorKind::UnexpectedEof,
            r.os_code == None::<i32>,
    {
        ReadError { kind: ErrorKind::UnexpectedEof, os_code: None }
    }

    /// The end-of-stream class of read failures.
    pub fn is_unexpected_eof(&self) -> (r: bool)
        ensures
            r <==> self.kind == ErrorKind::UnexpectedEof,
    {
        self.kind == ErrorKind::UnexpectedEof
    }
}

/// A failure of `write_all`: not every byte was handed to the transport.
#[derive(Clone, Copy, PartialEq, Eq, Structural, Debug)]
pub struct WriteError {
    pub kind: ErrorKind,
    /// The underlying operating-system error code, when one exists.
    pub os_code: Option<i32>,
}

impl WriteError {
    pub fn new(kind: ErrorKind, os_code: Option<i32>) -> (r: Self)
        ensures
            r.kind == kind,
            r.os_code == os_code,
    {
        WriteError { kind, os_code }
    }

    /// The class of write failures where the transport stopped accepting
    /// bytes altogether.
    pub fn is_write_zero(&self) -> (r: bool)
        ensures
            r <==> self.kind == ErrorKind::WriteZero,
    {
        self.kind == ErrorKind::WriteZero
    }
}

} // verus!
