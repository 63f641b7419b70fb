//! The decisions of VSOCK I/O: which outcomes of a non-blocking call are
//! retried and which are final, and the steps of opening a connection.

use vstd::prelude::*;

verus! {

/// How an I/O call failed, as far as the retry decisions read it.
#[derive(Debug, Clone, Copy, PartialEq, Eq, Structural)]
pub enum FailureKind {
    Interrupted,
    WouldBlock,
    Other,
}

/// A failed I/O call: the error itself, carried through, and its kind.
pub struct IoFailure<E> {
    pub kind: FailureKind,
    pub error: E,
}

/// True for the failures after which the call is simply tried again.
pub open spec fn is_transient(kind: FailureKind) -> bool {
    kind is Interrupted || kind is WouldBlock
}

/// Exactly the interrupted and the blocked failures are transient.
pub proof fn lemma_transient_kinds(kind: FailureKind)
    ensures
        is_transient(kind) <==> (kind == FailureKind::Interrupted || kind == FailureKind::WouldBlock),
        !is_transient(FailureKind::Other),
{
}

/// Whether a non-blocking read or write is ready: an interrupted call or one
/// that would block gives `None` (try again); any other outcome is ready as it is.
pub fn try_poll_write<E>(amount: Result<usize, IoFailure<E>>) -> (poll: Option<Result<usize, IoFailure<E>>>)
    ensures
        match amount {
            Err(failure) => if is_transient(failure.kind) {
                poll is None
            } else {
                poll == Some(amount)
            },
            Ok(_) => poll == Some(amount),
        },
        poll is None <==> (amount matches Err(failure) && (failure.kind == FailureKind::Interrupted
            || failure.kind == FailureKind::WouldBlock)),
        poll is Some ==> poll == Some(amount),
{
    match amount {
        Err(failure) => match failure.kind {
            FailureKind::Interrupted | FailureKind::WouldBlock => None,
            FailureKind::Other => Some(Err(failure)),
        },
        Ok(n) => Some(Ok(n)),
    }
}

/// The state of a connection that is being opened.
#[derive(Debug, PartialEq, Eq)]
pub enum ConnectProgress<E> {
    /// The connection is established.
    Connected,
    /// The check could not run yet; wait and check again.
    Retry,
    /// The connection failed with this error.
    Failed(E),
}

/// The progress of a connection from one check of its socket error, where an
/// interrupted or blocked check is retried (the `async-io` backend).
pub fn async_io_connection_step<E>(check: Result<(), IoFailure<E>>) -> (progress: ConnectProgress<E>)
    ensures
        progress == (match check {
            Ok(_) => ConnectProgress::Connected,
            Err(failure) => if is_transient(failure.kind) {
                ConnectProgress::Retry
            } else {
                ConnectProgress::Failed(failure.error)
            },
        }),
{
    match check {
        Ok(_) => ConnectProgress::Connected,
        Err(failure) => match failure.kind {
            FailureKind::Interrupted | FailureKind::WouldBlock => ConnectProgress::Retry,
            FailureKind::Other => ConnectProgress::Failed(failure.error),
        },
    }
}

/// The progress of a connection from one check of its socket error, where the
/// check is `None` when the socket was not ready for it (the Tokio backend);
/// an error of a check that ran is final.
pub fn tokio_connection_step<E>(check: Option<Result<(), E>>) -> (progress: ConnectProgress<E>)
    ensures
        progress == (match check {
            None => ConnectProgress::Retry,
            Some(Ok(_)) => ConnectProgress::Connected,
            Some(Err(error)) => ConnectProgress::Failed(error),
        }),
{
    match check {
        None => ConnectProgress::Retry,
        Some(Ok(_)) => ConnectProgress::Connected,
        Some(Err(error)) => ConnectProgress::Failed(error),
    }
}

/// What the socket error check of a connecting socket found.
#[derive(Debug, Clone, Copy, PartialEq, Eq, Structural)]
pub enum SocketStatus {
    /// The socket is connected.
    Connected,
    /// Reading the socket error failed: the error is the last OS error.
    CheckFailed,
    /// The socket holds this OS error.
    Error(i32),
}

/// Reads the result of `getsockopt(SO_ERROR)`: a negative return is a failed
/// check, a non-zero socket error is that error, and otherwise the socket is connected.
pub fn check_connection_status(getsockopt_result: i32, socket_error: i32) -> (status: SocketStatus)
    ensures
        status == (if getsockopt_result < 0 {
            SocketStatus::CheckFailed
        } else if socket_error != 0 {
            SocketStatus::Error(socket_error)
        } else {
            SocketStatus::Connected
        }),
{
    if getsockopt_result < 0 {
        SocketStatus::CheckFailed
    } else if socket_error != 0 {
        SocketStatus::Error(socket_error)
    } else {
        SocketStatus::Connected
    }
}

/// What the last system call of opening a VSOCK socket returned.
#[derive(Debug, Clone, Copy, PartialEq, Eq, Structural)]
pub enum RawConnectEvent {
    /// `socket` returned this descriptor (negative on failure).
    SocketOpened(i32),
    /// `fcntl` on the socket, to make it non-blocking, returned this value.
    FlagsSet { socket: i32, result: i32 },
    /// `connect` on the socket returned this value, with the OS error code
    /// after a failure.
    ConnectCalled { socket: i32, result: i32, os_error: i32 },
}

/// What to do next while opening a VSOCK socket.
#[derive(Debug, Clone, Copy, PartialEq, Eq, Structural)]
pub enum RawConnectAction {
    /// Make the socket non-blocking and close-on-exec.
    SetFlags(i32),
    /// Connect the socket to the address.
    Connect(i32),
    /// The socket is connected, or connecting in the background.
    Done(i32),
    /// Close the socket and fail with the last OS error.
    CloseAndFail(i32),
    /// Fail with the last OS error.
    Fail,
}

/// The next step of opening a VSOCK socket, from the result of the last call:
/// a failed `socket` fails, a failed `fcntl` closes and fails, and a `connect`
/// that succeeded or is in progress (`in_progress` is `EINPROGRESS`) is done.
pub fn raw_connect_step(event: RawConnectEvent, in_progress: i32) -> (action: RawConnectAction)
    ensures
        action == (match event {
            RawConnectEvent::SocketOpened(fd) => if fd < 0 {
                RawConnectAction::Fail
            } else {
                RawConnectAction::SetFlags(fd)
            },
            RawConnectEvent::FlagsSet { socket, result } => if result < 0 {
                RawConnectAction::CloseAndFail(socket)
            } else {
                RawConnectAction::Connect(socket)
            },
            RawConnectEvent::ConnectCalled { socket, result, os_error } => if result >= 0
                || os_error == in_progress {
                RawConnectAction::Done(socket)
            } else {
                RawConnectAction::CloseAndFail(socket)
            },
        }),
{
    match event {
        RawConnectEvent::SocketOpened(fd) => if fd < 0 {
            RawConnectAction::Fail
        } else {
            RawConnectAction::SetFlags(fd)
        },
        RawConnectEvent::FlagsSet { socket, result } => if result < 0 {
            RawConnectAction::CloseAndFail(socket)
        } else {
            RawConnectAction::Connect(socket)
        },
        RawConnectEvent::ConnectCalled { socket, result, os_error } => if result >= 0 || os_error
            == in_progress {
            RawConnectAction::Done(socket)
        } else {
            RawConnectAction::CloseAndFail(socket)
        },
    }
}

} // verus!
