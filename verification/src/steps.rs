//! The decisions that the socket's calls take between system calls: whether
//! a call succeeded, whether to wait and try again, and when a connection is
//! given up.
use vstd::prelude::*;

verus! {

/// How a system call ended: done, or failed with the raw OS error code when
/// the error has one.
#[derive(Clone, Copy, Debug, PartialEq, Eq)]
pub enum CallOutcome {
    Done,
    Failed(Option<i32>),
}

/// The error codes of the platform that the decisions depend on
/// (`EWOULDBLOCK` and `EINPROGRESS`).
#[derive(Clone, Copy, Debug, PartialEq, Eq)]
pub struct ErrorCodes {
    pub would_block: i32,
    pub in_progress: i32,
}

/// What to do once a call came back.
#[derive(Clone, Copy, Debug, PartialEq, Eq)]
pub enum Next {
    /// Hand the outcome to the caller.
    Finish,
    /// Wait until the socket is ready, then make the call again.
    Retry,
}

/// What to do once a send came back.
#[derive(Clone, Copy, Debug, PartialEq, Eq)]
pub enum SendNext {
    /// Hand the outcome to the caller.
    Finish,
    /// Wait until the socket is writable, then send again.
    Retry,
    /// Mark the connection failed, shut it down both ways, and hand the
    /// error to the caller.
    GiveUp,
}

/// What a receive does before it reads.
#[derive(Clone, Copy, Debug, PartialEq, Eq)]
pub enum RecvGate {
    /// Report end of stream (zero bytes) without reading.
    EndOfStream,
    /// Read from the socket.
    Receive,
}

/// What a non-blocking connect does once the connect call came back.
#[derive(Clone, Copy, Debug, PartialEq, Eq)]
pub enum ConnectNext {
    /// Wait until the socket is writable, then read the connect's result.
    AwaitResult,
    /// Hand the error to the caller.
    Fail,
}

/// The result of a non-blocking connect, from `SO_ERROR`.
#[derive(Clone, Copy, Debug, PartialEq, Eq)]
pub enum ConnectResult {
    Connected,
    /// Reading `SO_ERROR` failed: the error is the thread's last OS error.
    LastOsError,
    /// The connect failed with this OS error code.
    OsError(i32),
}

/// The length that `recvmsg_detailed_i` reports for a notification it handled.
pub const NOTIFICATION_HANDLED: usize = 0x9999_9999;

/// Whether an outcome is "the call would block".
pub open spec fn would_block(outcome: CallOutcome, codes: ErrorCodes) -> bool {
    outcome == CallOutcome::Failed(Some(codes.would_block))
}

/// The failure flag after a send and what the send does next.
pub open spec fn send_transition(failed: bool, outcome: CallOutcome, codes: ErrorCodes) -> (
    bool,
    SendNext,
) {
    match outcome {
        CallOutcome::Done => (failed, SendNext::Finish),
        CallOutcome::Failed(_) => if would_block(outcome, codes) {
            (failed, SendNext::Retry)
        } else {
            (true, SendNext::GiveUp)
        },
    }
}

/// What a receive does on a connection with this failure flag.
pub open spec fn recv_gate_of(failed: bool) -> RecvGate {
    if failed {
        RecvGate::EndOfStream
    } else {
        RecvGate::Receive
    }
}

/// A send came back: the new failure flag and what to do next.
pub fn after_send(failed: bool, outcome: CallOutcome, codes: ErrorCodes) -> (r: (bool, SendNext))
    ensures
        r == send_transition(failed, outcome, codes),
{
    match outcome {
        CallOutcome::Done => (failed, SendNext::Finish),
        CallOutcome::Failed(code) => {
            let blocked: bool = match code {
                Some(c) => c == codes.would_block,
                None => false,
            };
            if blocked {
                (failed, SendNext::Retry)
            } else {
                (true, SendNext::GiveUp)
            }
        },
    }
}

/// Before a receive reads: a failed connection reports end of stream.
pub fn recv_gate(failed: bool) -> (r: RecvGate)
    ensures
        r == recv_gate_of(failed),
{
    if failed {
        RecvGate::EndOfStream
    } else {
        RecvGate::Receive
    }
}

/// A receive or an accept came back: retry exactly when it would have blocked.
pub fn after_wait_call(outcome: CallOutcome, codes: ErrorCodes) -> (r: Next)
    ensures
        r == (if would_block(outcome, codes) {
            Next::Retry
        } else {
            Next::Finish
        }),
{
    match outcome {
        CallOutcome::Failed(Some(c)) => {
            if c == codes.would_block {
                Next::Retry
            } else {
                Next::Finish
            }
        },
        _ => Next::Finish,
    }
}

/// A non-blocking connect call came back: it goes on when it succeeded or
/// is in progress, and fails otherwise.
pub fn after_connect_call(outcome: CallOutcome, codes: ErrorCodes) -> (r: ConnectNext)
    ensures
        r == (if outcome == CallOutcome::Done || outcome == CallOutcome::Failed(
            Some(codes.in_progress),
        ) {
            ConnectNext::AwaitResult
        } else {
            ConnectNext::Fail
        }),
{
    match outcome {
        CallOutcome::Done => ConnectNext::AwaitResult,
        CallOutcome::Failed(Some(c)) => {
            if c == codes.in_progress {
                ConnectNext::AwaitResult
            } else {
                ConnectNext::Fail
            }
        },
        CallOutcome::Failed(None) => ConnectNext::Fail,
    }
}

/// The result of a non-blocking connect from the return value of the
/// `getsockopt(SO_ERROR)` call and the error it read.
pub fn connect_result(getsockopt_result: i32, so_error: i32) -> (r: ConnectResult)
    ensures
        getsockopt_result != 0 ==> r == ConnectResult::LastOsError,
        getsockopt_result == 0 && so_error != 0 ==> r == ConnectResult::OsError(so_error),
        getsockopt_result == 0 && so_error == 0 ==> r == ConnectResult::Connected,
{
    if getsockopt_result != 0 {
        ConnectResult::LastOsError
    } else if so_error != 0 {
        ConnectResult::OsError(so_error)
    } else {
        ConnectResult::Connected
    }
}

/// `recvmsg_detailed` reads again exactly when the read handled a notification.
pub fn after_detailed_read(received: Option<usize>) -> (r: Next)
    ensures
        r == (if received == Some(NOTIFICATION_HANDLED) {
            Next::Retry
        } else {
            Next::Finish
        }),
{
    match received {
        Some(n) => {
            if n == NOTIFICATION_HANDLED {
                Next::Retry
            } else {
                Next::Finish
            }
        },
        None => Next::Finish,
    }
}

/// The length a send reports from the value `sendmsg` returned: the whole
/// message on success, `None` for a failure.
pub fn sent_len(ret: isize, data_len: usize) -> (r: Option<usize>)
    ensures
        r == (if ret < 0 {
            None
        } else {
            Some(data_len)
        }),
{
    if ret < 0 {
        None
    } else {
        Some(data_len)
    }
}

/// The length a receive reports from the value `recvmsg` or `read` returned;
/// `None` for a failure.
pub fn received_len(ret: isize) -> (r: Option<usize>)
    ensures
        r == (if ret < 0 {
            None
        } else {
            Some(ret as usize)
        }),
{
    if ret < 0 {
        None
    } else {
        Some(ret as usize)
    }
}

/// A failed connection stays failed: no send clears the flag, a send that
/// fails other than by blocking sets it, and from then on every receive
/// reports end of stream without reading.
pub proof fn lemma_failure_is_sticky(failed: bool, outcome: CallOutcome, codes: ErrorCodes)
    ensures
        failed ==> send_transition(failed, outcome, codes).0,
        outcome is Failed && !would_block(outcome, codes) ==> send_transition(
            failed,
            outcome,
            codes,
        ).0 && recv_gate_of(send_transition(failed, outcome, codes).0) == RecvGate::EndOfStream,
        failed ==> recv_gate_of(send_transition(failed, outcome, codes).0)
            == RecvGate::EndOfStream,
{
}

} // verus!
