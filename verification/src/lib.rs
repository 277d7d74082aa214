//! The logic of an SCTP socket library for the Linux kernel SCTP module:
//! what its socket calls exchange with the kernel and what they decide.
//!
//! - `wire`: fixed-width integers in either byte order.
//! - `structs`: the SCTP socket API structures and their C layout.
//! - `cmsg`: framing and walking the ancillary data of `sendmsg`/`recvmsg`.
//! - `notification`: recognising notifications and reading address changes.
//! - `sockaddr`: IPv4 and IPv6 socket addresses and their `struct sockaddr` bytes.
//! - `recv`: classifying what a `recvmsg` delivered.
//! - `options`: socket options and the bytes of their values.
//! - `steps`: the decisions between system calls (retry, give up, report).
//!
//! The system calls themselves are made by the caller, which hands the
//! results to these functions.
use vstd::prelude::*;

pub mod cmsg;
pub mod notification;
pub mod options;
pub mod recv;
pub mod sockaddr;
pub mod steps;
pub mod structs;
pub mod wire;

pub use notification::{Notification, NotificationAddress, SockAddr};
pub use structs::{
    IPaddrChange, Init, NotificationHeader, RcvInfo, RtoInfo, SndInfo, SndRcvInfo, Status,
};

verus! {

/// `std::io::Error`, carried through the library as an opaque value.
#[verifier::external_type_specification]
#[verifier::external_body]
pub struct ExIoError(std::io::Error);

/// Calls `std::io::Error::last_os_error`, which reads the calling thread's
/// `errno`. Nothing is stated of the value: it depends on the last failing
/// system call of the thread.
#[verifier::external_body]
fn last_os_error() -> std::io::Error {
    std::io::Error::last_os_error()
}

/// Turns the return value of a libc call into a result: `-1` is a failure
/// whose error is the thread's last OS error, any other value is success.
/// Which error comes back is not stated: it is read from `errno`.
pub fn handle_libc_error(err: i32) -> (res: std::io::Result<()>)
    ensures
        res is Ok <==> err != -1,
{
    if err == -1 {
        Err(last_os_error())
    } else {
        Ok(())
    }
}

} // verus!
