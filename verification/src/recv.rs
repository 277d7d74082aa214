//! What a completed `recvmsg` on an SCTP socket delivered.
use vstd::prelude::*;
use crate::cmsg::{find_sndrcv, sndrcv_of, Abi};
use crate::notification::{decode_paddr_change, is_notification, reports_paddr_change, MSG_NOTIFICATION};
use crate::steps::NOTIFICATION_HANDLED;
use crate::structs::{is_paddr_change_of, IPaddrChange, SndRcvInfo};

verus! {

/// A received message, classified.
#[derive(Debug)]
pub enum Received {
    /// A notification; the peer address change it reports, if it is one.
    Notification(Option<IPaddrChange>),
    /// User data; the `sctp_sndrcvinfo` that came with it, if any.
    Message(Option<SndRcvInfo>),
}

/// Classifies what `recvmsg` delivered, from its `msg_flags`, the data
/// buffer, and the control buffer of which it filled the first `filled` bytes.
pub fn classify_received(abi: Abi, msg_flags: i32, data: &[u8], control: &[u8], filled: usize) -> (r: Received)
    requires
        filled <= control@.len(),
    ensures
        (msg_flags & MSG_NOTIFICATION == MSG_NOTIFICATION) <==> r is Notification,
        r matches Received::Notification(c) ==> (c is Some <==> reports_paddr_change(
            abi.order,
            data@,
        )),
        r matches Received::Notification(Some(c)) ==> is_paddr_change_of(abi.order, c, data@),
        r matches Received::Message(info) ==> info == sndrcv_of(abi, control@, filled as int),
{
    if is_notification(msg_flags) {
        Received::Notification(decode_paddr_change(abi.order, data))
    } else {
        Received::Message(find_sndrcv(abi, control, filled))
    }
}

/// What `recvmsg_detailed_i` reports once a read of `n` bytes was classified:
/// the length to return, and the `sctp_sndrcvinfo` to store in the caller's
/// `info`, if any. A notification returns the handled-notification length
/// and stores nothing; a message returns `n` and stores the info it came with.
pub fn detailed_outcome(n: usize, received: &Received) -> (r: (usize, Option<SndRcvInfo>))
    ensures
        received is Notification ==> r == (NOTIFICATION_HANDLED, None::<SndRcvInfo>),
        *received matches Received::Message(info) ==> r == (n, info),
{
    match received {
        Received::Notification(_) => (NOTIFICATION_HANDLED, None),
        Received::Message(info) => (n, *info),
    }
}

} // verus!
