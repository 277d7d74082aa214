//! SCTP notifications: how they are recognised among received messages and
//! what the library reports of them.
use vstd::prelude::*;
use crate::structs::{
    is_paddr_change_of, notification_header_of, IPaddrChange, NotificationHeader, PADDR_CHANGE_LEN,
};
use crate::sockaddr::{holds_ip_address, is_sockaddr_of, sockaddr_from_bytes};
use crate::wire::{u16_at, u32_at, ByteOrder};
pub use crate::sockaddr::SockAddr;

verus! {

/// `MSG_NOTIFICATION`: the `msg_flags` bit that marks a notification.
pub const MSG_NOTIFICATION: i32 = 0x8000;

/// `SCTP_PEER_ADDR_CHANGE`: the notification type of `struct sctp_paddr_change`.
pub const SCTP_PEER_ADDR_CHANGE: u16 = 0x8002;

/// A peer address that changed state, with the state and the error the kernel gave.
#[derive(Debug)]
pub struct NotificationAddress {
    pub addr: SockAddr,
    pub state: u32,
    pub error: u32,
}

/// What the library tells a subscriber.
#[derive(Debug)]
pub enum Notification {
    Address(NotificationAddress),
    Shutdown(),
}

/// Whether a message received with these `msg_flags` is a notification.
pub fn is_notification(msg_flags: i32) -> (r: bool)
    ensures
        r == (msg_flags & MSG_NOTIFICATION == MSG_NOTIFICATION),
{
    msg_flags & MSG_NOTIFICATION == MSG_NOTIFICATION
}

/// Whether the notification bytes `s` report a peer address change that
/// lies whole within them.
pub open spec fn reports_paddr_change(order: ByteOrder, s: Seq<u8>) -> bool {
    &&& s.len() >= PADDR_CHANGE_LEN
    &&& u16_at(order, s, 0) == SCTP_PEER_ADDR_CHANGE
}

/// Reads the peer address change that a received notification reports; `None`
/// for a notification of another type, or one cut short.
pub fn decode_paddr_change(order: ByteOrder, data: &[u8]) -> (r: Option<IPaddrChange>)
    ensures
        r is Some <==> reports_paddr_change(order, data@),
        r matches Some(c) ==> is_paddr_change_of(order, c, data@),
{
    match NotificationHeader::read(order, data) {
        None => None,
        Some(header) => {
            if header.sn_type == SCTP_PEER_ADDR_CHANGE && data.len() >= PADDR_CHANGE_LEN {
                Some(IPaddrChange::read(order, data))
            } else {
                None
            }
        },
    }
}

impl NotificationAddress {
    /// The report of a peer address change whose address reads as `addr`.
    pub fn from_change(change: &IPaddrChange, addr: SockAddr) -> (r: NotificationAddress)
        ensures
            r.addr == addr,
            r.state == change.spc_state,
            r.error == change.spc_error,
    {
        NotificationAddress { addr, state: change.spc_state, error: change.spc_error }
    }
}

/// What a subscriber is told of a peer address change: the address that the
/// change's address bytes hold, with its state and error; `None` when those
/// bytes hold no IPv4 or IPv6 address.
pub fn address_notification(order: ByteOrder, change: &IPaddrChange) -> (r: Option<Notification>)
    ensures
        r is Some <==> holds_ip_address(order, change.spc_addr@),
        r matches Some(n) ==> n is Address,
        r matches Some(Notification::Address(a)) ==> {
            &&& is_sockaddr_of(order, a.addr, change.spc_addr@)
            &&& a.state == change.spc_state
            &&& a.error == change.spc_error
        },
{
    match sockaddr_from_bytes(order, &change.spc_addr) {
        Some(addr) => Some(Notification::Address(NotificationAddress::from_change(change, addr))),
        None => None,
    }
}

/// Every peer address change that arrives whole is reported, whatever its
/// state and error: notification bytes report one exactly when they are at
/// least as long as a `sctp_paddr_change` and the header's type is
/// SCTP_PEER_ADDR_CHANGE; and the change read from them carries the state
/// and error found at their offsets.
pub proof fn lemma_paddr_change_always_reported(order: ByteOrder, s: Seq<u8>, c: IPaddrChange)
    ensures
        reports_paddr_change(order, s) <==> (s.len() >= PADDR_CHANGE_LEN
            && notification_header_of(order, s).sn_type == SCTP_PEER_ADDR_CHANGE),
        is_paddr_change_of(order, c, s) ==> c.spc_state == u32_at(order, s, 136) && c.spc_error
            == u32_at(order, s, 140),
{
}

} // verus!
