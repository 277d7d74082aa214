//! The SCTP socket API structures and their memory layout.
//!
//! Each structure is exchanged with the kernel as the bytes of its C layout
//! (`struct sctp_sndrcvinfo`, `struct sctp_sndinfo`, ...), in the byte order
//! of the machine. The functions here write and read those bytes.
use vstd::prelude::*;
use crate::wire::{
    get_i32, get_u16, get_u32, i32_at, i32_bytes, lemma_i32_roundtrip, lemma_u16_roundtrip,
    lemma_u32_roundtrip, put_i32, put_u16, put_u32, u16_at, lemma_middle_of_concat, push_uint, uint_bytes,
    uint_value, lemma_uint_bytes_len, lemma_uint_value_bound, lemma_pow256_values,
    lemma_uint_bytes_of_value, u16_bytes, u32_at, u32_bytes, ByteOrder, lemma_four_fields,
    lemma_zero_bytes,
};

verus! {

/// `struct sctp_sndrcvinfo`: ancillary data that comes with a received message.
#[derive(Debug, Clone, Copy)]
pub struct SndRcvInfo {
    pub sinfo_stream: u16,
    pub sinfo_ssn: u16,
    pub sinfo_flags: u16,
    pub sinfo_ppid: u32,
    pub sinfo_context: u32,
    pub sinfo_timetolive: u32,
    pub sinfo_tsn: u32,
    pub sinfo_cumtsn: u32,
    pub sinfo_assoc_id: i32,
}

/// `struct sctp_sndinfo`: ancillary data that goes with a sent message.
#[derive(Debug)]
pub struct SndInfo {
    pub snd_sid: u16,
    pub snd_flags: u16,
    pub snd_ppid: u32,
    pub snd_context: u32,
    pub snd_assoc_id: i32,
}

/// `struct sctp_rcvinfo`.
#[derive(Debug)]
pub struct RcvInfo {
    pub rcv_sid: u16,
    pub rcv_ssn: u16,
    pub rcv_flags: u16,
    pub rcv_ppid: u32,
    pub rcv_tsn: u32,
    pub rcv_cumtsn: u32,
    pub rcv_context: u32,
}

/// `struct sctp_rtoinfo`: retransmission timeout parameters.
#[derive(Debug)]
pub struct RtoInfo {
    pub assoc_id: u32,
    pub srto_initial: u32,
    pub srto_max: u32,
    pub srto_min: u32,
}

/// `struct sctp_initmsg`: parameters of association set-up.
#[derive(Debug)]
pub struct Init {
    pub sinit_num_ostreams: u16,
    pub sinit_max_instreams: u16,
    pub sinit_max_attempts: u16,
    pub sinit_max_init_timeo: u16,
}

/// `struct sctp_event_subscribe`: one flag per kind of event the socket reports.
#[derive(Debug)]
pub struct SctpEventSubscribe {
    pub sctp_data_io_event: u8,
    pub sctp_association_event: u8,
    pub sctp_address_event: u8,
    pub sctp_send_failure_event: u8,
    pub sctp_peer_error_event: u8,
    pub sctp_shutdown_event: u8,
    pub sctp_partial_delivery_event: u8,
    pub sctp_adaptation_layer_event: u8,
    pub sctp_authentication_event: u8,
    pub sctp_sender_dry_event: u8,
    pub sctp_stream_reset_event: u8,
    pub sctp_assoc_reset_event: u8,
    pub sctp_stream_change_event: u8,
    pub sctp_send_failure_event_event: u8,
}

/// `struct sctp_notification` header: the first bytes of every notification.
#[derive(Debug)]
pub struct NotificationHeader {
    pub sn_type: u16,
    pub sn_flags: u16,
    pub sn_length: u32,
}

/// `struct sctp_paddr_change`: a peer address changed state.
#[derive(Debug)]
pub struct IPaddrChange {
    pub spc_type: u16,
    pub spc_flags: u16,
    pub spc_length: u32,
    pub spc_addr: [u8; 128],
    pub spc_state: u32,
    pub spc_error: u32,
}

/// `struct sctp_status`.
#[derive(Debug)]
pub struct Status {
    pub sstat_assoc_id: u32,
    pub sstat_state: i32,
    pub sstat_rwnd: u32,
    pub sstat_unackdata: u16,
    pub sstat_penddata: u16,
    pub sstat_instrms: u16,
    pub sstat_outstrms: u16,
    pub sstat_fragmentation_point: u32,
}

/// Size in bytes of `struct sctp_sndrcvinfo`.
pub const SNDRCVINFO_LEN: usize = 32;

/// Size in bytes of `struct sctp_sndinfo`.
pub const SNDINFO_LEN: usize = 16;

/// Size in bytes of `struct sctp_event_subscribe`.
pub const EVENT_SUBSCRIBE_LEN: usize = 14;

/// Size in bytes of the header of a notification.
pub const NOTIFICATION_HEADER_LEN: usize = 8;

/// Size in bytes of `struct sctp_paddr_change` as this library reads it.
pub const PADDR_CHANGE_LEN: usize = 144;

/// Size in bytes of the address field of `struct sctp_paddr_change`.
pub const PADDR_ADDR_LEN: usize = 128;

/// The `sctp_sndrcvinfo` stored at offset `i` of `s`; a 2-byte hole of
/// alignment padding follows `sinfo_flags`.
pub open spec fn sndrcvinfo_at(order: ByteOrder, s: Seq<u8>, i: int) -> SndRcvInfo {
    SndRcvInfo {
        sinfo_stream: u16_at(order, s, i),
        sinfo_ssn: u16_at(order, s, i + 2),
        sinfo_flags: u16_at(order, s, i + 4),
        sinfo_ppid: u32_at(order, s, i + 8),
        sinfo_context: u32_at(order, s, i + 12),
        sinfo_timetolive: u32_at(order, s, i + 16),
        sinfo_tsn: u32_at(order, s, i + 20),
        sinfo_cumtsn: u32_at(order, s, i + 24),
        sinfo_assoc_id: i32_at(order, s, i + 28),
    }
}

/// The bytes of a `sctp_sndinfo`.
pub open spec fn sndinfo_bytes(order: ByteOrder, x: SndInfo) -> Seq<u8> {
    u16_bytes(order, x.snd_sid) + u16_bytes(order, x.snd_flags) + u32_bytes(order, x.snd_ppid)
        + u32_bytes(order, x.snd_context) + i32_bytes(order, x.snd_assoc_id)
}

/// The bytes of a `sctp_initmsg`.
pub open spec fn init_bytes(order: ByteOrder, x: Init) -> Seq<u8> {
    u16_bytes(order, x.sinit_num_ostreams) + u16_bytes(order, x.sinit_max_instreams) + u16_bytes(
        order,
        x.sinit_max_attempts,
    ) + u16_bytes(order, x.sinit_max_init_timeo)
}

/// The bytes of a `sctp_rtoinfo`.
pub open spec fn rtoinfo_bytes(order: ByteOrder, x: RtoInfo) -> Seq<u8> {
    u32_bytes(order, x.assoc_id) + u32_bytes(order, x.srto_initial) + u32_bytes(order, x.srto_max)
        + u32_bytes(order, x.srto_min)
}

/// The bytes of a `sctp_event_subscribe`, one per flag.
pub open spec fn event_subscribe_bytes(x: SctpEventSubscribe) -> Seq<u8> {
    seq![
        x.sctp_data_io_event,
        x.sctp_association_event,
        x.sctp_address_event,
        x.sctp_send_failure_event,
        x.sctp_peer_error_event,
        x.sctp_shutdown_event,
        x.sctp_partial_delivery_event,
        x.sctp_adaptation_layer_event,
        x.sctp_authentication_event,
        x.sctp_sender_dry_event,
        x.sctp_stream_reset_event,
        x.sctp_assoc_reset_event,
        x.sctp_stream_change_event,
        x.sctp_send_failure_event_event,
    ]
}

/// The `sctp_event_subscribe` whose flags are the first bytes of `s`.
pub open spec fn event_subscribe_of(s: Seq<u8>) -> SctpEventSubscribe {
    SctpEventSubscribe {
        sctp_data_io_event: s[0],
        sctp_association_event: s[1],
        sctp_address_event: s[2],
        sctp_send_failure_event: s[3],
        sctp_peer_error_event: s[4],
        sctp_shutdown_event: s[5],
        sctp_partial_delivery_event: s[6],
        sctp_adaptation_layer_event: s[7],
        sctp_authentication_event: s[8],
        sctp_sender_dry_event: s[9],
        sctp_stream_reset_event: s[10],
        sctp_assoc_reset_event: s[11],
        sctp_stream_change_event: s[12],
        sctp_send_failure_event_event: s[13],
    }
}

/// The notification header at the start of `s`.
pub open spec fn notification_header_of(order: ByteOrder, s: Seq<u8>) -> NotificationHeader {
    NotificationHeader {
        sn_type: u16_at(order, s, 0),
        sn_flags: u16_at(order, s, 2),
        sn_length: u32_at(order, s, 4),
    }
}

/// Whether `c` is the `sctp_paddr_change` at the start of `s`.
pub open spec fn is_paddr_change_of(order: ByteOrder, c: IPaddrChange, s: Seq<u8>) -> bool {
    &&& c.spc_type == u16_at(order, s, 0)
    &&& c.spc_flags == u16_at(order, s, 2)
    &&& c.spc_length == u32_at(order, s, 4)
    &&& c.spc_addr@ == s.subrange(8, 136)
    &&& c.spc_state == u32_at(order, s, 136)
    &&& c.spc_error == u32_at(order, s, 140)
}

impl Default for SndRcvInfo {
    fn default() -> (r: Self)
        ensures
            r.sinfo_stream == 0 && r.sinfo_ssn == 0 && r.sinfo_flags == 0,
            r.sinfo_ppid == 0 && r.sinfo_context == 0 && r.sinfo_timetolive == 0,
            r.sinfo_tsn == 0 && r.sinfo_cumtsn == 0 && r.sinfo_assoc_id == 0,
    {
        SndRcvInfo {
            sinfo_stream: 0,
            sinfo_ssn: 0,
            sinfo_flags: 0,
            sinfo_ppid: 0,
            sinfo_context: 0,
            sinfo_timetolive: 0,
            sinfo_tsn: 0,
            sinfo_cumtsn: 0,
            sinfo_assoc_id: 0,
        }
    }
}

impl SndRcvInfo {
    /// Reads the `sctp_sndrcvinfo` stored at offset `off` of `s`.
    pub fn read_at(order: ByteOrder, s: &[u8], off: usize) -> (r: SndRcvInfo)
        requires
            off + SNDRCVINFO_LEN <= s@.len(),
        ensures
            r == sndrcvinfo_at(order, s@, off as int),
    {
        let _len: usize = s.len();  // the slice's length fits in a usize
        SndRcvInfo {
            sinfo_stream: get_u16(order, s, off),
            sinfo_ssn: get_u16(order, s, off + 2),
            sinfo_flags: get_u16(order, s, off + 4),
            sinfo_ppid: get_u32(order, s, off + 8),
            sinfo_context: get_u32(order, s, off + 12),
            sinfo_timetolive: get_u32(order, s, off + 16),
            sinfo_tsn: get_u32(order, s, off + 20),
            sinfo_cumtsn: get_u32(order, s, off + 24),
            sinfo_assoc_id: get_i32(order, s, off + 28),
        }
    }
}

impl SndInfo {
    /// The bytes of this `sctp_sndinfo` as the kernel reads them.
    pub fn to_bytes(&self, order: ByteOrder) -> (r: Vec<u8>)
        ensures
            r@ == sndinfo_bytes(order, *self),
            r@.len() == SNDINFO_LEN,
    {
        let mut out: Vec<u8> = Vec::new();
        put_u16(order, &mut out, self.snd_sid);
        put_u16(order, &mut out, self.snd_flags);
        put_u32(order, &mut out, self.snd_ppid);
        put_u32(order, &mut out, self.snd_context);
        put_i32(order, &mut out, self.snd_assoc_id);
        proof {
            lemma_u16_roundtrip(order, self.snd_sid);
            lemma_u16_roundtrip(order, self.snd_flags);
            lemma_u32_roundtrip(order, self.snd_ppid);
            lemma_u32_roundtrip(order, self.snd_context);
            lemma_i32_roundtrip(order, self.snd_assoc_id);
            assert(out@ =~= sndinfo_bytes(order, *self));
        }
        out
    }
}

/// `x.to_be()` on a machine of byte order `order`: the number whose bytes in
/// that order are the big-endian bytes of `x`.
pub open spec fn to_network_order(order: ByteOrder, x: u32) -> u32 {
    uint_value(order, uint_bytes(ByteOrder::Big, x as nat, 4)) as u32
}

/// The `sctp_sndinfo` of a message sent with the default values: stream 0,
/// no flags, context 0, association 0, and the payload protocol
/// identifier `ppid` in network byte order.
pub open spec fn default_sndinfo(order: ByteOrder, ppid: u32) -> SndInfo {
    SndInfo {
        snd_sid: 0,
        snd_flags: 0,
        snd_ppid: to_network_order(order, ppid),
        snd_context: 0,
        snd_assoc_id: 0,
    }
}

impl SndInfo {
    /// The `sctp_sndinfo` with which a message goes out by default.
    pub fn default_for(order: ByteOrder, ppid: u32) -> (r: SndInfo)
        ensures
            r == default_sndinfo(order, ppid),
            r.snd_sid == 0,
            r.snd_flags == 0,
            r.snd_context == 0,
            r.snd_assoc_id == 0,
            u32_bytes(order, r.snd_ppid) == uint_bytes(ByteOrder::Big, ppid as nat, 4),
    {
        let mut be: Vec<u8> = Vec::new();
        push_uint(ByteOrder::Big, &mut be, ppid as u64, 4);
        proof {
            lemma_uint_bytes_len(ByteOrder::Big, ppid as nat, 4);
            assert(be@.subrange(0, 4) =~= be@);
            lemma_uint_value_bound(order, be@);
            lemma_pow256_values();
            lemma_uint_bytes_of_value(order, be@);
        }
        let native: u32 = get_u32(order, be.as_slice(), 0);
        SndInfo { snd_sid: 0, snd_flags: 0, snd_ppid: native, snd_context: 0, snd_assoc_id: 0 }
    }
}

/// A message sent with the default values carries the configured payload
/// protocol identifier on the wire in network byte order.
pub proof fn lemma_default_ppid_on_wire(order: ByteOrder, ppid: u32)
    ensures
        sndinfo_bytes(order, default_sndinfo(order, ppid)).subrange(4, 8) == uint_bytes(
            ByteOrder::Big,
            ppid as nat,
            4,
        ),
{
    let x = default_sndinfo(order, ppid);
    let be = uint_bytes(ByteOrder::Big, ppid as nat, 4);
    lemma_uint_bytes_len(ByteOrder::Big, ppid as nat, 4);
    lemma_uint_value_bound(order, be);
    lemma_pow256_values();
    lemma_uint_bytes_of_value(order, be);
    assert(be.subrange(0, 4) =~= be);
    lemma_sndinfo_layout(order, x);
    let a = u16_bytes(order, x.snd_sid);
    let b = u16_bytes(order, x.snd_flags);
    let c = u32_bytes(order, x.snd_ppid);
    let d = u32_bytes(order, x.snd_context);
    let e = i32_bytes(order, x.snd_assoc_id);
    lemma_u16_roundtrip(order, x.snd_sid);
    lemma_u16_roundtrip(order, x.snd_flags);
    lemma_middle_of_concat(a + b, c, d + e);
    assert(sndinfo_bytes(order, x) =~= (a + b) + c + (d + e));
}

impl Init {
    /// The bytes of this `sctp_initmsg` as the kernel reads them.
    pub fn to_bytes(&self, order: ByteOrder) -> (r: Vec<u8>)
        ensures
            r@ == init_bytes(order, *self),
            r@.len() == 8,
    {
        let mut out: Vec<u8> = Vec::new();
        put_u16(order, &mut out, self.sinit_num_ostreams);
        put_u16(order, &mut out, self.sinit_max_instreams);
        put_u16(order, &mut out, self.sinit_max_attempts);
        put_u16(order, &mut out, self.sinit_max_init_timeo);
        proof {
            lemma_u16_roundtrip(order, self.sinit_num_ostreams);
            lemma_u16_roundtrip(order, self.sinit_max_instreams);
            lemma_u16_roundtrip(order, self.sinit_max_attempts);
            lemma_u16_roundtrip(order, self.sinit_max_init_timeo);
            assert(out@ =~= init_bytes(order, *self));
        }
        out
    }
}

impl RtoInfo {
    /// The bytes of this `sctp_rtoinfo` as the kernel reads them.
    pub fn to_bytes(&self, order: ByteOrder) -> (r: Vec<u8>)
        ensures
            r@ == rtoinfo_bytes(order, *self),
            r@.len() == 16,
    {
        let mut out: Vec<u8> = Vec::new();
        put_u32(order, &mut out, self.assoc_id);
        put_u32(order, &mut out, self.srto_initial);
        put_u32(order, &mut out, self.srto_max);
        put_u32(order, &mut out, self.srto_min);
        proof {
            lemma_u32_roundtrip(order, self.assoc_id);
            lemma_u32_roundtrip(order, self.srto_initial);
            lemma_u32_roundtrip(order, self.srto_max);
            lemma_u32_roundtrip(order, self.srto_min);
            assert(out@ =~= rtoinfo_bytes(order, *self));
        }
        out
    }
}

impl Default for SctpEventSubscribe {
    fn default() -> (r: Self)
        ensures
            event_subscribe_bytes(r) == Seq::new(14, |i: int| 0u8),
    {
        let r = SctpEventSubscribe {
            sctp_data_io_event: 0,
            sctp_association_event: 0,
            sctp_address_event: 0,
            sctp_send_failure_event: 0,
            sctp_peer_error_event: 0,
            sctp_shutdown_event: 0,
            sctp_partial_delivery_event: 0,
            sctp_adaptation_layer_event: 0,
            sctp_authentication_event: 0,
            sctp_sender_dry_event: 0,
            sctp_stream_reset_event: 0,
            sctp_assoc_reset_event: 0,
            sctp_stream_change_event: 0,
            sctp_send_failure_event_event: 0,
        };
        assert(event_subscribe_bytes(r) =~= Seq::new(14, |i: int| 0u8));
        r
    }
}

impl SctpEventSubscribe {
    /// The bytes of this `sctp_event_subscribe` as the kernel reads them.
    pub fn to_bytes(&self) -> (r: Vec<u8>)
        ensures
            r@ == event_subscribe_bytes(*self),
    {
        let mut out: Vec<u8> = Vec::new();
        out.push(self.sctp_data_io_event);
        out.push(self.sctp_association_event);
        out.push(self.sctp_address_event);
        out.push(self.sctp_send_failure_event);
        out.push(self.sctp_peer_error_event);
        out.push(self.sctp_shutdown_event);
        out.push(self.sctp_partial_delivery_event);
        out.push(self.sctp_adaptation_layer_event);
        out.push(self.sctp_authentication_event);
        out.push(self.sctp_sender_dry_event);
        out.push(self.sctp_stream_reset_event);
        out.push(self.sctp_assoc_reset_event);
        out.push(self.sctp_stream_change_event);
        out.push(self.sctp_send_failure_event_event);
        assert(out@ =~= event_subscribe_bytes(*self));
        out
    }

    /// Reads the `sctp_event_subscribe` at the start of `s`.
    pub fn from_bytes(s: &[u8]) -> (r: SctpEventSubscribe)
        requires
            s@.len() >= EVENT_SUBSCRIBE_LEN,
        ensures
            r == event_subscribe_of(s@),
    {
        SctpEventSubscribe {
            sctp_data_io_event: s[0],
            sctp_association_event: s[1],
            sctp_address_event: s[2],
            sctp_send_failure_event: s[3],
            sctp_peer_error_event: s[4],
            sctp_shutdown_event: s[5],
            sctp_partial_delivery_event: s[6],
            sctp_adaptation_layer_event: s[7],
            sctp_authentication_event: s[8],
            sctp_sender_dry_event: s[9],
            sctp_stream_reset_event: s[10],
            sctp_assoc_reset_event: s[11],
            sctp_stream_change_event: s[12],
            sctp_send_failure_event_event: s[13],
        }
    }
}

impl NotificationHeader {
    /// Reads the notification header at the start of `s`; `None` where `s`
    /// is shorter than a header.
    pub fn read(order: ByteOrder, s: &[u8]) -> (r: Option<NotificationHeader>)
        ensures
            r is Some <==> s@.len() >= NOTIFICATION_HEADER_LEN,
            r matches Some(h) ==> h == notification_header_of(order, s@),
    {
        if s.len() < NOTIFICATION_HEADER_LEN {
            None
        } else {
            Some(
                NotificationHeader {
                    sn_type: get_u16(order, s, 0),
                    sn_flags: get_u16(order, s, 2),
                    sn_length: get_u32(order, s, 4),
                },
            )
        }
    }
}

impl IPaddrChange {
    /// Reads the `sctp_paddr_change` at the start of `s`.
    pub fn read(order: ByteOrder, s: &[u8]) -> (r: IPaddrChange)
        requires
            s@.len() >= PADDR_CHANGE_LEN,
        ensures
            is_paddr_change_of(order, r, s@),
    {
        let mut addr: [u8; 128] = [0u8; 128];
        let mut i: usize = 0;
        while i < PADDR_ADDR_LEN
            invariant
                i <= PADDR_ADDR_LEN,
                s@.len() >= PADDR_CHANGE_LEN,
                forall|j: int| 0 <= j < i ==> addr@[j] == s@[8 + j],
            decreases PADDR_ADDR_LEN - i,
        {
            addr[i] = s[8 + i];
            i = i + 1;
        }
        assert(addr@ =~= s@.subrange(8, 136));
        IPaddrChange {
            spc_type: get_u16(order, s, 0),
            spc_flags: get_u16(order, s, 2),
            spc_length: get_u32(order, s, 4),
            spc_addr: addr,
            spc_state: get_u32(order, s, 136),
            spc_error: get_u32(order, s, 140),
        }
    }
}

/// The kernel reads each field of an encoded `sctp_sndinfo` back from its
/// offset in the C layout.
pub proof fn lemma_sndinfo_layout(order: ByteOrder, x: SndInfo)
    ensures
        sndinfo_bytes(order, x).len() == SNDINFO_LEN,
        u16_at(order, sndinfo_bytes(order, x), 0) == x.snd_sid,
        u16_at(order, sndinfo_bytes(order, x), 2) == x.snd_flags,
        u32_at(order, sndinfo_bytes(order, x), 4) == x.snd_ppid,
        u32_at(order, sndinfo_bytes(order, x), 8) == x.snd_context,
        i32_at(order, sndinfo_bytes(order, x), 12) == x.snd_assoc_id,
{
    let a = u16_bytes(order, x.snd_sid);
    let b = u16_bytes(order, x.snd_flags);
    let c = u32_bytes(order, x.snd_ppid);
    let d = u32_bytes(order, x.snd_context);
    let e = i32_bytes(order, x.snd_assoc_id);
    lemma_u16_roundtrip(order, x.snd_sid);
    lemma_u16_roundtrip(order, x.snd_flags);
    lemma_u32_roundtrip(order, x.snd_ppid);
    lemma_u32_roundtrip(order, x.snd_context);
    lemma_i32_roundtrip(order, x.snd_assoc_id);
    let s = sndinfo_bytes(order, x);
    lemma_middle_of_concat(Seq::empty(), a, b + c + d + e);
    assert(s =~= Seq::empty() + a + (b + c + d + e));
    lemma_middle_of_concat(a, b, c + d + e);
    assert(s =~= a + b + (c + d + e));
    lemma_middle_of_concat(a + b, c, d + e);
    assert(s =~= (a + b) + c + (d + e));
    lemma_middle_of_concat(a + b + c, d, e);
    assert(s =~= (a + b + c) + d + e);
    lemma_middle_of_concat(a + b + c + d, e, Seq::empty());
    assert(s =~= (a + b + c + d) + e + Seq::empty());
    assert(a.subrange(0, 2) =~= a);
    assert(b.subrange(0, 2) =~= b);
    assert(c.subrange(0, 4) =~= c);
    assert(d.subrange(0, 4) =~= d);
    assert(e.subrange(0, 4) =~= e);
}

/// Reading the flags of an encoded `sctp_event_subscribe` gives it back.
pub proof fn lemma_event_subscribe_roundtrip(x: SctpEventSubscribe)
    ensures
        event_subscribe_bytes(x).len() == EVENT_SUBSCRIBE_LEN,
        event_subscribe_of(event_subscribe_bytes(x)) == x,
{
}

/// Writing the flags read from bytes gives back those bytes.
pub proof fn lemma_event_subscribe_bytes_roundtrip(s: Seq<u8>)
    requires
        s.len() >= EVENT_SUBSCRIBE_LEN,
    ensures
        event_subscribe_bytes(event_subscribe_of(s)) == s.subrange(0, 14),
{
    assert(event_subscribe_bytes(event_subscribe_of(s)) =~= s.subrange(0, 14));
}

/// The `sctp_initmsg` value the kernel reads carries each parameter at its C
/// offset: outbound streams at 0, inbound streams at 2, attempts at 4, init
/// timeout at 6.
pub proof fn lemma_init_layout(order: ByteOrder, x: Init)
    ensures
        init_bytes(order, x).len() == 8,
        u16_at(order, init_bytes(order, x), 0) == x.sinit_num_ostreams,
        u16_at(order, init_bytes(order, x), 2) == x.sinit_max_instreams,
        u16_at(order, init_bytes(order, x), 4) == x.sinit_max_attempts,
        u16_at(order, init_bytes(order, x), 6) == x.sinit_max_init_timeo,
{
    let a = u16_bytes(order, x.sinit_num_ostreams);
    let b = u16_bytes(order, x.sinit_max_instreams);
    let c = u16_bytes(order, x.sinit_max_attempts);
    let d = u16_bytes(order, x.sinit_max_init_timeo);
    lemma_u16_roundtrip(order, x.sinit_num_ostreams);
    lemma_u16_roundtrip(order, x.sinit_max_instreams);
    lemma_u16_roundtrip(order, x.sinit_max_attempts);
    lemma_u16_roundtrip(order, x.sinit_max_init_timeo);
    lemma_four_fields(a, b, c, d);
    assert(a.subrange(0, 2) =~= a);
    assert(b.subrange(0, 2) =~= b);
    assert(c.subrange(0, 2) =~= c);
    assert(d.subrange(0, 2) =~= d);
}

/// The `sctp_rtoinfo` value the kernel reads carries each field at its C
/// offset: association at 0, initial at 4, maximum at 8, minimum at 12.
pub proof fn lemma_rtoinfo_layout(order: ByteOrder, x: RtoInfo)
    ensures
        rtoinfo_bytes(order, x).len() == 16,
        u32_at(order, rtoinfo_bytes(order, x), 0) == x.assoc_id,
        u32_at(order, rtoinfo_bytes(order, x), 4) == x.srto_initial,
        u32_at(order, rtoinfo_bytes(order, x), 8) == x.srto_max,
        u32_at(order, rtoinfo_bytes(order, x), 12) == x.srto_min,
{
    let a = u32_bytes(order, x.assoc_id);
    let b = u32_bytes(order, x.srto_initial);
    let c = u32_bytes(order, x.srto_max);
    let d = u32_bytes(order, x.srto_min);
    lemma_u32_roundtrip(order, x.assoc_id);
    lemma_u32_roundtrip(order, x.srto_initial);
    lemma_u32_roundtrip(order, x.srto_max);
    lemma_u32_roundtrip(order, x.srto_min);
    lemma_four_fields(a, b, c, d);
    assert(a.subrange(0, 4) =~= a);
    assert(b.subrange(0, 4) =~= b);
    assert(c.subrange(0, 4) =~= c);
    assert(d.subrange(0, 4) =~= d);
}

/// A message sent with the default values goes out on stream 0, with no
/// flags, context 0 and association 0, for every payload protocol
/// identifier; on the wire its `sctp_sndinfo` is all zeros but for the
/// identifier's big-endian bytes at offset 4.
pub proof fn lemma_default_sndinfo_on_wire(order: ByteOrder, ppid: u32)
    ensures
        default_sndinfo(order, ppid).snd_sid == 0,
        default_sndinfo(order, ppid).snd_flags == 0,
        default_sndinfo(order, ppid).snd_context == 0,
        default_sndinfo(order, ppid).snd_assoc_id == 0,
        sndinfo_bytes(order, default_sndinfo(order, ppid)) == Seq::new(4, |i: int| 0u8)
            + uint_bytes(ByteOrder::Big, ppid as nat, 4) + Seq::new(8, |i: int| 0u8),
{
    let x = default_sndinfo(order, ppid);
    let be = uint_bytes(ByteOrder::Big, ppid as nat, 4);
    lemma_uint_bytes_len(ByteOrder::Big, ppid as nat, 4);
    lemma_uint_value_bound(order, be);
    lemma_pow256_values();
    lemma_uint_bytes_of_value(order, be);
    lemma_sndinfo_zero_fields(order, x);
    assert(u32_bytes(order, x.snd_ppid) =~= be);
    assert(sndinfo_bytes(order, x) =~= Seq::new(4, |i: int| 0u8) + be + Seq::new(8, |i: int| 0u8));
}

proof fn lemma_sndinfo_zero_fields(order: ByteOrder, x: SndInfo)
    requires
        x.snd_sid == 0 && x.snd_flags == 0 && x.snd_context == 0 && x.snd_assoc_id == 0,
    ensures
        u16_bytes(order, x.snd_sid) == Seq::new(2, |i: int| 0u8),
        u16_bytes(order, x.snd_flags) == Seq::new(2, |i: int| 0u8),
        u32_bytes(order, x.snd_context) == Seq::new(4, |i: int| 0u8),
        i32_bytes(order, x.snd_assoc_id) == Seq::new(4, |i: int| 0u8),
{
    lemma_zero_bytes(order, 2);
    lemma_zero_bytes(order, 4);
}

} // verus!
