//! Socket options: which option each setting goes to and the bytes of its value.
use vstd::prelude::*;
use crate::structs::{
    event_subscribe_of, init_bytes, lemma_event_subscribe_bytes_roundtrip,
    rtoinfo_bytes, Init, RtoInfo, SctpEventSubscribe, EVENT_SUBSCRIBE_LEN,
};
use crate::sockaddr::{
    is_sockaddr_of, lemma_sockaddr_roundtrip, sockaddr_bytes, sockaddr_encoding, sockaddr_len, SockAddr,
};
use crate::wire::{i32_bytes, put_i32, ByteOrder};

verus! {

/// The option level of SCTP (`SOL_SCTP`).
pub const SOL_SCTP: i32 = 132;

/// `SCTP_RTOINFO`.
pub const SCTP_RTOINFO: i32 = 0;

/// `SCTP_INITMSG`.
pub const SCTP_INIT_MSG: i32 = 2;

/// `SCTP_NODELAY`.
pub const SCTP_NODELAY: i32 = 3;

/// `SCTP_EVENTS`.
pub const SCTP_EVENTS: i32 = 11;

/// `SCTP_SOCKOPT_BINDX_ADD`.
pub const SCTP_SOCKOPT_BINDX_ADD: i32 = 100;

/// `SCTP_SOCKOPT_CONNECTX`.
pub const SCTP_SOCKOPT_CONNECTX: i32 = 110;

/// A socket option to set: level, name and value bytes.
#[derive(Debug)]
pub struct SockOpt {
    pub level: i32,
    pub name: i32,
    pub value: Vec<u8>,
}

/// The bytes of an `int` option value.
pub fn int_value(order: ByteOrder, v: i32) -> (r: Vec<u8>)
    ensures
        r@ == i32_bytes(order, v),
{
    let mut out: Vec<u8> = Vec::new();
    put_i32(order, &mut out, v);
    assert(out@ =~= i32_bytes(order, v));
    out
}

/// `SCTP_NODELAY`, on (1) or off (0).
pub fn nodelay_option(order: ByteOrder, enable: bool) -> (r: SockOpt)
    ensures
        r.level == SOL_SCTP,
        r.name == SCTP_NODELAY,
        r.value@ == i32_bytes(order, if enable { 1i32 } else { 0i32 }),
{
    let v: i32 = if enable { 1 } else { 0 };
    SockOpt { level: SOL_SCTP, name: SCTP_NODELAY, value: int_value(order, v) }
}

/// `SCTP_INITMSG` with the given parameters.
pub fn init_option(order: ByteOrder, info: &Init) -> (r: SockOpt)
    ensures
        r.level == SOL_SCTP,
        r.name == SCTP_INIT_MSG,
        r.value@ == init_bytes(order, *info),
{
    SockOpt { level: SOL_SCTP, name: SCTP_INIT_MSG, value: info.to_bytes(order) }
}

/// `SCTP_RTOINFO` with the given parameters.
pub fn rto_option(order: ByteOrder, info: &RtoInfo) -> (r: SockOpt)
    ensures
        r.level == SOL_SCTP,
        r.name == SCTP_RTOINFO,
        r.value@ == rtoinfo_bytes(order, *info),
{
    SockOpt { level: SOL_SCTP, name: SCTP_RTOINFO, value: info.to_bytes(order) }
}

/// The event flags that `SCTP_EVENTS` read, with `sctp_data_io_event` on and
/// every other flag as it was.
pub open spec fn with_data_io(s: Seq<u8>) -> Seq<u8> {
    s.subrange(0, 14).update(0, 1u8)
}

/// The event flags that `SCTP_EVENTS` read, with `sctp_address_event` on and
/// every other flag as it was.
pub open spec fn with_address_events(s: Seq<u8>) -> Seq<u8> {
    s.subrange(0, 14).update(2, 1u8)
}

impl SctpEventSubscribe {
    /// Turns on the report of ancillary data (`sctp_sndrcvinfo`) with each message.
    pub fn enable_data_io(&mut self)
        ensures
            *final(self) == (SctpEventSubscribe { sctp_data_io_event: 1, ..*old(self) }),
    {
        self.sctp_data_io_event = 1;
    }

    /// Turns on the notification of peer address changes.
    pub fn enable_address_events(&mut self)
        ensures
            *final(self) == (SctpEventSubscribe { sctp_address_event: 1, ..*old(self) }),
    {
        self.sctp_address_event = 1;
    }
}

/// `SCTP_EVENTS` with the flags that were read (`current`) and ancillary data turned on.
pub fn subscribe_aux_option(current: &[u8]) -> (r: SockOpt)
    requires
        current@.len() >= EVENT_SUBSCRIBE_LEN,
    ensures
        r.level == SOL_SCTP,
        r.name == SCTP_EVENTS,
        r.value@ == with_data_io(current@),
{
    let mut events: SctpEventSubscribe = SctpEventSubscribe::from_bytes(current);
    events.enable_data_io();
    let value: Vec<u8> = events.to_bytes();
    proof {
        lemma_event_subscribe_bytes_roundtrip(current@);
        assert(value@ =~= with_data_io(current@));
    }
    SockOpt { level: SOL_SCTP, name: SCTP_EVENTS, value }
}

/// `SCTP_EVENTS` with the flags that were read (`current`) and peer address
/// notifications turned on.
pub fn subscribe_addr_option(current: &[u8]) -> (r: SockOpt)
    requires
        current@.len() >= EVENT_SUBSCRIBE_LEN,
    ensures
        r.level == SOL_SCTP,
        r.name == SCTP_EVENTS,
        r.value@ == with_address_events(current@),
{
    let mut events: SctpEventSubscribe = SctpEventSubscribe::from_bytes(current);
    events.enable_address_events();
    let value: Vec<u8> = events.to_bytes();
    proof {
        lemma_event_subscribe_bytes_roundtrip(current@);
        assert(value@ =~= with_address_events(current@));
    }
    SockOpt { level: SOL_SCTP, name: SCTP_EVENTS, value }
}

/// The encoded addresses one after the other.
pub open spec fn address_list(addrs: Seq<Vec<u8>>) -> Seq<u8> {
    addrs.map_values(|a: Vec<u8>| a@).flatten()
}

/// The packed list of `struct sockaddr`s that `bindx` and `connectx` take.
pub fn pack_addresses(addrs: &Vec<Vec<u8>>) -> (r: Vec<u8>)
    ensures
        r@ == address_list(addrs@),
{
    let mut out: Vec<u8> = Vec::new();
    let mut i: usize = 0;
    while i < addrs.len()
        invariant
            i <= addrs@.len(),
            out@ == address_list(addrs@.subrange(0, i as int)),
        decreases addrs@.len() - i,
    {
        let a: &Vec<u8> = &addrs[i];
        let mut j: usize = 0;
        let ghost before = out@;
        while j < a.len()
            invariant
                j <= a@.len(),
                out@ == before + a@.subrange(0, j as int),
            decreases a@.len() - j,
        {
            out.push(a[j]);
            j = j + 1;
            assert(out@ =~= before + a@.subrange(0, j as int));
        }
        proof {
            let prefix = addrs@.subrange(0, i as int);
            let next = addrs@.subrange(0, i + 1);
            assert(next =~= prefix.push(addrs@[i as int]));
            assert(next.map_values(|v: Vec<u8>| v@) =~= prefix.map_values(|v: Vec<u8>| v@).push(
                addrs@[i as int]@,
            ));
            prefix.map_values(|v: Vec<u8>| v@).lemma_flatten_push(addrs@[i as int]@);
            assert(a@.subrange(0, a@.len() as int) =~= a@);
        }
        i = i + 1;
    }
    assert(addrs@.subrange(0, addrs@.len() as int) =~= addrs@);
    out
}

/// The `struct sockaddr` bytes of the addresses, one after the other.
pub open spec fn sockaddr_list(order: ByteOrder, addrs: Seq<SockAddr>) -> Seq<u8> {
    addrs.map_values(|a: SockAddr| sockaddr_encoding(order, a)).flatten()
}

/// The packed `struct sockaddr` list of the addresses, as `bindx` and
/// `connectx` hand it to the kernel.
pub fn encode_addresses(order: ByteOrder, addrs: &Vec<SockAddr>) -> (r: Vec<u8>)
    ensures
        r@ == sockaddr_list(order, addrs@),
        r@.len() == sockaddr_total_len(addrs@),
{
    proof {
        lemma_sockaddr_list_layout(order, addrs@);
    }
    let mut encoded: Vec<Vec<u8>> = Vec::new();
    let mut i: usize = 0;
    while i < addrs.len()
        invariant
            i <= addrs@.len(),
            encoded@.len() == i,
            forall|j: int| 0 <= j < i ==> #[trigger] encoded@[j]@ == sockaddr_encoding(order, addrs@[j]),
        decreases addrs@.len() - i,
    {
        encoded.push(sockaddr_bytes(order, addrs[i]));
        i = i + 1;
    }
    assert(encoded@.map_values(|v: Vec<u8>| v@) =~= addrs@.map_values(
        |a: SockAddr| sockaddr_encoding(order, a),
    ));
    pack_addresses(&encoded)
}

/// `SCTP_SOCKOPT_BINDX_ADD` with the given addresses.
pub fn bindx_option(order: ByteOrder, addrs: &Vec<SockAddr>) -> (r: SockOpt)
    ensures
        r.level == SOL_SCTP,
        r.name == SCTP_SOCKOPT_BINDX_ADD,
        r.value@ == sockaddr_list(order, addrs@),
{
    SockOpt { level: SOL_SCTP, name: SCTP_SOCKOPT_BINDX_ADD, value: encode_addresses(order, addrs) }
}

/// `SCTP_SOCKOPT_CONNECTX` with the given addresses.
pub fn connectx_option(order: ByteOrder, addrs: &Vec<SockAddr>) -> (r: SockOpt)
    ensures
        r.level == SOL_SCTP,
        r.name == SCTP_SOCKOPT_CONNECTX,
        r.value@ == sockaddr_list(order, addrs@),
{
    SockOpt { level: SOL_SCTP, name: SCTP_SOCKOPT_CONNECTX, value: encode_addresses(order, addrs) }
}

/// Turning a flag on changes that flag alone: reading back the written flags
/// gives the flags that were read, with the one flag on.
pub proof fn lemma_subscribe_keeps_other_flags(current: Seq<u8>)
    requires
        current.len() >= EVENT_SUBSCRIBE_LEN,
    ensures
        event_subscribe_of(with_data_io(current)) == (SctpEventSubscribe {
            sctp_data_io_event: 1,
            ..event_subscribe_of(current)
        }),
        event_subscribe_of(with_address_events(current)) == (SctpEventSubscribe {
            sctp_address_event: 1,
            ..event_subscribe_of(current)
        }),
{
}

/// The total size of the `struct sockaddr`s of the addresses.
pub open spec fn sockaddr_total_len(addrs: Seq<SockAddr>) -> nat
    decreases addrs.len(),
{
    if addrs.len() == 0 {
        0
    } else {
        sockaddr_total_len(addrs.drop_last()) + sockaddr_len(addrs.last())
    }
}

proof fn lemma_total_len_prefix(addrs: Seq<SockAddr>, j: int)
    requires
        0 <= j <= addrs.len(),
    ensures
        sockaddr_total_len(addrs.take(j)) <= sockaddr_total_len(addrs),
    decreases addrs.len(),
{
    if j == addrs.len() {
        assert(addrs.take(j) =~= addrs);
    } else {
        assert(addrs.drop_last().take(j) =~= addrs.take(j));
        lemma_total_len_prefix(addrs.drop_last(), j);
    }
}

/// The packed address list that `bindx` and `connectx` hand the kernel holds
/// every address whole, in order: it is as long as the addresses' structures
/// together (16 bytes per IPv4, 28 per IPv6 address), and each address
/// reads back from its own place in it.
pub proof fn lemma_sockaddr_list_layout(order: ByteOrder, addrs: Seq<SockAddr>)
    ensures
        sockaddr_list(order, addrs).len() == sockaddr_total_len(addrs),
        forall|i: int|
            0 <= i < addrs.len() ==> is_sockaddr_of(
                order,
                #[trigger] addrs[i],
                sockaddr_list(order, addrs).subrange(
                    sockaddr_total_len(addrs.take(i)) as int,
                    (sockaddr_total_len(addrs.take(i)) + sockaddr_len(addrs[i])) as int,
                ),
            ),
    decreases addrs.len(),
{
    if addrs.len() == 0 {
        assert(addrs.map_values(|a: SockAddr| sockaddr_encoding(order, a)) =~= Seq::<Seq<u8>>::empty());
    } else {
        let init = addrs.drop_last();
        let last = addrs.last();
        lemma_sockaddr_list_layout(order, init);
        lemma_sockaddr_roundtrip(order, last);
        assert(addrs.map_values(|a: SockAddr| sockaddr_encoding(order, a)) =~= init.map_values(
            |a: SockAddr| sockaddr_encoding(order, a),
        ).push(sockaddr_encoding(order, last)));
        init.map_values(|a: SockAddr| sockaddr_encoding(order, a)).lemma_flatten_push(
            sockaddr_encoding(order, last),
        );
        let pre = sockaddr_list(order, init);
        let enc = sockaddr_encoding(order, last);
        assert(sockaddr_list(order, addrs) == pre + enc);
        assert forall|i: int| 0 <= i < addrs.len() implies is_sockaddr_of(
            order,
            #[trigger] addrs[i],
            sockaddr_list(order, addrs).subrange(
                sockaddr_total_len(addrs.take(i)) as int,
                (sockaddr_total_len(addrs.take(i)) + sockaddr_len(addrs[i])) as int,
            ),
        ) by {
            let start = sockaddr_total_len(addrs.take(i)) as int;
            let end = (sockaddr_total_len(addrs.take(i)) + sockaddr_len(addrs[i])) as int;
            if i == addrs.len() - 1 {
                assert(addrs.take(i) =~= init);
                assert((pre + enc).subrange(start, end) =~= enc);
            } else {
                assert(addrs.take(i) =~= init.take(i));
                assert(addrs[i] == init[i]);
                assert(init.take(i + 1).drop_last() =~= init.take(i));
                assert(init.take(i + 1).last() == init[i]);
                lemma_total_len_prefix(init, i + 1);
                assert((pre + enc).subrange(start, end) =~= pre.subrange(start, end));
            }
        }
    }
}

} // verus!
