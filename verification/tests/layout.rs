use sctp::handle_libc_error;
use sctp::options::{
    bindx_option, connectx_option, encode_addresses, init_option, int_value, nodelay_option, pack_addresses,
    rto_option, subscribe_addr_option, subscribe_aux_option, SCTP_EVENTS, SCTP_INIT_MSG,
    SCTP_NODELAY, SCTP_RTOINFO, SCTP_SOCKOPT_BINDX_ADD, SCTP_SOCKOPT_CONNECTX, SOL_SCTP,
};
use sctp::structs::{
    IPaddrChange, Init, NotificationHeader, RtoInfo, SctpEventSubscribe, SndInfo, SndRcvInfo,
};
use sctp::sockaddr::SockAddr;
use sctp::wire::ByteOrder;

fn native_order() -> ByteOrder {
    if 1u16.to_ne_bytes()[0] == 1 { ByteOrder::Little } else { ByteOrder::Big }
}

fn sample_sndinfo() -> SndInfo {
    SndInfo {
        snd_sid: 0x0102,
        snd_flags: 0x0304,
        snd_ppid: 0x0506_0708,
        snd_context: 0x090a_0b0c,
        snd_assoc_id: -2,
    }
}

#[test]
fn sndinfo_bytes_little_endian() {
    let b = sample_sndinfo().to_bytes(ByteOrder::Little);
    assert_eq!(
        b,
        vec![0x02, 0x01, 0x04, 0x03, 0x08, 0x07, 0x06, 0x05, 0x0c, 0x0b, 0x0a, 0x09, 0xfe, 0xff, 0xff, 0xff]
    );
}

#[test]
fn sndinfo_bytes_big_endian() {
    let b = sample_sndinfo().to_bytes(ByteOrder::Big);
    assert_eq!(
        b,
        vec![0x01, 0x02, 0x03, 0x04, 0x05, 0x06, 0x07, 0x08, 0x09, 0x0a, 0x0b, 0x0c, 0xff, 0xff, 0xff, 0xfe]
    );
}

#[test]
fn sndinfo_bytes_match_native_memory_image() {
    let order = native_order();
    let x = sample_sndinfo();
    let mut expected = Vec::new();
    expected.extend_from_slice(&x.snd_sid.to_ne_bytes());
    expected.extend_from_slice(&x.snd_flags.to_ne_bytes());
    expected.extend_from_slice(&x.snd_ppid.to_ne_bytes());
    expected.extend_from_slice(&x.snd_context.to_ne_bytes());
    expected.extend_from_slice(&x.snd_assoc_id.to_ne_bytes());
    assert_eq!(x.to_bytes(order), expected);
}

#[test]
fn default_sndinfo_puts_ppid_in_network_order() {
    let le = SndInfo::default_for(ByteOrder::Little, 3);
    assert_eq!(le.snd_ppid, 0x0300_0000);
    assert_eq!(le.snd_sid, 0);
    assert_eq!(le.snd_flags, 0);
    assert_eq!(le.snd_context, 0);
    assert_eq!(le.snd_assoc_id, 0);
    assert_eq!(&le.to_bytes(ByteOrder::Little)[4..8], &[0, 0, 0, 3]);
    let be = SndInfo::default_for(ByteOrder::Big, 3);
    assert_eq!(be.snd_ppid, 3);
    assert_eq!(&be.to_bytes(ByteOrder::Big)[4..8], &[0, 0, 0, 3]);
}

#[test]
fn default_sndinfo_matches_to_be_on_this_machine() {
    let order = native_order();
    let ppid: u32 = 0x1234_5678;
    assert_eq!(SndInfo::default_for(order, ppid).snd_ppid, ppid.to_be());
}

#[test]
fn init_and_rto_bytes() {
    let init = Init {
        sinit_num_ostreams: 5,
        sinit_max_instreams: 5,
        sinit_max_attempts: 0,
        sinit_max_init_timeo: 0x0102,
    };
    assert_eq!(init.to_bytes(ByteOrder::Little), vec![5, 0, 5, 0, 0, 0, 2, 1]);
    let rto = RtoInfo { assoc_id: 0, srto_initial: 222, srto_max: 333, srto_min: 111 };
    assert_eq!(
        rto.to_bytes(ByteOrder::Big),
        vec![0, 0, 0, 0, 0, 0, 0, 222, 0, 0, 1, 77, 0, 0, 0, 111]
    );
    let o = init_option(ByteOrder::Little, &init);
    assert_eq!((o.level, o.name), (SOL_SCTP, SCTP_INIT_MSG));
    assert_eq!(o.value, vec![5, 0, 5, 0, 0, 0, 2, 1]);
    let o = rto_option(ByteOrder::Little, &rto);
    assert_eq!((o.level, o.name), (SOL_SCTP, SCTP_RTOINFO));
    assert_eq!(o.value, vec![0, 0, 0, 0, 222, 0, 0, 0, 77, 1, 0, 0, 111, 0, 0, 0]);
}

#[test]
fn nodelay_values() {
    let on = nodelay_option(ByteOrder::Little, true);
    assert_eq!((on.level, on.name), (SOL_SCTP, SCTP_NODELAY));
    assert_eq!(on.value, vec![1, 0, 0, 0]);
    let off = nodelay_option(ByteOrder::Big, false);
    assert_eq!(off.value, vec![0, 0, 0, 0]);
    assert_eq!(int_value(ByteOrder::Big, 100000), vec![0, 1, 0x86, 0xa0]);
    assert_eq!(int_value(ByteOrder::Little, -1), vec![0xff, 0xff, 0xff, 0xff]);
}

#[test]
fn event_subscribe_roundtrip() {
    let bytes: Vec<u8> = (1..=14).collect();
    let ev = SctpEventSubscribe::from_bytes(&bytes);
    assert_eq!(ev.sctp_data_io_event, 1);
    assert_eq!(ev.sctp_address_event, 3);
    assert_eq!(ev.sctp_send_failure_event_event, 14);
    assert_eq!(ev.to_bytes(), bytes);
    let d = SctpEventSubscribe::default();
    assert_eq!(d.to_bytes(), vec![0u8; 14]);
}

#[test]
fn subscribe_options_change_one_flag() {
    let current: Vec<u8> = vec![0, 1, 0, 1, 0, 1, 0, 1, 0, 1, 0, 1, 0, 1];
    let aux = subscribe_aux_option(&current);
    assert_eq!((aux.level, aux.name), (SOL_SCTP, SCTP_EVENTS));
    assert_eq!(aux.value, vec![1, 1, 0, 1, 0, 1, 0, 1, 0, 1, 0, 1, 0, 1]);
    let addr = subscribe_addr_option(&current);
    assert_eq!(addr.value, vec![0, 1, 1, 1, 0, 1, 0, 1, 0, 1, 0, 1, 0, 1]);
    let mut ev = SctpEventSubscribe::from_bytes(&current);
    ev.enable_data_io();
    ev.enable_address_events();
    assert_eq!(ev.to_bytes(), vec![1, 1, 1, 1, 0, 1, 0, 1, 0, 1, 0, 1, 0, 1]);
}

#[test]
fn subscribe_options_ignore_bytes_past_the_structure() {
    let current = vec![0u8; 20];
    assert_eq!(subscribe_aux_option(&current).value.len(), 14);
}

#[test]
fn sndrcvinfo_read_skips_padding() {
    let mut buf = vec![0xeeu8; 3];
    buf.extend_from_slice(&[
        1, 0, 2, 0, 3, 0, 0xaa, 0xbb, 4, 0, 0, 0, 5, 0, 0, 0, 6, 0, 0, 0, 7, 0, 0, 0, 8, 0, 0, 0,
        0xff, 0xff, 0xff, 0xff,
    ]);
    let info = SndRcvInfo::read_at(ByteOrder::Little, &buf, 3);
    assert_eq!(info.sinfo_stream, 1);
    assert_eq!(info.sinfo_ssn, 2);
    assert_eq!(info.sinfo_flags, 3);
    assert_eq!(info.sinfo_ppid, 4);
    assert_eq!(info.sinfo_context, 5);
    assert_eq!(info.sinfo_timetolive, 6);
    assert_eq!(info.sinfo_tsn, 7);
    assert_eq!(info.sinfo_cumtsn, 8);
    assert_eq!(info.sinfo_assoc_id, -1);
    let d = SndRcvInfo::default();
    assert_eq!((d.sinfo_stream, d.sinfo_ppid, d.sinfo_assoc_id), (0, 0, 0));
}

#[test]
fn notification_header_read() {
    assert!(NotificationHeader::read(ByteOrder::Little, &[2, 0x80, 0, 0, 0, 0, 0]).is_none());
    let h = NotificationHeader::read(ByteOrder::Little, &[2, 0x80, 1, 0, 0x90, 0, 0, 0]).unwrap();
    assert_eq!((h.sn_type, h.sn_flags, h.sn_length), (0x8002, 1, 0x90));
    let h = NotificationHeader::read(ByteOrder::Big, &[0x80, 2, 0, 1, 0, 0, 0, 0x90, 9]).unwrap();
    assert_eq!((h.sn_type, h.sn_flags, h.sn_length), (0x8002, 1, 0x90));
}

#[test]
fn paddr_change_read() {
    let mut buf = vec![0u8; 144];
    buf[0] = 2;
    buf[1] = 0x80;
    buf[4] = 144;
    for i in 0..128 {
        buf[8 + i] = i as u8;
    }
    buf[136] = 3;
    buf[140] = 7;
    let c = IPaddrChange::read(ByteOrder::Little, &buf);
    assert_eq!((c.spc_type, c.spc_flags, c.spc_length), (0x8002, 0, 144));
    assert_eq!(c.spc_addr[0], 0);
    assert_eq!(c.spc_addr[127], 127);
    assert_eq!((c.spc_state, c.spc_error), (3, 7));
}

#[test]
fn pack_addresses_concatenates() {
    let addrs = vec![vec![1u8, 2], vec![], vec![3u8, 4, 5]];
    assert_eq!(pack_addresses(&addrs), vec![1, 2, 3, 4, 5]);
    assert_eq!(pack_addresses(&Vec::new()), Vec::<u8>::new());
}

#[test]
fn bindx_and_connectx_pack_sockaddrs() {
    let addrs = vec![
        SockAddr::V4 { ip: [10, 0, 0, 1], port: 2905 },
        SockAddr::V4 { ip: [10, 0, 0, 2], port: 2905 },
    ];
    let b = bindx_option(ByteOrder::Little, &addrs);
    assert_eq!((b.level, b.name), (SOL_SCTP, SCTP_SOCKOPT_BINDX_ADD));
    let mut expected = vec![2, 0, 0x0b, 0x59, 10, 0, 0, 1, 0, 0, 0, 0, 0, 0, 0, 0];
    expected.extend_from_slice(&[2, 0, 0x0b, 0x59, 10, 0, 0, 2, 0, 0, 0, 0, 0, 0, 0, 0]);
    assert_eq!(b.value, expected);
    let c = connectx_option(ByteOrder::Little, &addrs);
    assert_eq!((c.level, c.name), (SOL_SCTP, SCTP_SOCKOPT_CONNECTX));
    assert_eq!(c.value, expected);
    assert_eq!(encode_addresses(ByteOrder::Big, &Vec::new()), Vec::<u8>::new());
}

#[test]
fn libc_error_handling() {
    assert!(handle_libc_error(-1).is_err());
    assert!(handle_libc_error(0).is_ok());
    assert!(handle_libc_error(5).is_ok());
    assert!(handle_libc_error(-2).is_ok());
}
