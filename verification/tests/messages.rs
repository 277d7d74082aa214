use sctp::cmsg::{encode_cmsg, find_sndrcv, header_len, sndinfo_cmsg, Abi, WordSize};
use sctp::notification::{
    decode_paddr_change, is_notification, Notification, NotificationAddress, SockAddr,
};
use sctp::recv::{classify_received, detailed_outcome, Received};
use sctp::steps::NOTIFICATION_HANDLED;
use sctp::structs::SndInfo;
use sctp::wire::ByteOrder;

const LE64: Abi = Abi { order: ByteOrder::Little, word: WordSize::Eight };
const BE32: Abi = Abi { order: ByteOrder::Big, word: WordSize::Four };

fn sndrcv_payload(stream: u16, ppid: u32) -> Vec<u8> {
    let mut d = vec![0u8; 32];
    d[0..2].copy_from_slice(&stream.to_le_bytes());
    d[8..12].copy_from_slice(&ppid.to_le_bytes());
    d
}

#[test]
fn header_sizes() {
    assert_eq!(header_len(LE64), 16);
    assert_eq!(header_len(BE32), 12);
}

#[test]
fn encode_one_message_64() {
    let m = encode_cmsg(LE64, 132, 2, &[9, 8, 7]);
    assert_eq!(
        m,
        vec![19, 0, 0, 0, 0, 0, 0, 0, 132, 0, 0, 0, 2, 0, 0, 0, 9, 8, 7]
    );
}

#[test]
fn encode_one_message_32_big() {
    let m = encode_cmsg(BE32, 132, 1, &[5]);
    assert_eq!(m, vec![0, 0, 0, 13, 0, 0, 0, 132, 0, 0, 0, 1, 5]);
}

#[test]
fn sndinfo_message_layout() {
    let info = SndInfo { snd_sid: 1, snd_flags: 0, snd_ppid: 0x0300_0000, snd_context: 0, snd_assoc_id: 0 };
    let m = sndinfo_cmsg(LE64, &info);
    assert_eq!(m.len(), 32);
    assert_eq!(&m[0..8], &[32, 0, 0, 0, 0, 0, 0, 0]);
    assert_eq!(&m[8..16], &[132, 0, 0, 0, 2, 0, 0, 0]);
    assert_eq!(&m[16..32], &info.to_bytes(ByteOrder::Little)[..]);
}

#[test]
fn find_sndrcv_in_single_message() {
    let m = encode_cmsg(LE64, 132, 1, &sndrcv_payload(7, 42));
    let info = find_sndrcv(LE64, &m, m.len()).unwrap();
    assert_eq!(info.sinfo_stream, 7);
    assert_eq!(info.sinfo_ppid, 42);
}

#[test]
fn find_sndrcv_skips_other_messages_and_takes_the_last() {
    let mut buf = encode_cmsg(LE64, 0, 1, &[1, 2, 3]);
    buf.extend_from_slice(&[0; 5]); // alignment to 8 bytes: 19 -> 24
    buf.extend_from_slice(&encode_cmsg(LE64, 132, 1, &sndrcv_payload(1, 10)));
    buf.extend_from_slice(&encode_cmsg(LE64, 132, 2, &[0; 16]));
    buf.extend_from_slice(&encode_cmsg(LE64, 132, 1, &sndrcv_payload(2, 20)));
    let info = find_sndrcv(LE64, &buf, buf.len()).unwrap();
    assert_eq!(info.sinfo_stream, 2);
    assert_eq!(info.sinfo_ppid, 20);
}

#[test]
fn find_sndrcv_none_without_match() {
    assert!(find_sndrcv(LE64, &[], 0).is_none());
    assert!(find_sndrcv(LE64, &[0u8; 15], 15).is_none());
    let m = encode_cmsg(LE64, 132, 2, &[0; 32]);
    assert!(find_sndrcv(LE64, &m, m.len()).is_none());
}

#[test]
fn find_sndrcv_stops_at_short_length() {
    // First header claims a length below the header size: the walk stops there.
    let mut buf = vec![4u8, 0, 0, 0, 0, 0, 0, 0, 0, 0, 0, 0, 0, 0, 0, 0];
    buf.extend_from_slice(&encode_cmsg(LE64, 132, 1, &sndrcv_payload(1, 1)));
    assert!(find_sndrcv(LE64, &buf, buf.len()).is_none());
}

#[test]
fn find_sndrcv_ignores_info_past_the_buffer_end() {
    let mut m = encode_cmsg(LE64, 132, 1, &sndrcv_payload(1, 1));
    m.truncate(40);
    assert!(find_sndrcv(LE64, &m, m.len()).is_none());
}

#[test]
fn find_sndrcv_32_bit_big_endian() {
    let mut payload = vec![0u8; 32];
    payload[1] = 9;
    let m = encode_cmsg(BE32, 132, 1, &payload);
    assert_eq!(find_sndrcv(BE32, &m, m.len()).unwrap().sinfo_stream, 9);
}

#[test]
fn notification_flag() {
    assert!(is_notification(0x8000));
    assert!(is_notification(0x8080));
    assert!(!is_notification(0x80));
    assert!(!is_notification(0));
}

fn paddr_change_bytes(kind: u16, len: usize) -> Vec<u8> {
    let mut buf = vec![0u8; len];
    buf[0..2].copy_from_slice(&kind.to_le_bytes());
    buf[8] = 2;
    buf[136] = 1;
    buf[140] = 0;
    buf
}

#[test]
fn decode_peer_address_change() {
    let c = decode_paddr_change(ByteOrder::Little, &paddr_change_bytes(0x8002, 200)).unwrap();
    assert_eq!(c.spc_type, 0x8002);
    assert_eq!(c.spc_addr[0], 2);
    assert_eq!(c.spc_state, 1);
    assert!(decode_paddr_change(ByteOrder::Little, &paddr_change_bytes(0x8005, 200)).is_none());
    let mut short = paddr_change_bytes(0x8002, 144);
    short.pop();
    assert!(decode_paddr_change(ByteOrder::Little, &short).is_none());
    assert!(decode_paddr_change(ByteOrder::Little, &[2, 0x80]).is_none());
}

#[test]
fn classify_notifications_and_messages() {
    let data = paddr_change_bytes(0x8002, 144);
    match classify_received(LE64, 0x8000, &data, &[], 0) {
        Received::Notification(Some(c)) => assert_eq!(c.spc_state, 1),
        other => panic!("unexpected {:?}", other),
    }
    match classify_received(LE64, 0x8000, &[1, 0, 0, 0, 8, 0, 0, 0], &[], 0) {
        Received::Notification(None) => {}
        other => panic!("unexpected {:?}", other),
    }
    let control = encode_cmsg(LE64, 132, 1, &sndrcv_payload(4, 5));
    match classify_received(LE64, 0, &data, &control, control.len()) {
        Received::Message(Some(i)) => assert_eq!((i.sinfo_stream, i.sinfo_ppid), (4, 5)),
        other => panic!("unexpected {:?}", other),
    }
    match classify_received(LE64, 0, &data, &[], 0) {
        Received::Message(None) => {}
        other => panic!("unexpected {:?}", other),
    }
}

#[test]
fn notification_address_from_change() {
    let c = decode_paddr_change(ByteOrder::Little, &paddr_change_bytes(0x8002, 144)).unwrap();
    let addr = SockAddr::V4 { ip: [127, 0, 0, 1], port: 9999 };
    let n = NotificationAddress::from_change(&c, addr);
    assert_eq!(n.addr, addr);
    assert_eq!((n.state, n.error), (1, 0));
    let note = Notification::Address(n);
    assert!(matches!(note, Notification::Address(_)));
    assert!(matches!(Notification::Shutdown(), Notification::Shutdown()));
}

#[test]
fn find_sndrcv_reads_info_past_the_filled_part() {
    // The header lies in the filled part; its info runs past it into the
    // rest of the control buffer, which is read as it stands.
    let mut buf = encode_cmsg(LE64, 132, 1, &sndrcv_payload(6, 60));
    buf.extend_from_slice(&[0u8; 16]);
    let info = find_sndrcv(LE64, &buf, 20).unwrap();
    assert_eq!((info.sinfo_stream, info.sinfo_ppid), (6, 60));
    // Headers past the filled part are not visited.
    assert!(find_sndrcv(LE64, &buf, 15).is_none());
}

#[test]
fn detailed_outcomes() {
    let note = Received::Notification(None);
    let (len, info) = detailed_outcome(10, &note);
    assert_eq!(len, NOTIFICATION_HANDLED);
    assert!(info.is_none());
    let control = encode_cmsg(LE64, 132, 1, &sndrcv_payload(4, 5));
    let msg = classify_received(LE64, 0, &[], &control, control.len());
    let (len, info) = detailed_outcome(10, &msg);
    assert_eq!(len, 10);
    assert_eq!(info.unwrap().sinfo_ppid, 5);
    let (len, info) = detailed_outcome(3, &Received::Message(None));
    assert_eq!(len, 3);
    assert!(info.is_none());
}
