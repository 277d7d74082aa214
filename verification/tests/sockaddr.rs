use sctp::notification::{address_notification, decode_paddr_change, Notification};
use sctp::sockaddr::{sockaddr_bytes, sockaddr_from_bytes, SockAddr};
use sctp::wire::ByteOrder;

#[test]
fn ipv4_bytes() {
    let a = SockAddr::V4 { ip: [127, 0, 0, 1], port: 9999 };
    let b = sockaddr_bytes(ByteOrder::Little, a);
    assert_eq!(b, vec![2, 0, 0x27, 0x0f, 127, 0, 0, 1, 0, 0, 0, 0, 0, 0, 0, 0]);
    assert_eq!(sockaddr_from_bytes(ByteOrder::Little, &b), Some(a));
    let big = sockaddr_bytes(ByteOrder::Big, a);
    assert_eq!(&big[0..4], &[0, 2, 0x27, 0x0f]);
    assert_eq!(sockaddr_from_bytes(ByteOrder::Big, &big), Some(a));
}

#[test]
fn ipv6_bytes() {
    let mut ip = [0u8; 16];
    ip[15] = 1;
    let a = SockAddr::V6 { ip, port: 0x1234, flowinfo: 0x0102_0304, scope_id: 7 };
    let b = sockaddr_bytes(ByteOrder::Little, a);
    assert_eq!(b.len(), 28);
    assert_eq!(&b[0..8], &[10, 0, 0x12, 0x34, 4, 3, 2, 1]);
    assert_eq!(b[23], 1);
    assert_eq!(&b[24..28], &[7, 0, 0, 0]);
    assert_eq!(sockaddr_from_bytes(ByteOrder::Little, &b), Some(a));
}

#[test]
fn bytes_past_28_and_missing_bytes() {
    // a sockaddr_in as getsockname returns it: 16 bytes
    let b = [2u8, 0, 0, 80, 192, 168, 1, 2, 0, 0, 0, 0, 0, 0, 0, 0];
    assert_eq!(
        sockaddr_from_bytes(ByteOrder::Little, &b),
        Some(SockAddr::V4 { ip: [192, 168, 1, 2], port: 80 })
    );
    // a short sockaddr_in6 reads the missing bytes as zeros
    let short6 = [10u8, 0, 0, 1];
    assert_eq!(
        sockaddr_from_bytes(ByteOrder::Little, &short6),
        Some(SockAddr::V6 { ip: [0; 16], port: 1, flowinfo: 0, scope_id: 0 })
    );
    let mut long = vec![0u8; 128];
    long[0] = 2;
    long[100] = 9;
    assert!(matches!(sockaddr_from_bytes(ByteOrder::Little, &long), Some(SockAddr::V4 { .. })));
}

#[test]
fn other_families_are_no_address() {
    assert_eq!(sockaddr_from_bytes(ByteOrder::Little, &[]), None);
    assert_eq!(sockaddr_from_bytes(ByteOrder::Little, &[1, 0, 0, 0]), None);
    assert_eq!(sockaddr_from_bytes(ByteOrder::Big, &[2, 0, 0, 0]), None);
}

fn paddr_change(addr: &[u8]) -> Vec<u8> {
    let mut buf = vec![0u8; 144];
    buf[0] = 2;
    buf[1] = 0x80;
    buf[8..8 + addr.len()].copy_from_slice(addr);
    buf[136] = 3;
    buf[140] = 5;
    buf
}

#[test]
fn address_notification_reports_the_address() {
    let a = SockAddr::V4 { ip: [10, 1, 2, 3], port: 2905 };
    let raw = sockaddr_bytes(ByteOrder::Little, a);
    let change = decode_paddr_change(ByteOrder::Little, &paddr_change(&raw)).unwrap();
    match address_notification(ByteOrder::Little, &change) {
        Some(Notification::Address(n)) => {
            assert_eq!(n.addr, a);
            assert_eq!((n.state, n.error), (3, 5));
        }
        other => panic!("unexpected {:?}", other),
    }
}

#[test]
fn address_notification_skips_other_families() {
    let change = decode_paddr_change(ByteOrder::Little, &paddr_change(&[1, 0])).unwrap();
    assert!(address_notification(ByteOrder::Little, &change).is_none());
}
