//! Texts, addresses and bytes.
use rustnmap::addr::{IpAddr, Ipv4Addr, Ipv6Addr, MacAddr};
use rustnmap::text::{decimal_text, join, joined, same_text};
use rustnmap::wire::{
    add_halves, finish_checksum, put_half, put_ipv6, put_word, read_half, read_word,
    segment_checksum,
};

#[test]
fn texts() {
    assert_eq!(decimal_text(0), "0");
    assert_eq!(decimal_text(18446744073709551615), "18446744073709551615");
    assert!(same_text("a", "a"));
    assert!(!same_text("a", "b"));
    assert_eq!(joined("ab", "c"), "abc");
    assert_eq!(join(&vec!["a".to_string(), "b".to_string()], ", "), "a, b");
    assert_eq!(join(&Vec::new(), ", "), "");
}

#[test]
fn addresses() {
    let a = Ipv4Addr::new(192, 168, 1, 2);
    assert_eq!(a.octets(), [192, 168, 1, 2]);
    assert_eq!(a.to_bits(), 0xc0a80102);
    assert!(!a.is_unspecified());
    assert!(Ipv4Addr::new(0, 0, 0, 0).is_unspecified());
    assert!(IpAddr::V4(Ipv4Addr::new(127, 9, 9, 9)).is_loopback());
    assert!(!IpAddr::V4(a).is_loopback());
    let b = Ipv6Addr::new(0xff02, 0, 0, 0, 0, 1, 0xff00, 0x1234);
    assert!(b.is_multicast());
    assert_eq!(b.octets(), [0xff, 2, 0, 0, 0, 0, 0, 0, 0, 0, 0, 1, 0xff, 0, 0x12, 0x34]);
    assert!(IpAddr::V6(Ipv6Addr::new(0, 0, 0, 0, 0, 0, 0, 1)).is_loopback());
    assert!(!IpAddr::V6(b).is_loopback());
    assert_eq!(MacAddr::new([1, 2, 3, 4, 5, 6]).bytes(), [1, 2, 3, 4, 5, 6]);
}

#[test]
fn bytes_in_network_order() {
    let mut v = Vec::new();
    put_half(&mut v, 0x1234);
    put_word(&mut v, 0x89abcdef);
    assert_eq!(v, vec![0x12, 0x34, 0x89, 0xab, 0xcd, 0xef]);
    assert_eq!(read_half(&v, 0), 0x1234);
    assert_eq!(read_word(&v, 2), 0x89abcdef);
    put_ipv6(&mut v, &Ipv6Addr::new(1, 2, 3, 4, 5, 6, 7, 8));
    assert_eq!(v.len(), 22);
    assert_eq!(read_half(&v, 20), 8);
}

#[test]
fn checksums() {
    // The example of the Internet checksum's definition.
    let data = [0x00, 0x01, 0xf2, 0x03, 0xf4, 0xf5, 0xf6, 0xf7];
    let sum = add_halves(0, &data);
    assert_eq!(sum, 0x2ddf0);
    assert_eq!(finish_checksum(sum), 0x220d);
    assert_eq!(add_halves(0, &[0x12, 0x34, 0x56]), 0x1234 + 0x5600);
    let a = Ipv6Addr::new(0, 0, 0, 0, 0, 0, 0, 1);
    assert_eq!(segment_checksum(&a, &a, 58, &[0x80, 0]), 0xffff - (1 + 1 + 2 + 58 + 0x8000));
}
