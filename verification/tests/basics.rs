use machined::ip::{AddrCidr, IpAddr};
use machined::order::{comes_before, sort_order};
use machined::paths::{file_name, is_contained, join, leaf_of, path_names};
use machined::text::{
    decimal, ends_with, flag_text, join_strings, parse_u64, push_hex, signed_decimal, starts_with,
    trim,
};

#[test]
fn addresses_are_printed_as_usual() {
    assert_eq!(AddrCidr::new(IpAddr::V4(10, 0, 0, 1), 8).to_string(), "10.0.0.1/8");
    assert_eq!(IpAddr::V6(0, 0, 0, 0, 0, 0, 0, 1).to_string(), "::1");
    assert_eq!(IpAddr::V6(0, 0, 0, 0, 0, 0, 0, 0).to_string(), "::");
    assert_eq!(IpAddr::V6(0xfe80, 0, 0, 0, 1, 0, 0, 0xa).to_string(), "fe80::1:0:0:a");
    assert_eq!(IpAddr::V6(1, 0, 2, 0, 0, 3, 0, 4).to_string(), "1:0:2::3:0:4");
    assert_eq!(IpAddr::V6(0, 0, 0, 0, 0, 0xffff, 0x0102, 0x0304).to_string(), "::ffff:1.2.3.4");
}

#[test]
fn the_first_of_the_longest_runs_of_zeros_is_shortened() {
    assert_eq!(v6([1, 2, 3, 4, 5, 6, 7, 8]).to_string(), "1:2:3:4:5:6:7:8");
    assert_eq!(v6([0, 1, 0, 0, 0, 1, 0, 0]).to_string(), "0:1::1:0:0");
    assert_eq!(v6([1, 0, 0, 2, 0, 0, 3, 0]).to_string(), "1::2:0:0:3:0");
    assert_eq!(v6([0xabcd, 0, 0, 0, 0, 0, 0, 0]).to_string(), "abcd::");
    assert_eq!(v6([0, 0, 0, 0, 0, 0, 1, 2]).to_string(), "::1:2");
}

#[test]
fn names_are_ordered_by_their_bytes() {
    assert!(comes_before("a", "b"));
    assert!(!comes_before("b", "a"));
    assert!(comes_before("a", "aa"));
    assert!(comes_before("Z", "a"));
    let names: Vec<String> = ["b", "a", "c", "a"].iter().map(|s| s.to_string()).collect();
    assert_eq!(sort_order(&names), vec![1, 3, 0, 2]);
}

#[test]
fn paths_are_joined_and_taken_apart() {
    assert_eq!(join("/a", "b"), "/a/b");
    assert_eq!(join("/a/", "b"), "/a/b");
    assert_eq!(join("/a", "/b"), "/b");
    assert_eq!(leaf_of("/dev/sda"), "sda");
    assert_eq!(file_name("/a/b/"), Some("b".to_string()));
    assert_eq!(file_name("/a/.."), None);
    assert_eq!(file_name("/"), None);
    assert!(is_contained(&b"a/b".to_vec()));
    assert!(!is_contained(&b"..".to_vec()));
    assert_eq!(path_names(&b"a//./b/".to_vec()), vec![b"a".to_vec(), b"b".to_vec()]);
}

#[test]
fn numbers_are_written_and_read() {
    assert_eq!(decimal(0), "0");
    assert_eq!(decimal(u64::MAX), "18446744073709551615");
    assert_eq!(signed_decimal(i64::MIN), "-9223372036854775808");
    let mut s = String::new();
    push_hex(&mut s, 0xbeef);
    assert_eq!(s, "beef");
    assert_eq!(parse_u64("18446744073709551615"), Some(u64::MAX));
    assert_eq!(parse_u64("18446744073709551616"), None);
    assert_eq!(parse_u64("+7"), Some(7));
    assert_eq!(parse_u64(""), None);
    assert_eq!(parse_u64("-1"), None);
}

#[test]
fn texts_are_trimmed_and_joined() {
    assert_eq!(trim(" \ta b\n"), "a b");
    assert_eq!(flag_text(true), "true");
    assert!(starts_with("loop0", "loop"));
    assert!(!ends_with("a", "ba"));
    assert_eq!(join_strings(&vec!["a".into(), "b".into()], ","), "a,b");
    assert_eq!(join_strings(&vec![], ","), "");
}

fn v6(s: [u16; 8]) -> IpAddr {
    IpAddr::V6(s[0], s[1], s[2], s[3], s[4], s[5], s[6], s[7])
}

#[test]
fn dotted_decimal_is_read() {
    assert_eq!(IpAddr::parse("192.168.1.10"), Some(IpAddr::V4(192, 168, 1, 10)));
    assert_eq!(IpAddr::parse("0.0.0.0"), Some(IpAddr::V4(0, 0, 0, 0)));
    assert_eq!(IpAddr::parse("255.255.255.255"), Some(IpAddr::V4(255, 255, 255, 255)));
    for bad in [
        "", "1.2.3", "1.2.3.4.5", "256.1.1.1", "1.2.3.1234", "01.2.3.4", "1.2.3.00", "1..2.3",
        "1.2.3.4 ", "a.b.c.d", "+1.2.3.4", "bad-addr",
    ] {
        assert_eq!(IpAddr::parse(bad), None, "{bad}");
    }
}

#[test]
fn hexadecimal_segments_are_read() {
    assert_eq!(IpAddr::parse("::"), Some(v6([0; 8])));
    assert_eq!(IpAddr::parse("::1"), Some(v6([0, 0, 0, 0, 0, 0, 0, 1])));
    assert_eq!(IpAddr::parse("1::"), Some(v6([1, 0, 0, 0, 0, 0, 0, 0])));
    assert_eq!(IpAddr::parse("FE80::0aBc"), Some(v6([0xfe80, 0, 0, 0, 0, 0, 0, 0xabc])));
    assert_eq!(IpAddr::parse("1:2:3:4:5:6:7:8"), Some(v6([1, 2, 3, 4, 5, 6, 7, 8])));
    assert_eq!(IpAddr::parse("1:2:3:4:5:6:7::"), Some(v6([1, 2, 3, 4, 5, 6, 7, 0])));
    assert_eq!(IpAddr::parse("::2:3:4:5:6:7:8"), Some(v6([0, 2, 3, 4, 5, 6, 7, 8])));
    assert_eq!(IpAddr::parse("::ffff:1.2.3.4"), Some(v6([0, 0, 0, 0, 0, 0xffff, 0x102, 0x304])));
    assert_eq!(IpAddr::parse("1:2:3:4:5:6:1.2.3.4"), Some(v6([1, 2, 3, 4, 5, 6, 0x102, 0x304])));
    for bad in [
        ":", ":::", "1:2:3:4:5:6:7", "1:2:3:4:5:6:7:8:9", "1::2::3", "12345::", "g::", ":1::2",
        "1:2:3:4:5:6:7:8::", "1:2:3:4::5:6:7:8", "1.2.3.4::", "1:2:3:4:5:6::1.2.3.4", "1:",
        "::1.2.3", "fe80::1%eth0",
    ] {
        assert_eq!(IpAddr::parse(bad), None, "{bad}");
    }
}

#[test]
fn prefixes_are_read() {
    let home = AddrCidr::new(IpAddr::V4(192, 168, 1, 10), 24);
    assert_eq!(AddrCidr::parse("192.168.1.10/24"), Some(home));
    assert_eq!(AddrCidr::parse("10.0.0.0/0"), Some(AddrCidr::new(IpAddr::V4(10, 0, 0, 0), 0)));
    assert_eq!(AddrCidr::parse("::/128"), Some(AddrCidr::new(v6([0; 8]), 128)));
    for bad in ["192.168.1.10", "192.168.1.10/33", "::/129", "192.168.1.10/", "/24", "1.2.3.4/a",
        "1.2.3.4/24/1"]
    {
        assert_eq!(AddrCidr::parse(bad), None, "{bad}");
    }
}

#[test]
fn what_is_written_reads_back() {
    for ip in [
        IpAddr::V4(10, 0, 0, 255),
        v6([0; 8]),
        v6([0x2001, 0xdb8, 0, 0, 1, 0, 0, 1]),
        v6([0, 0, 0, 0, 0, 0xffff, 0xc000, 0x201]),
        v6([1, 0, 3, 0, 5, 0, 7, 0]),
        v6([1, 2, 3, 4, 5, 6, 0, 0]),
    ] {
        assert_eq!(IpAddr::parse(&ip.to_string()), Some(ip));
        let net = AddrCidr::new(ip, 32);
        assert_eq!(AddrCidr::parse(&net.to_string()), Some(net));
    }
}
