use capreport::addr::format_mac;
use capreport::addr::format_port;
use capreport::addr::ipv4_string;
use capreport::addr::ipv6_string;
use capreport::detect_format;
use capreport::preview::build_ascii_preview;
use capreport::preview::build_hex_preview;
use capreport::proto::describe_icmpv4;
use capreport::proto::describe_icmpv6;
use capreport::proto::map_ip_protocol;
use capreport::CaptureFormat;

#[test]
fn hex_preview_exact() {
    assert_eq!(build_hex_preview(&[], 32), "");
    assert_eq!(build_hex_preview(&[0x00], 32), "00");
    assert_eq!(build_hex_preview(&[0xDE, 0xAD, 0xBE, 0xEF], 32), "DE AD BE EF");
}

#[test]
fn hex_preview_ellipsis_iff_longer_than_cutoff() {
    let exactly: Vec<u8> = (0u8..32).collect();
    assert!(!build_hex_preview(&exactly, 32).contains('\u{2026}'));
    let longer: Vec<u8> = (0u8..33).collect();
    let preview = build_hex_preview(&longer, 32);
    assert!(preview.ends_with(" \u{2026}"));
    // 32 hex pairs, 31 separating spaces, then the continuation marker.
    assert_eq!(preview.chars().count(), 32 * 2 + 31 + 2);
}

#[test]
fn hex_preview_charset() {
    let data: Vec<u8> = (0u8..=255).collect();
    let preview = build_hex_preview(&data, 32);
    for c in preview.chars() {
        assert!(
            c.is_ascii_digit() || ('A'..='F').contains(&c) || c == ' ' || c == '\u{2026}',
            "unexpected character {:?}",
            c
        );
    }
}

#[test]
fn ascii_preview_printables_and_dots() {
    assert_eq!(build_ascii_preview(b"Hi!", 32), "Hi!");
    assert_eq!(build_ascii_preview(&[0x00, 0x1F, 0x20, 0x7E, 0x7F, 0xFF], 32), "..\u{20}~..");
}

#[test]
fn ascii_preview_ellipsis_iff_longer_than_cutoff() {
    let exactly = vec![b'a'; 32];
    assert!(!build_ascii_preview(&exactly, 32).contains('\u{2026}'));
    let longer = vec![b'a'; 33];
    let preview = build_ascii_preview(&longer, 32);
    assert!(preview.ends_with('\u{2026}'));
    assert!(!preview.ends_with(" \u{2026}"));
    assert_eq!(preview.chars().count(), 33);
    for c in preview.chars() {
        assert!((' '..='~').contains(&c) || c == '\u{2026}');
    }
}

#[test]
fn mac_and_port_formatting() {
    assert_eq!(format_mac(&[0xAA, 0xBB, 0xCC, 0x0D, 0xEE, 0x01]), "AA:BB:CC:0D:EE:01");
    assert_eq!(format_port("10.0.0.1", 8080), "10.0.0.1:8080");
    assert_eq!(ipv4_string(192, 168, 0, 255), "192.168.0.255");
}

#[test]
fn ipv6_formatting_special_cases() {
    assert_eq!(ipv6_string(&[0u8; 16]), "::");
    let mut loopback = [0u8; 16];
    loopback[15] = 1;
    assert_eq!(ipv6_string(&loopback), "::1");
    let mapped = [0, 0, 0, 0, 0, 0, 0, 0, 0, 0, 0xFF, 0xFF, 192, 0, 2, 1];
    assert_eq!(ipv6_string(&mapped), "::ffff:192.0.2.1");
}

#[test]
fn ipv6_formatting_compression() {
    let addr = [0x20, 0x01, 0x0D, 0xB8, 0, 0, 0, 0, 0, 0, 0, 0, 0, 0, 0, 1];
    assert_eq!(ipv6_string(&addr), "2001:db8::1");
    // The longer zero run wins even when it comes second.
    let addr2 = [0x20, 0x01, 0, 0, 0, 0, 0, 1, 0, 0, 0, 0, 0, 0, 0, 1];
    assert_eq!(ipv6_string(&addr2), "2001:0:0:1::1");
    // On a tie the first run is elided.
    let addr3 = [0, 1, 0, 0, 0, 0, 0, 2, 0, 0, 0, 0, 0, 3, 0, 4];
    assert_eq!(ipv6_string(&addr3), "1::2:0:0:3:4");
    // Runs of a single zero group are not compressed.
    let addr4 = [0, 1, 0, 0, 0, 2, 0, 3, 0, 4, 0, 5, 0, 6, 0, 7];
    assert_eq!(ipv6_string(&addr4), "1:0:2:3:4:5:6:7");
}

#[test]
fn format_detection_by_magic() {
    assert_eq!(detect_format(&[]), CaptureFormat::Raw);
    assert_eq!(detect_format(&[0x0A, 0x0D, 0x0D]), CaptureFormat::Raw);
    assert_eq!(detect_format(&[0x0A, 0x0D, 0x0D, 0x0A]), CaptureFormat::PcapNg);
    assert_eq!(detect_format(&[0xD4, 0xC3, 0xB2, 0xA1]), CaptureFormat::Pcap);
    assert_eq!(detect_format(&[0x4D, 0x3C, 0xB2, 0xA1]), CaptureFormat::Pcap);
    assert_eq!(detect_format(&[0xA1, 0xB2, 0xC3, 0xD4]), CaptureFormat::Pcap);
    assert_eq!(detect_format(&[0xA1, 0xB2, 0x3C, 0x4D]), CaptureFormat::Pcap);
    assert_eq!(detect_format(&[0xDE, 0xAD, 0xBE, 0xEF]), CaptureFormat::Raw);
}

#[test]
fn protocol_number_table() {
    assert_eq!(map_ip_protocol(1), "ICMP");
    assert_eq!(map_ip_protocol(2), "IGMP");
    assert_eq!(map_ip_protocol(6), "TCP");
    assert_eq!(map_ip_protocol(17), "UDP");
    assert_eq!(map_ip_protocol(41), "ENCAP");
    assert_eq!(map_ip_protocol(47), "GRE");
    assert_eq!(map_ip_protocol(50), "ESP");
    assert_eq!(map_ip_protocol(51), "AH");
    assert_eq!(map_ip_protocol(58), "ICMPv6");
    assert_eq!(map_ip_protocol(89), "OSPF");
    assert_eq!(map_ip_protocol(132), "SCTP");
    assert_eq!(map_ip_protocol(200), "IP");
}

#[test]
fn icmp_descriptions() {
    assert_eq!(describe_icmpv4(0, 7), "echo reply");
    assert_eq!(describe_icmpv4(3, 0), "destination network unreachable");
    assert_eq!(describe_icmpv4(3, 1), "destination host unreachable");
    assert_eq!(describe_icmpv4(3, 3), "port unreachable");
    assert_eq!(describe_icmpv4(5, 1), "redirect host");
    assert_eq!(describe_icmpv4(8, 0), "echo request");
    assert_eq!(describe_icmpv4(11, 0), "time exceeded in transit");
    assert_eq!(describe_icmpv4(11, 1), "fragment reassembly time exceeded");
    assert_eq!(describe_icmpv4(42, 13), "type 42, code 13");
    assert_eq!(describe_icmpv6(1, 0), "destination unreachable");
    assert_eq!(describe_icmpv6(2, 0), "packet too big");
    assert_eq!(describe_icmpv6(3, 0), "time exceeded");
    assert_eq!(describe_icmpv6(128, 0), "echo request");
    assert_eq!(describe_icmpv6(129, 0), "echo reply");
    assert_eq!(describe_icmpv6(133, 0), "router solicitation");
    assert_eq!(describe_icmpv6(134, 0), "router advertisement");
    assert_eq!(describe_icmpv6(135, 0), "neighbor solicitation");
    assert_eq!(describe_icmpv6(136, 0), "neighbor advertisement");
    assert_eq!(describe_icmpv6(200, 5), "type 200, code 5");
}
