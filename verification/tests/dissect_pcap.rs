use capreport::process_packet;

fn parsed(out: &str) -> serde_json::Value {
    serde_json::from_str(out).expect("output must parse as JSON")
}

fn le32(v: u32) -> Vec<u8> {
    vec![v as u8, (v >> 8) as u8, (v >> 16) as u8, (v >> 24) as u8]
}

/// A little-endian microsecond legacy PCAP file.
fn pcap_le(linktype: u32, records: &[(u32, u32, u32, u32, Vec<u8>)]) -> Vec<u8> {
    let mut out = vec![0xD4, 0xC3, 0xB2, 0xA1, 0x02, 0x00, 0x04, 0x00];
    out.extend(le32(0)); // thiszone
    out.extend(le32(0)); // sigfigs
    out.extend(le32(65535));
    out.extend(le32(linktype));
    for (ts_sec, ts_frac, cap, orig, payload) in records {
        out.extend(le32(*ts_sec));
        out.extend(le32(*ts_frac));
        out.extend(le32(*cap));
        out.extend(le32(*orig));
        out.extend(payload.iter().copied());
    }
    out
}

fn eth_ipv4_udp() -> Vec<u8> {
    vec![
        0xAA, 0xBB, 0xCC, 0xDD, 0xEE, 0x02, // dst MAC
        0xAA, 0xBB, 0xCC, 0xDD, 0xEE, 0x01, // src MAC
        0x08, 0x00, // IPv4
        0x45, 0x00, 0x00, 0x1C, 0x00, 0x00, 0x00, 0x00, 0x40, 0x11, 0x00, 0x00, // IP header
        0x0A, 0x00, 0x00, 0x01, // 10.0.0.1
        0x0A, 0x00, 0x00, 0x02, // 10.0.0.2
        0x03, 0xE8, 0x07, 0xD0, 0x00, 0x08, 0x00, 0x00, // UDP 1000 -> 2000
    ]
}

#[test]
fn udp_packet_fields() {
    let input = pcap_le(1, &[(1, 500000, 42, 42, eth_ipv4_udp())]);
    let v = parsed(&process_packet(&input));
    let p = &v["packets"][0];
    assert_eq!(p["time"], "1.500000");
    assert_eq!(p["source"], "10.0.0.1:1000");
    assert_eq!(p["destination"], "10.0.0.2:2000");
    assert_eq!(p["protocol"], "UDP");
    assert_eq!(p["length"], 42);
    let info: serde_json::Value = serde_json::from_str(p["info"].as_str().unwrap()).unwrap();
    assert_eq!(info["summary"], "UDP 10.0.0.1:1000 \u{2192} 10.0.0.2:2000");
    assert_eq!(v["warnings"].as_array().unwrap().len(), 0);
    assert_eq!(v["errors"].as_array().unwrap().len(), 0);
}

#[test]
fn truncated_record_marks_summary_and_warns() {
    let input = pcap_le(1, &[(1, 500000, 42, 100, eth_ipv4_udp())]);
    let v = parsed(&process_packet(&input));
    let info: serde_json::Value =
        serde_json::from_str(v["packets"][0]["info"].as_str().unwrap()).unwrap();
    let summary = info["summary"].as_str().unwrap();
    assert!(summary.ends_with(" [truncated]"));
    assert_eq!(v["warnings"][0], "Packet 1 truncated (captured 42 of 100 bytes)");
}

#[test]
fn arp_request_summary() {
    let mut frame = vec![
        0xAA, 0xBB, 0xCC, 0xDD, 0xEE, 0x02, // dst MAC
        0xAA, 0xAA, 0xAA, 0xAA, 0xAA, 0x01, // src MAC
        0x08, 0x06, // ARP
        0x00, 0x01, 0x08, 0x00, 0x06, 0x04, 0x00, 0x01, // hw, proto, lens, op=1
        0xAA, 0xAA, 0xAA, 0xAA, 0xAA, 0x01, // sender MAC
        192, 168, 1, 1, // sender IP
        0x00, 0x00, 0x00, 0x00, 0x00, 0x00, // target MAC
        192, 168, 1, 2, // target IP
    ];
    frame.extend(std::iter::repeat(0u8).take(18)); // frame padding
    let len = frame.len() as u32;
    let input = pcap_le(1, &[(0, 0, len, len, frame)]);
    let v = parsed(&process_packet(&input));
    let p = &v["packets"][0];
    assert_eq!(p["protocol"], "ARP");
    assert_eq!(p["source"], "192.168.1.1");
    assert_eq!(p["destination"], "192.168.1.2");
    let info: serde_json::Value = serde_json::from_str(p["info"].as_str().unwrap()).unwrap();
    let summary = info["summary"].as_str().unwrap();
    assert!(summary.starts_with("ARP who-has 192.168.1.2 tell 192.168.1.1"));
    assert_eq!(
        summary,
        "ARP who-has 192.168.1.2 tell 192.168.1.1 (AA:AA:AA:AA:AA:01 \u{2192} AA:BB:CC:DD:EE:02)"
    );
}

#[test]
fn record_overrun_stops_with_warning() {
    let input = pcap_le(
        1,
        &[(1, 0, 42, 42, eth_ipv4_udp()), (2, 0, 5000, 5000, vec![0u8; 4])],
    );
    let v = parsed(&process_packet(&input));
    assert_eq!(v["packets"].as_array().unwrap().len(), 1);
    assert_eq!(v["packets"][0]["protocol"], "UDP");
    assert_eq!(v["warnings"][0], "Packet 2 header exceeds capture length");
    assert_eq!(v["errors"].as_array().unwrap().len(), 0);
}

fn ipv6_header(next: u8, payload_len: u16, src_last: u8, dst_last: u8) -> Vec<u8> {
    let mut p = vec![0x60, 0, 0, 0, (payload_len >> 8) as u8, payload_len as u8, next, 64];
    let mut src = vec![0u8; 16];
    src[15] = src_last;
    let mut dst = vec![0u8; 16];
    dst[15] = dst_last;
    p.extend(src);
    p.extend(dst);
    p
}

#[test]
fn ipv6_extension_chain_stops_after_four() {
    // Five hop-by-hop extension headers; the fourth names GRE (47), and the
    // traversal must stop there even though a fifth header follows.
    let mut pkt = ipv6_header(0, 48, 1, 2);
    for next in [0u8, 0, 47, 0, 6] {
        let mut ext = vec![next, 0];
        ext.extend(std::iter::repeat(0u8).take(6));
        pkt.extend(ext);
    }
    let len = pkt.len() as u32;
    let input = pcap_le(229, &[(0, 0, len, len, pkt)]);
    let v = parsed(&process_packet(&input));
    assert_eq!(v["packets"][0]["protocol"], "GRE");
}

#[test]
fn ipv6_addresses_compressed() {
    let pkt = ipv6_header(59, 0, 1, 9);
    let len = pkt.len() as u32;
    let input = pcap_le(229, &[(0, 0, len, len, pkt)]);
    let v = parsed(&process_packet(&input));
    assert_eq!(v["packets"][0]["source"], "::1");
    assert_eq!(v["packets"][0]["destination"], "::9");
}

#[test]
fn ipv6_mapped_ipv4_address() {
    let mut pkt = ipv6_header(59, 0, 0, 0);
    // Rewrite the source as ::ffff:1.2.3.4.
    for (i, b) in [0, 0, 0, 0, 0, 0, 0, 0, 0, 0, 0xFF, 0xFF, 1, 2, 3, 4].iter().enumerate() {
        pkt[8 + i] = *b;
    }
    let len = pkt.len() as u32;
    let input = pcap_le(229, &[(0, 0, len, len, pkt)]);
    let v = parsed(&process_packet(&input));
    assert_eq!(v["packets"][0]["source"], "::ffff:1.2.3.4");
}

#[test]
fn icmp_echo_request_description() {
    let mut pkt = vec![
        0x45, 0x00, 0x00, 0x1C, 0x00, 0x00, 0x00, 0x00, 0x40, 0x01, 0x00, 0x00, 0x0A, 0x00, 0x00,
        0x01, 0x0A, 0x00, 0x00, 0x02,
    ];
    pkt.extend(vec![8u8, 0, 0, 0, 0, 0, 0, 0]);
    let len = pkt.len() as u32;
    let input = pcap_le(101, &[(0, 0, len, len, pkt)]);
    let v = parsed(&process_packet(&input));
    assert_eq!(v["packets"][0]["protocol"], "ICMP");
    let info: serde_json::Value =
        serde_json::from_str(v["packets"][0]["info"].as_str().unwrap()).unwrap();
    assert_eq!(info["summary"], "ICMP 10.0.0.1 \u{2192} 10.0.0.2 (echo request)");
}

#[test]
fn icmpv6_packet_too_big_description() {
    let mut pkt = ipv6_header(58, 8, 1, 2);
    pkt.extend(vec![2u8, 0, 0, 0, 0, 0, 0, 0]);
    let len = pkt.len() as u32;
    let input = pcap_le(229, &[(0, 0, len, len, pkt)]);
    let v = parsed(&process_packet(&input));
    let info: serde_json::Value =
        serde_json::from_str(v["packets"][0]["info"].as_str().unwrap()).unwrap();
    assert_eq!(info["summary"], "ICMPv6 ::1 \u{2192} ::2 (packet too big)");
}

#[test]
fn tcp_ports_attached() {
    let mut pkt = vec![
        0x45, 0x00, 0x00, 0x20, 0x00, 0x00, 0x00, 0x00, 0x40, 0x06, 0x00, 0x00, 0x0A, 0x00, 0x00,
        0x01, 0x0A, 0x00, 0x00, 0x02,
    ];
    pkt.extend(vec![0x00u8, 0x50, 0x1F, 0x90, 0, 0, 0, 0, 0, 0, 0, 0]);
    let len = pkt.len() as u32;
    let input = pcap_le(101, &[(0, 0, len, len, pkt)]);
    let v = parsed(&process_packet(&input));
    assert_eq!(v["packets"][0]["protocol"], "TCP");
    assert_eq!(v["packets"][0]["source"], "10.0.0.1:80");
    assert_eq!(v["packets"][0]["destination"], "10.0.0.2:8080");
}

#[test]
fn unknown_ethertype_summary() {
    let frame = vec![
        0xAA, 0xBB, 0xCC, 0xDD, 0xEE, 0x02, 0xAA, 0xBB, 0xCC, 0xDD, 0xEE, 0x01, 0x99, 0x99,
    ];
    let len = frame.len() as u32;
    let input = pcap_le(1, &[(0, 0, len, len, frame)]);
    let v = parsed(&process_packet(&input));
    let p = &v["packets"][0];
    assert_eq!(p["protocol"], "EtherType 0x9999");
    assert_eq!(p["source"], "AA:BB:CC:DD:EE:01");
    assert_eq!(p["destination"], "AA:BB:CC:DD:EE:02");
    let info: serde_json::Value = serde_json::from_str(p["info"].as_str().unwrap()).unwrap();
    assert_eq!(info["summary"], "Ethernet 0x9999 \u{2192} captured 14 bytes");
}

#[test]
fn null_loopback_ipv4() {
    let mut pkt = vec![0x02, 0x00, 0x00, 0x00];
    pkt.extend(vec![
        0x45, 0x00, 0x00, 0x18, 0x00, 0x00, 0x00, 0x00, 0x40, 0x11, 0x00, 0x00, 0x0A, 0x00, 0x00,
        0x01, 0x0A, 0x00, 0x00, 0x02, 0x03, 0xE8, 0x07, 0xD0,
    ]);
    let len = pkt.len() as u32;
    let input = pcap_le(0, &[(0, 0, len, len, pkt)]);
    let v = parsed(&process_packet(&input));
    assert_eq!(v["packets"][0]["protocol"], "UDP");
    assert_eq!(v["packets"][0]["source"], "10.0.0.1:1000");
}

#[test]
fn short_frame_falls_back() {
    let input = pcap_le(1, &[(0, 0, 5, 5, vec![1, 2, 3, 4, 5])]);
    let v = parsed(&process_packet(&input));
    let p = &v["packets"][0];
    assert_eq!(p["protocol"], "LINKTYPE 1");
    assert_eq!(p["source"], "\u{2014}");
    assert_eq!(p["destination"], "\u{2014}");
    let info: serde_json::Value = serde_json::from_str(p["info"].as_str().unwrap()).unwrap();
    assert_eq!(info["summary"], "Captured 5 bytes (linktype 1)");
}

#[test]
fn nanosecond_pcap_timestamp() {
    let mut input = pcap_le(1, &[(1, 7, 5, 5, vec![1, 2, 3, 4, 5])]);
    // Rewrite the magic as the little-endian nanosecond flavor.
    input[0] = 0x4D;
    input[1] = 0x3C;
    let v = parsed(&process_packet(&input));
    assert_eq!(v["packets"][0]["time"], "1.000000007");
}

#[test]
fn timezone_offset_shifts_seconds() {
    let mut input = pcap_le(1, &[(10, 0, 5, 5, vec![1, 2, 3, 4, 5])]);
    // thiszone = -3
    let tz = (-3i32) as u32;
    input[8] = tz as u8;
    input[9] = (tz >> 8) as u8;
    input[10] = (tz >> 16) as u8;
    input[11] = (tz >> 24) as u8;
    let v = parsed(&process_packet(&input));
    assert_eq!(v["packets"][0]["time"], "7.000000");
}

#[test]
fn arp_reply_summary() {
    let mut frame = vec![
        0xAA, 0xBB, 0xCC, 0xDD, 0xEE, 0x02, // dst MAC
        0xAA, 0xAA, 0xAA, 0xAA, 0xAA, 0x01, // src MAC
        0x08, 0x06, // ARP
        0x00, 0x01, 0x08, 0x00, 0x06, 0x04, 0x00, 0x02, // op=2
        0xAA, 0xAA, 0xAA, 0xAA, 0xAA, 0x01, // sender MAC
        192, 168, 1, 1, // sender IP
        0xBB, 0xBB, 0xBB, 0xBB, 0xBB, 0x02, // target MAC
        192, 168, 1, 2, // target IP
    ];
    frame.extend(std::iter::repeat(0u8).take(18));
    let len = frame.len() as u32;
    let input = pcap_le(1, &[(0, 0, len, len, frame)]);
    let v = parsed(&process_packet(&input));
    let info: serde_json::Value =
        serde_json::from_str(v["packets"][0]["info"].as_str().unwrap()).unwrap();
    assert_eq!(
        info["summary"],
        "ARP reply 192.168.1.1 is-at AA:AA:AA:AA:AA:01 (AA:AA:AA:AA:AA:01 \u{2192} BB:BB:BB:BB:BB:02)"
    );
}

#[test]
fn sctp_ports_attached() {
    let mut pkt = vec![
        0x45, 0x00, 0x00, 0x20, 0x00, 0x00, 0x00, 0x00, 0x40, 0x84, 0x00, 0x00, 0x0A, 0x00, 0x00,
        0x01, 0x0A, 0x00, 0x00, 0x02,
    ];
    pkt.extend(vec![0x26, 0x2C, 0x26, 0x2D, 0, 0, 0, 0, 0, 0, 0, 0]);
    let len = pkt.len() as u32;
    let input = pcap_le(101, &[(0, 0, len, len, pkt)]);
    let v = parsed(&process_packet(&input));
    assert_eq!(v["packets"][0]["protocol"], "SCTP");
    assert_eq!(v["packets"][0]["source"], "10.0.0.1:9772");
    assert_eq!(v["packets"][0]["destination"], "10.0.0.2:9773");
}

#[test]
fn big_endian_pcap_file() {
    let be32v = |v: u32| vec![(v >> 24) as u8, (v >> 16) as u8, (v >> 8) as u8, v as u8];
    // Magic written big-endian: the reader sees 0xD4C3B2A1 little-endian.
    let mut input = vec![0xA1, 0xB2, 0xC3, 0xD4, 0x00, 0x02, 0x00, 0x04];
    input.extend(be32v(0));
    input.extend(be32v(0));
    input.extend(be32v(65535));
    input.extend(be32v(1));
    input.extend(be32v(3)); // ts_sec
    input.extend(be32v(250000)); // ts_frac
    input.extend(be32v(5)); // cap_len
    input.extend(be32v(5)); // orig_len
    input.extend(vec![1, 2, 3, 4, 5]);
    let v = parsed(&process_packet(&input));
    assert_eq!(v["packets"][0]["time"], "3.250000");
    assert_eq!(v["packets"][0]["length"], 5);
    assert_eq!(v["errors"].as_array().unwrap().len(), 0);
}
