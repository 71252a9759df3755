use capreport::process_packet;

fn parsed(out: &str) -> serde_json::Value {
    serde_json::from_str(out).expect("output must parse as JSON")
}

fn le32(v: u32) -> Vec<u8> {
    vec![v as u8, (v >> 8) as u8, (v >> 16) as u8, (v >> 24) as u8]
}

fn shb_le() -> Vec<u8> {
    let mut b = vec![0x0A, 0x0D, 0x0D, 0x0A];
    b.extend(le32(28));
    b.extend(vec![0x4D, 0x3C, 0x2B, 0x1A]); // little-endian byte-order magic
    b.extend(vec![0x01, 0x00, 0x00, 0x00]); // version 1.0
    b.extend(vec![0xFF; 8]); // section length unknown
    b.extend(le32(28));
    b
}

/// Interface Description block with raw option bytes.
fn idb_le(linktype: u16, options: &[u8]) -> Vec<u8> {
    let total = 20 + options.len() as u32;
    let mut b = vec![0x01, 0x00, 0x00, 0x00];
    b.extend(le32(total));
    b.extend(vec![linktype as u8, (linktype >> 8) as u8, 0, 0]);
    b.extend(le32(0x40000)); // snaplen
    b.extend(options.iter().copied());
    b.extend(le32(total));
    b
}

fn epb_le(if_id: u32, ts_high: u32, ts_low: u32, caplen: u32, origlen: u32, data: &[u8]) -> Vec<u8> {
    let padded = (data.len() + 3) / 4 * 4;
    let total = 32 + padded as u32;
    let mut b = vec![0x06, 0x00, 0x00, 0x00];
    b.extend(le32(total));
    b.extend(le32(if_id));
    b.extend(le32(ts_high));
    b.extend(le32(ts_low));
    b.extend(le32(caplen));
    b.extend(le32(origlen));
    b.extend(data.iter().copied());
    b.extend(std::iter::repeat(0u8).take(padded - data.len()));
    b.extend(le32(total));
    b
}

fn spb_le(origlen: u32, data: &[u8]) -> Vec<u8> {
    let padded = (data.len() + 3) / 4 * 4;
    let total = 16 + padded as u32;
    let mut b = vec![0x03, 0x00, 0x00, 0x00];
    b.extend(le32(total));
    b.extend(le32(origlen));
    b.extend(data.iter().copied());
    b.extend(std::iter::repeat(0u8).take(padded - data.len()));
    b.extend(le32(total));
    b
}

#[test]
fn enhanced_packet_with_default_resolution() {
    let mut input = shb_le();
    input.extend(idb_le(1, &[]));
    input.extend(epb_le(0, 0, 1_500_000, 5, 5, &[1, 2, 3, 4, 5]));
    let v = parsed(&process_packet(&input));
    let p = &v["packets"][0];
    assert_eq!(p["time"], "1.500000");
    assert_eq!(p["protocol"], "LINKTYPE 1");
    assert_eq!(p["length"], 5);
    assert_eq!(v["warnings"].as_array().unwrap().len(), 0);
    assert_eq!(v["errors"].as_array().unwrap().len(), 0);
}

#[test]
fn tsresol_option_nanoseconds() {
    // if_tsresol (code 9, length 1, value 9), padded to four bytes.
    let opts = vec![0x09, 0x00, 0x01, 0x00, 0x09, 0x00, 0x00, 0x00];
    let mut input = shb_le();
    input.extend(idb_le(1, &opts));
    input.extend(epb_le(0, 0, 1_500_000_007, 5, 5, &[1, 2, 3, 4, 5]));
    let v = parsed(&process_packet(&input));
    assert_eq!(v["packets"][0]["time"], "1.500000007");
}

#[test]
fn tsresol_power_of_two_uses_float_rendering() {
    // if_tsresol = 0x90: 2^16 ticks per second.
    let opts = vec![0x09, 0x00, 0x01, 0x00, 0x90, 0x00, 0x00, 0x00];
    let mut input = shb_le();
    input.extend(idb_le(1, &opts));
    input.extend(epb_le(0, 0, 65536 + 7, 5, 5, &[1, 2, 3, 4, 5]));
    let v = parsed(&process_packet(&input));
    let expected = format!("{:.6}", 1f64 + 7f64 / 65536f64);
    assert_eq!(v["packets"][0]["time"].as_str().unwrap(), expected);
}

#[test]
fn section_header_resets_interface_table() {
    // The second section has no interface description, so its enhanced
    // packet must not see the first section's interface.
    let mut input = shb_le();
    input.extend(idb_le(1, &[]));
    input.extend(shb_le());
    input.extend(epb_le(0, 0, 0, 4, 4, &[1, 2, 3, 4]));
    let v = parsed(&process_packet(&input));
    assert_eq!(v["packets"].as_array().unwrap().len(), 0);
    assert_eq!(v["warnings"][0], "Enhanced packet 1 references unknown interface 0");

    // Control: without the second section header the same packet decodes.
    let mut control = shb_le();
    control.extend(idb_le(1, &[]));
    control.extend(epb_le(0, 0, 0, 4, 4, &[1, 2, 3, 4]));
    let v2 = parsed(&process_packet(&control));
    assert_eq!(v2["packets"].as_array().unwrap().len(), 1);
    assert_eq!(v2["warnings"].as_array().unwrap().len(), 0);
}

#[test]
fn unknown_interface_reference_warns_and_skips() {
    let mut input = shb_le();
    input.extend(idb_le(1, &[]));
    input.extend(epb_le(5, 0, 0, 4, 4, &[1, 2, 3, 4]));
    input.extend(epb_le(0, 0, 0, 4, 4, &[1, 2, 3, 4]));
    let v = parsed(&process_packet(&input));
    assert_eq!(v["packets"].as_array().unwrap().len(), 1);
    assert_eq!(v["warnings"][0], "Enhanced packet 1 references unknown interface 5");
}

#[test]
fn simple_packet_without_interface_uses_defaults() {
    let mut input = shb_le();
    input.extend(spb_le(4, &[1, 2, 3, 4]));
    let v = parsed(&process_packet(&input));
    let p = &v["packets"][0];
    assert_eq!(p["time"], "0.000000");
    assert_eq!(p["protocol"], "LINKTYPE 1");
    assert_eq!(p["length"], 4);
    assert_eq!(v["warnings"].as_array().unwrap().len(), 0);
}

#[test]
fn simple_packet_truncation_inferred_from_origlen() {
    let mut input = shb_le();
    input.extend(spb_le(100, &[1, 2, 3, 4]));
    let v = parsed(&process_packet(&input));
    assert_eq!(v["warnings"][0], "Packet 1 truncated (captured 4 of 100 bytes)");
    let info: serde_json::Value =
        serde_json::from_str(v["packets"][0]["info"].as_str().unwrap()).unwrap();
    assert!(info["summary"].as_str().unwrap().ends_with(" [truncated]"));
}

#[test]
fn enhanced_packet_truncation_warns() {
    let mut input = shb_le();
    input.extend(idb_le(1, &[]));
    input.extend(epb_le(0, 0, 0, 4, 90, &[1, 2, 3, 4]));
    let v = parsed(&process_packet(&input));
    assert_eq!(v["warnings"][0], "Packet 1 truncated (captured 4 of 90 bytes)");
}

#[test]
fn unrecognized_block_kinds_are_skipped() {
    let mut input = shb_le();
    input.extend(idb_le(1, &[]));
    // A block of type 0x99 with a 4-byte body.
    let mut other = vec![0x99, 0x00, 0x00, 0x00];
    other.extend(le32(16));
    other.extend(vec![0xDE, 0xAD, 0xBE, 0xEF]);
    other.extend(le32(16));
    input.extend(other);
    input.extend(epb_le(0, 0, 0, 4, 4, &[1, 2, 3, 4]));
    let v = parsed(&process_packet(&input));
    assert_eq!(v["packets"].as_array().unwrap().len(), 1);
    assert_eq!(v["warnings"].as_array().unwrap().len(), 0);
}

#[test]
fn midstream_truncated_block_stops_with_warning() {
    let mut input = shb_le();
    input.extend(idb_le(1, &[]));
    input.extend(epb_le(0, 0, 0, 4, 4, &[1, 2, 3, 4]));
    input.extend(vec![0x06, 0x00, 0x00, 0x00, 0xFF, 0xFF]); // cut-off block
    let v = parsed(&process_packet(&input));
    assert_eq!(v["packets"].as_array().unwrap().len(), 1);
    assert_eq!(v["warnings"][0], "Incomplete PCAPNG data");
    assert_eq!(v["errors"].as_array().unwrap().len(), 0);
}

#[test]
fn bad_byte_order_magic_is_error_with_raw_fallback() {
    let mut input = vec![0x0A, 0x0D, 0x0D, 0x0A];
    input.extend(le32(28));
    input.extend(vec![0x00, 0x11, 0x22, 0x33]); // not a byte-order magic
    input.extend(vec![0x00; 16]);
    let v = parsed(&process_packet(&input));
    assert_eq!(v["errors"][0], "Header not recognized as PCAP or PCAPNG");
    assert_eq!(v["packets"][0]["protocol"], "RAW");
}

#[test]
fn big_endian_section_decodes() {
    let be32v = |v: u32| vec![(v >> 24) as u8, (v >> 16) as u8, (v >> 8) as u8, v as u8];
    let mut input = vec![0x0A, 0x0D, 0x0D, 0x0A];
    input.extend(be32v(28));
    input.extend(vec![0x1A, 0x2B, 0x3C, 0x4D]); // big-endian byte-order magic
    input.extend(vec![0x00, 0x01, 0x00, 0x00]);
    input.extend(vec![0xFF; 8]);
    input.extend(be32v(28));
    // IDB, big-endian fields
    input.extend(vec![0x00, 0x00, 0x00, 0x01]);
    input.extend(be32v(20));
    input.extend(vec![0x00, 0x01, 0x00, 0x00]); // linktype 1
    input.extend(be32v(0x40000));
    input.extend(be32v(20));
    // EPB, big-endian fields
    input.extend(vec![0x00, 0x00, 0x00, 0x06]);
    input.extend(be32v(36));
    input.extend(be32v(0)); // if_id
    input.extend(be32v(0)); // ts_high
    input.extend(be32v(2_250_000)); // ts_low
    input.extend(be32v(4)); // caplen
    input.extend(be32v(4)); // origlen
    input.extend(vec![1, 2, 3, 4]);
    input.extend(be32v(36));
    let v = parsed(&process_packet(&input));
    let p = &v["packets"][0];
    assert_eq!(p["time"], "2.250000");
    assert_eq!(p["length"], 4);
    assert_eq!(v["warnings"].as_array().unwrap().len(), 0);
}

#[test]
fn tsoffset_option_shifts_seconds() {
    // if_tsoffset (code 14, length 8, value 100 little-endian).
    let mut opts = vec![0x0E, 0x00, 0x08, 0x00];
    opts.extend(vec![100, 0, 0, 0, 0, 0, 0, 0]);
    let mut input = shb_le();
    input.extend(idb_le(1, &opts));
    input.extend(epb_le(0, 0, 2_500_000, 5, 5, &[1, 2, 3, 4, 5]));
    let v = parsed(&process_packet(&input));
    assert_eq!(v["packets"][0]["time"], "102.500000");
}
