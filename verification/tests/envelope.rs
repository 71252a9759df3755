use capreport::process_packet;

fn parsed(out: &str) -> serde_json::Value {
    serde_json::from_str(out).expect("output must parse as JSON")
}

fn info_of(packet: &serde_json::Value) -> serde_json::Value {
    let info = packet["info"].as_str().expect("info is a string");
    serde_json::from_str(info).expect("info must parse as JSON")
}

#[test]
fn empty_input_yields_single_warning() {
    let out = process_packet(&[]);
    assert_eq!(out, "{\"packets\":[],\"warnings\":[\"Empty payload provided\"],\"errors\":[]}");
}

#[test]
fn raw_ping_packet_fields() {
    let out = process_packet(&[0x50, 0x49, 0x4E, 0x47]);
    let v = parsed(&out);
    let packets = v["packets"].as_array().unwrap();
    assert_eq!(packets.len(), 1);
    let p = &packets[0];
    assert_eq!(p["protocol"], "RAW");
    assert_eq!(p["source"], "upload");
    assert_eq!(p["destination"], "\u{2014}");
    assert_eq!(p["length"], 4);
    assert_eq!(p["time"], "0.000000");
    assert_eq!(p["payload"].as_array().unwrap().len(), 4);
    assert_eq!(p["payload"][0], 0x50);
    let info = info_of(p);
    assert_eq!(info["hex_preview"], "50 49 4E 47");
    assert_eq!(info["ascii_preview"], "PING");
    assert_eq!(info["summary"], "Raw payload (4 bytes)");
    assert_eq!(info["info"], info["summary"]);
    assert_eq!(v["warnings"].as_array().unwrap().len(), 0);
    assert_eq!(v["errors"].as_array().unwrap().len(), 0);
}

#[test]
fn single_byte_raw_summary() {
    let out = process_packet(&[0xAB]);
    let v = parsed(&out);
    let info = info_of(&v["packets"][0]);
    assert_eq!(info["summary"], "Raw payload (1 byte)");
    assert_eq!(info["hex_preview"], "AB");
    assert_eq!(info["ascii_preview"], ".");
}

#[test]
fn output_parses_as_json_with_schema_for_assorted_inputs() {
    let corrupt: Vec<u8> = {
        let mut b = vec![0xDE, 0xAD, 0xBE, 0xEF];
        b.extend(std::iter::repeat(0u8).take(20));
        b
    };
    let inputs: Vec<Vec<u8>> = vec![
        vec![],
        vec![0x01],
        vec![0x22, 0x5C, 0x7F, 0x00, 0xFF],
        corrupt,
        vec![0xA1, 0xB2, 0xC3, 0xD4],
        vec![0x0A, 0x0D, 0x0D, 0x0A, 0x00],
    ];
    for input in inputs {
        let out = process_packet(&input);
        let v = parsed(&out);
        for p in v["packets"].as_array().expect("packets is an array") {
            let obj = p.as_object().unwrap();
            assert_eq!(obj.len(), 7);
            assert!(p["time"].is_string());
            assert!(p["source"].is_string());
            assert!(p["destination"].is_string());
            assert!(p["protocol"].is_string());
            assert!(p["length"].is_u64());
            assert!(p["info"].is_string());
            assert!(p["payload"].is_array());
            // Every emitted packet's length counts its payload bytes.
            assert_eq!(p["length"].as_u64().unwrap() as usize, p["payload"].as_array().unwrap().len());
            // The embedded document repeats the outer fields.
            let info = info_of(p);
            assert_eq!(info["time"], p["time"]);
            assert_eq!(info["src"], p["source"]);
            assert_eq!(info["dst"], p["destination"]);
            assert_eq!(info["protocol"], p["protocol"]);
            assert_eq!(info["length"], p["length"]);
        }
        for w in v["warnings"].as_array().expect("warnings is an array") {
            assert!(w.is_string());
        }
        for e in v["errors"].as_array().expect("errors is an array") {
            assert!(e.is_string());
        }
    }
}

#[test]
fn corrupt_magic_is_raw_not_error() {
    let mut input = vec![0xDE, 0xAD, 0xBE, 0xEF];
    input.extend(std::iter::repeat(0u8).take(20));
    let out = process_packet(&input);
    let v = parsed(&out);
    assert_eq!(v["packets"].as_array().unwrap().len(), 1);
    assert_eq!(v["packets"][0]["protocol"], "RAW");
    assert_eq!(v["errors"].as_array().unwrap().len(), 0);
}

#[test]
fn short_pcap_magic_is_error_with_raw_fallback() {
    let input = vec![0xA1, 0xB2, 0xC3, 0xD4, 0x00, 0x00];
    let out = process_packet(&input);
    let v = parsed(&out);
    assert_eq!(v["packets"].as_array().unwrap().len(), 1);
    assert_eq!(v["packets"][0]["protocol"], "RAW");
    assert_eq!(v["errors"][0], "PCAP data is too short");
}

#[test]
fn emitted_payload_refed_alone_is_raw() {
    // An Ethernet frame taken out of a capture starts with a MAC address,
    // not capture magic, so feeding it back in must take the raw path.
    let frame: Vec<u8> = vec![
        0xAA, 0xBB, 0xCC, 0xDD, 0xEE, 0x02, 0xAA, 0xBB, 0xCC, 0xDD, 0xEE, 0x01, 0x08, 0x00, 0x45,
        0x00, 0x00, 0x1C, 0x00, 0x00, 0x00, 0x00, 0x40, 0x11, 0x00, 0x00, 0x0A, 0x00, 0x00, 0x01,
        0x0A, 0x00, 0x00, 0x02, 0x03, 0xE8, 0x07, 0xD0, 0x00, 0x08, 0x00, 0x00,
    ];
    let out = process_packet(&frame);
    let v = parsed(&out);
    assert_eq!(v["packets"].as_array().unwrap().len(), 1);
    assert_eq!(v["packets"][0]["protocol"], "RAW");
}
