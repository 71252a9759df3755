//! Capture-file decoding and per-packet protocol summaries.
//!
//! The library ingests an opaque byte buffer believed to contain a network
//! packet capture (legacy PCAP, PCAP-NG, or unstructured bytes), dissects
//! every packet it can find down through link-, network- and transport-layer
//! headers, and renders the outcome as a single JSON document: an ordered
//! list of packet records plus ordered warning and error diagnostics.

pub mod addr;
pub mod bytes;
pub mod dissect;
pub mod json;
pub mod packet;
pub mod pcap;
pub mod pcapng;
pub mod preview;
pub mod proto;
pub mod timefmt;
pub mod strutil;

use vstd::prelude::*;
use vstd::string::StringExecFns;

use crate::packet::create_packet;
use crate::packet::serialize_result;
use crate::packet::spec_create_packet;
use crate::packet::spec_result_json;
use crate::packet::MetaModel;
use crate::packet::Packet;
use crate::packet::PacketMetadata;
use crate::packet::PacketProcessingResult;
use crate::packet::ResultModel;

verus! {

/// Dispatch value naming the recognized capture container formats.
#[derive(Clone, Copy, PartialEq, Eq, Structural, Debug)]
pub enum CaptureFormat {
    Raw,
    Pcap,
    PcapNg,
}

/// Container format implied by the first four bytes of a buffer:
/// the PCAP-NG section-header block type, one of the four legacy PCAP
/// magic numbers (either endianness, microsecond or nanosecond flavor),
/// and anything else (including buffers shorter than four bytes) is raw.
pub open spec fn spec_detect_format(data: Seq<u8>) -> CaptureFormat {
    if data.len() < 4 {
        CaptureFormat::Raw
    } else if data[0] == 0x0Au8 && data[1] == 0x0Du8 && data[2] == 0x0Du8 && data[3] == 0x0Au8 {
        CaptureFormat::PcapNg
    } else if spec_is_pcap_magic(data) {
        CaptureFormat::Pcap
    } else {
        CaptureFormat::Raw
    }
}

/// The four-byte prefixes that identify a legacy PCAP capture, written in
/// file byte order.
pub open spec fn spec_is_pcap_magic(data: Seq<u8>) -> bool {
    &&& data.len() >= 4
    &&& {
        ||| (data[0] == 0xD4u8 && data[1] == 0xC3u8 && data[2] == 0xB2u8 && data[3] == 0xA1u8)
        ||| (data[0] == 0x4Du8 && data[1] == 0x3Cu8 && data[2] == 0xB2u8 && data[3] == 0xA1u8)
        ||| (data[0] == 0xA1u8 && data[1] == 0xB2u8 && data[2] == 0xC3u8 && data[3] == 0xD4u8)
        ||| (data[0] == 0xA1u8 && data[1] == 0xB2u8 && data[2] == 0x3Cu8 && data[3] == 0x4Du8)
    }
}

/// Classify a buffer by its magic bytes alone.
pub fn detect_format(data: &[u8]) -> (r: CaptureFormat)
    ensures
        r == spec_detect_format(data@),
{
    if data.len() < 4 {
        return CaptureFormat::Raw;
    }
    if data[0] == 0x0A && data[1] == 0x0D && data[2] == 0x0D && data[3] == 0x0A {
        return CaptureFormat::PcapNg;
    }
    if (data[0] == 0xD4 && data[1] == 0xC3 && data[2] == 0xB2 && data[3] == 0xA1)
        || (data[0] == 0x4D && data[1] == 0x3C && data[2] == 0xB2 && data[3] == 0xA1)
        || (data[0] == 0xA1 && data[1] == 0xB2 && data[2] == 0xC3 && data[3] == 0xD4)
        || (data[0] == 0xA1 && data[1] == 0xB2 && data[2] == 0x3C && data[3] == 0x4D) {
        return CaptureFormat::Pcap;
    }
    CaptureFormat::Raw
}

/// The summary line of a raw (undecoded) payload.
pub open spec fn spec_raw_summary(len: nat) -> Seq<char> {
    if len == 1 {
        "Raw payload (1 byte)"@
    } else {
        "Raw payload ("@ + crate::strutil::spec_dec(len) + " bytes)"@
    }
}

/// The result of treating a buffer as a raw payload: empty input yields an
/// empty result (no warning here; the top-level empty check warns), anything
/// else exactly one packet from an `upload` pseudo-source.
pub open spec fn spec_raw_result(data: Seq<u8>) -> ResultModel {
    if data.len() == 0 {
        ResultModel {
            packets: Seq::empty(),
            warnings: Seq::empty(),
            errors: Seq::empty(),
        }
    } else {
        let meta = MetaModel {
            time: "0.000000"@,
            source: "upload"@,
            destination: "\u{2014}"@,
            protocol: "RAW"@,
            summary: spec_raw_summary(data.len()),
            length: data.len(),
        };
        ResultModel {
            packets: seq![spec_create_packet(meta, data)],
            warnings: Seq::empty(),
            errors: Seq::empty(),
        }
    }
}

/// Wrap a buffer as a single raw packet record.
pub fn process_raw_payload(data: &[u8]) -> (r: PacketProcessingResult)
    ensures
        r@ == spec_raw_result(data@),
{
    if data.is_empty() {
        let r = PacketProcessingResult {
            packets: Vec::new(),
            warnings: Vec::new(),
            errors: Vec::new(),
        };
        proof {
            assert(r@ =~= spec_raw_result(data@));
        }
        return r;
    }
    let summary = if data.len() == 1 {
        String::from_str("Raw payload (1 byte)")
    } else {
        let mut s = String::from_str("Raw payload (");
        crate::strutil::append_u64_dec(&mut s, data.len() as u64);
        s.append(" bytes)");
        proof {
            assert(s@ =~= spec_raw_summary(data@.len()));
        }
        s
    };
    let packet = create_packet(
        PacketMetadata {
            time: String::from_str("0.000000"),
            source: String::from_str("upload"),
            destination: String::from_str("\u{2014}"),
            protocol: String::from_str("RAW"),
            summary,
            length: data.len(),
        },
        data,
    );
    let mut packets: Vec<Packet> = Vec::new();
    packets.push(packet);
    let r = PacketProcessingResult { packets, warnings: Vec::new(), errors: Vec::new() };
    proof {
        assert(r@.packets =~= spec_raw_result(data@).packets);
        assert(r@ =~= spec_raw_result(data@));
    }
    r
}

/// The processing result for an arbitrary input buffer: an empty buffer
/// yields only the `Empty payload provided` warning; otherwise the format
/// detected by magic bytes chooses the decoder, and a decoder that rejects
/// its input falls back to the raw view with the rejection in `errors`.
pub open spec fn spec_process_result(data: Seq<u8>) -> ResultModel {
    if data.len() == 0 {
        ResultModel {
            packets: Seq::empty(),
            warnings: seq!["Empty payload provided"@],
            errors: Seq::empty(),
        }
    } else {
        match spec_detect_format(data) {
            CaptureFormat::Pcap => match crate::pcap::spec_parse_pcap_header(data) {
                Ok(h) => {
                    let decoded = crate::pcap::spec_pcap_records(data, h, 24, 0);
                    ResultModel { packets: decoded.0, warnings: decoded.1, errors: Seq::empty() }
                },
                Err(e) => {
                    let raw = spec_raw_result(data);
                    ResultModel { errors: raw.errors.push(e), ..raw }
                },
            },
            CaptureFormat::PcapNg => match crate::pcapng::spec_ng_first_error(data) {
                None => {
                    let decoded = crate::pcapng::spec_ng_blocks(data, 0, false, Seq::empty(), 0);
                    ResultModel { packets: decoded.0, warnings: decoded.1, errors: Seq::empty() }
                },
                Some(e) => {
                    let raw = spec_raw_result(data);
                    ResultModel { errors: raw.errors.push(e), ..raw }
                },
            },
            CaptureFormat::Raw => spec_raw_result(data),
        }
    }
}

/// The JSON document the entry point returns for an input buffer.
pub open spec fn spec_process_packet(data: Seq<u8>) -> Seq<char> {
    spec_result_json(spec_process_result(data))
}

/// Decode a capture buffer and render the analysis as one JSON document.
pub fn process_packet(data: &[u8]) -> (r: String)
    ensures
        r@ == spec_process_packet(data@),
{
    let result: PacketProcessingResult;
    if data.is_empty() {
        let mut warnings: Vec<String> = Vec::new();
        warnings.push(String::from_str("Empty payload provided"));
        result = PacketProcessingResult { packets: Vec::new(), warnings, errors: Vec::new() };
        proof {
            assert(result@.warnings =~= spec_process_result(data@).warnings);
            assert(result@ =~= spec_process_result(data@));
        }
    } else {
        match detect_format(data) {
            CaptureFormat::Pcap => match crate::pcap::process_pcap(data) {
                Ok(res) => {
                    result = res;
                    proof {
                        assert(result@ =~= spec_process_result(data@));
                    }
                },
                Err(err) => {
                    let mut fallback = process_raw_payload(data);
                    fallback.errors.push(err);
                    result = fallback;
                    proof {
                        assert(result@.errors =~= spec_process_result(data@).errors);
                        assert(result@ =~= spec_process_result(data@));
                    }
                },
            },
            CaptureFormat::PcapNg => match crate::pcapng::process_pcapng(data) {
                Ok(res) => {
                    result = res;
                    proof {
                        assert(result@ =~= spec_process_result(data@));
                    }
                },
                Err(err) => {
                    let mut fallback = process_raw_payload(data);
                    fallback.errors.push(err);
                    result = fallback;
                    proof {
                        assert(result@.errors =~= spec_process_result(data@).errors);
                        assert(result@ =~= spec_process_result(data@));
                    }
                },
            },
            CaptureFormat::Raw => {
                result = process_raw_payload(data);
            },
        }
    }
    serialize_result(&result)
}

/// Every packet record the pipeline emits is well formed: its `length`
/// equals the number of payload bytes it carries, and its `info` field is
/// the embedded JSON document built from the same time, source, destination,
/// protocol and length, with previews of the same payload.
pub proof fn lemma_result_packets_wf(data: Seq<u8>)
    ensures
        forall|i: int|
            0 <= i < spec_process_result(data).packets.len() ==> crate::packet::packet_wf(
                #[trigger] spec_process_result(data).packets[i],
            ),
{
    lemma_raw_result_wf(data);
    if data.len() == 0 {
    } else {
        match spec_detect_format(data) {
            CaptureFormat::Pcap => match crate::pcap::spec_parse_pcap_header(data) {
                Ok(h) => {
                    crate::pcap::lemma_pcap_records_wf(data, h, 24, 0);
                },
                Err(_) => {},
            },
            CaptureFormat::PcapNg => match crate::pcapng::spec_ng_first_error(data) {
                None => {
                    crate::pcapng::lemma_ng_blocks_wf(data, 0, false, Seq::empty(), 0);
                },
                Some(_) => {},
            },
            CaptureFormat::Raw => {},
        }
    }
}

proof fn lemma_raw_result_wf(data: Seq<u8>)
    ensures
        forall|i: int|
            0 <= i < spec_raw_result(data).packets.len() ==> crate::packet::packet_wf(
                #[trigger] spec_raw_result(data).packets[i],
            ),
{
    if data.len() > 0 {
        let meta = MetaModel {
            time: "0.000000"@,
            source: "upload"@,
            destination: "\u{2014}"@,
            protocol: "RAW"@,
            summary: spec_raw_summary(data.len()),
            length: data.len(),
        };
        crate::packet::lemma_create_packet_wf(meta, data);
    }
}

/// Format detection is stable on payloads that carry no capture magic:
/// any nonempty buffer classified as raw decodes to exactly one packet with
/// protocol `RAW`, no warnings and no errors — so feeding such an emitted
/// payload back in reproduces the raw handling.
pub proof fn lemma_raw_detection_stable(data: Seq<u8>)
    requires
        data.len() >= 1,
        spec_detect_format(data) == CaptureFormat::Raw,
    ensures
        spec_process_result(data).packets.len() == 1,
        spec_process_result(data).packets[0].protocol == "RAW"@,
        spec_process_result(data).warnings == Seq::<Seq<char>>::empty(),
        spec_process_result(data).errors == Seq::<Seq<char>>::empty(),
{
}

} // verus!
