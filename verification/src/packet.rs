//! Packet records and the JSON envelope. A `Packet` carries the rendered
//! metadata, the captured bytes, and an `info` field that is itself a JSON
//! document describing the same packet (double-encoded on purpose: the
//! consumer decodes it on demand). `serialize_result` renders the whole
//! processing result as one JSON document whose exact text is pinned by
//! spec functions.

use vstd::prelude::*;
use vstd::string::StringExecFns;

use crate::json::append_json_byte_array;
use crate::json::append_json_str;
use crate::json::append_json_string_array;
use crate::json::json_byte_list;
use crate::json::json_str;
use crate::json::json_string_list;
use crate::preview::build_ascii_preview;
use crate::preview::build_hex_preview;
use crate::preview::spec_ascii_preview;
use crate::preview::spec_hex_preview;
use crate::strutil::spec_dec;

verus! {

/// Metadata consumed by the `Packet` constructor.
pub struct PacketMetadata {
    pub time: String,
    pub source: String,
    pub destination: String,
    pub protocol: String,
    pub summary: String,
    pub length: usize,
}

/// The mathematical content of a `PacketMetadata`.
#[verifier::ext_equal]
pub ghost struct MetaModel {
    pub time: Seq<char>,
    pub source: Seq<char>,
    pub destination: Seq<char>,
    pub protocol: Seq<char>,
    pub summary: Seq<char>,
    pub length: nat,
}

impl View for PacketMetadata {
    type V = MetaModel;

    open spec fn view(&self) -> MetaModel {
        MetaModel {
            time: self.time@,
            source: self.source@,
            destination: self.destination@,
            protocol: self.protocol@,
            summary: self.summary@,
            length: self.length as nat,
        }
    }
}

/// One decoded packet, ready for serialization.
pub struct Packet {
    pub time: String,
    pub source: String,
    pub destination: String,
    pub protocol: String,
    pub length: usize,
    pub info: String,
    pub payload: Vec<u8>,
}

/// The mathematical content of a `Packet`.
#[verifier::ext_equal]
pub ghost struct PacketModel {
    pub time: Seq<char>,
    pub source: Seq<char>,
    pub destination: Seq<char>,
    pub protocol: Seq<char>,
    pub length: nat,
    pub info: Seq<char>,
    pub payload: Seq<u8>,
}

impl View for Packet {
    type V = PacketModel;

    open spec fn view(&self) -> PacketModel {
        PacketModel {
            time: self.time@,
            source: self.source@,
            destination: self.destination@,
            protocol: self.protocol@,
            length: self.length as nat,
            info: self.info@,
            payload: self.payload@,
        }
    }
}

/// The aggregate handed back to the caller: packets, warnings and errors,
/// each in discovery order.
pub struct PacketProcessingResult {
    pub packets: Vec<Packet>,
    pub warnings: Vec<String>,
    pub errors: Vec<String>,
}

/// The mathematical content of a `PacketProcessingResult`.
#[verifier::ext_equal]
pub ghost struct ResultModel {
    pub packets: Seq<PacketModel>,
    pub warnings: Seq<Seq<char>>,
    pub errors: Seq<Seq<char>>,
}

impl View for PacketProcessingResult {
    type V = ResultModel;

    open spec fn view(&self) -> ResultModel {
        ResultModel {
            packets: self.packets@.map_values(|p: Packet| p@),
            warnings: self.warnings@.map_values(|s: String| s@),
            errors: self.errors@.map_values(|s: String| s@),
        }
    }
}

/// The JSON document embedded in a packet's `info` field: the summary text
/// (twice, as `info` and `summary`), the metadata fields, and hex and ASCII
/// previews of the payload.
pub open spec fn spec_summary_json(meta: MetaModel, hex: Seq<char>, ascii: Seq<char>) -> Seq<
    char,
> {
    "{\"info\":"@ + json_str(meta.summary) + ",\"summary\":"@ + json_str(meta.summary)
        + ",\"time\":"@ + json_str(meta.time) + ",\"src\":"@ + json_str(meta.source) + ",\"dst\":"@
        + json_str(meta.destination) + ",\"protocol\":"@ + json_str(meta.protocol)
        + ",\"length\":"@ + spec_dec(meta.length) + ",\"hex_preview\":"@ + json_str(hex)
        + ",\"ascii_preview\":"@ + json_str(ascii) + "}"@
}

/// The packet a metadata record and a payload assemble into: every field is
/// carried over, and `info` is the JSON text of `spec_summary_json` over the
/// same metadata with previews of the same payload.
pub open spec fn spec_create_packet(meta: MetaModel, payload: Seq<u8>) -> PacketModel {
    PacketModel {
        time: meta.time,
        source: meta.source,
        destination: meta.destination,
        protocol: meta.protocol,
        length: meta.length,
        info: spec_summary_json(
            meta,
            spec_hex_preview(payload, 32),
            spec_ascii_preview(payload, 32),
        ),
        payload,
    }
}

/// Assemble a packet record from its metadata and captured bytes.
pub fn create_packet(meta: PacketMetadata, payload: &[u8]) -> (p: Packet)
    ensures
        p@ == spec_create_packet(meta@, payload@),
{
    let hex_preview = build_hex_preview(payload, 32);
    let ascii_preview = build_ascii_preview(payload, 32);
    let mut info = String::from_str("{\"info\":");
    append_json_str(&mut info, meta.summary.as_str());
    info.append(",\"summary\":");
    append_json_str(&mut info, meta.summary.as_str());
    info.append(",\"time\":");
    append_json_str(&mut info, meta.time.as_str());
    info.append(",\"src\":");
    append_json_str(&mut info, meta.source.as_str());
    info.append(",\"dst\":");
    append_json_str(&mut info, meta.destination.as_str());
    info.append(",\"protocol\":");
    append_json_str(&mut info, meta.protocol.as_str());
    info.append(",\"length\":");
    crate::strutil::append_u64_dec(&mut info, meta.length as u64);
    info.append(",\"hex_preview\":");
    append_json_str(&mut info, hex_preview.as_str());
    info.append(",\"ascii_preview\":");
    append_json_str(&mut info, ascii_preview.as_str());
    info.append("}");
    proof {
        assert(info@ =~= spec_summary_json(
            meta@,
            spec_hex_preview(payload@, 32),
            spec_ascii_preview(payload@, 32),
        ));
    }
    let p = Packet {
        time: meta.time,
        source: meta.source,
        destination: meta.destination,
        protocol: meta.protocol,
        length: meta.length,
        info,
        payload: vstd::slice::slice_to_vec(payload),
    };
    p
}

/// A well-formed packet record: its `length` counts exactly its payload
/// bytes, and its `info` field is the summary document built from the same
/// time, addresses, protocol and length, with previews of the same payload.
pub open spec fn packet_wf(p: PacketModel) -> bool {
    &&& p.length == p.payload.len()
    &&& exists|s: Seq<char>|
        p.info == spec_summary_json(
            MetaModel {
                time: p.time,
                source: p.source,
                destination: p.destination,
                protocol: p.protocol,
                summary: s,
                length: p.length,
            },
            spec_hex_preview(p.payload, 32),
            spec_ascii_preview(p.payload, 32),
        )
}

/// Every packet assembled from metadata whose length counts its payload
/// bytes is well formed.
pub proof fn lemma_create_packet_wf(meta: MetaModel, payload: Seq<u8>)
    requires
        meta.length == payload.len(),
    ensures
        packet_wf(spec_create_packet(meta, payload)),
{
    let p = spec_create_packet(meta, payload);
    let m2 = MetaModel {
        time: p.time,
        source: p.source,
        destination: p.destination,
        protocol: p.protocol,
        summary: meta.summary,
        length: p.length,
    };
    assert(m2 == meta);
    assert(p.info == spec_summary_json(
        m2,
        spec_hex_preview(p.payload, 32),
        spec_ascii_preview(p.payload, 32),
    ));
}

/// The JSON text of one packet record.
pub open spec fn spec_packet_json(p: PacketModel) -> Seq<char> {
    "{\"time\":"@ + json_str(p.time) + ",\"source\":"@ + json_str(p.source) + ",\"destination\":"@
        + json_str(p.destination) + ",\"protocol\":"@ + json_str(p.protocol) + ",\"length\":"@
        + spec_dec(p.length) + ",\"info\":"@ + json_str(p.info) + ",\"payload\":"@ + seq!['[']
        + json_byte_list(p.payload) + seq![']'] + "}"@
}

/// The comma-joined JSON texts of a sequence of packets.
pub open spec fn spec_packet_list(ps: Seq<PacketModel>) -> Seq<char>
    decreases ps.len(),
{
    if ps.len() == 0 {
        Seq::empty()
    } else if ps.len() == 1 {
        spec_packet_json(ps[0])
    } else {
        spec_packet_list(ps.drop_last()) + ","@ + spec_packet_json(ps.last())
    }
}

/// The complete JSON document for a processing result.
pub open spec fn spec_result_json(r: ResultModel) -> Seq<char> {
    "{\"packets\":["@ + spec_packet_list(r.packets) + "],\"warnings\":"@ + seq!['[']
        + json_string_list(r.warnings) + seq![']'] + ",\"errors\":"@ + seq!['[']
        + json_string_list(r.errors) + seq![']'] + "}"@
}

fn append_packet_json(out: &mut String, p: &Packet)
    ensures
        final(out)@ == old(out)@ + spec_packet_json(p@),
{
    out.append("{\"time\":");
    append_json_str(out, p.time.as_str());
    out.append(",\"source\":");
    append_json_str(out, p.source.as_str());
    out.append(",\"destination\":");
    append_json_str(out, p.destination.as_str());
    out.append(",\"protocol\":");
    append_json_str(out, p.protocol.as_str());
    out.append(",\"length\":");
    crate::strutil::append_u64_dec(out, p.length as u64);
    out.append(",\"info\":");
    append_json_str(out, p.info.as_str());
    out.append(",\"payload\":");
    append_json_byte_array(out, p.payload.as_slice());
    out.append("}");
    proof {
        assert(out@ =~= old(out)@ + spec_packet_json(p@));
    }
}

/// Serialize a processing result as one JSON document.
pub fn serialize_result(result: &PacketProcessingResult) -> (s: String)
    ensures
        s@ == spec_result_json(result@),
{
    let ghost packets = result@.packets;
    let mut s = String::from_str("{\"packets\":[");
    let n = result.packets.len();
    let mut i: usize = 0;
    while i < n
        invariant
            n == result.packets@.len(),
            packets == result@.packets,
            i <= n,
            s@ == "{\"packets\":["@ + spec_packet_list(packets.take(i as int)),
        decreases n - i,
    {
        if i > 0 {
            s.append(",");
        }
        append_packet_json(&mut s, &result.packets[i]);
        proof {
            assert(packets.take(i as int + 1).drop_last() =~= packets.take(i as int));
            assert(packets.take(i as int + 1).last() == result.packets@[i as int]@);
            assert(s@ =~= "{\"packets\":["@ + spec_packet_list(packets.take(i as int + 1)));
        }
        i = i + 1;
    }
    proof {
        assert(packets.take(n as int) =~= packets);
    }
    s.append("],\"warnings\":");
    append_json_string_array(&mut s, &result.warnings);
    s.append(",\"errors\":");
    append_json_string_array(&mut s, &result.errors);
    s.append("}");
    proof {
        assert(s@ =~= spec_result_json(result@));
    }
    s
}

} // verus!
