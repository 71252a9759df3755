//! The legacy PCAP decoder: a 24-byte global header (magic number fixing
//! byte order and timestamp resolution, timezone offset, link type) followed
//! by 16-byte record headers and their payloads. A record whose declared
//! capture length overruns the buffer stops decoding with a warning; records
//! shorter than their original length are marked truncated.

use vstd::prelude::*;
use vstd::string::StringExecFns;

use crate::bytes::be32;
use crate::bytes::le32;
use crate::bytes::spec_be32;
use crate::bytes::spec_le32;
use crate::dissect::analyze_payload;
use crate::dissect::spec_analyze_payload;
use crate::packet::create_packet;
use crate::packet::spec_create_packet;
use crate::packet::MetaModel;
use crate::packet::Packet;
use crate::packet::PacketMetadata;
use crate::packet::PacketModel;
use crate::packet::PacketProcessingResult;
use crate::strutil::spec_dec;
use crate::timefmt::format_timestamp;
use crate::timefmt::spec_format_timestamp;

verus! {

/// Byte order of a legacy PCAP file, fixed by its magic number.
#[derive(Clone, Copy, PartialEq, Eq, Structural)]
pub enum Endianness {
    Little,
    Big,
}

/// A 32-bit field read in the file's byte order.
pub open spec fn spec_read_u32(e: Endianness, b: Seq<u8>, off: int) -> u32 {
    match e {
        Endianness::Little => spec_le32(b, off),
        Endianness::Big => spec_be32(b, off),
    }
}

/// Read a 32-bit field in the file's byte order.
pub fn read_u32(e: Endianness, b: &[u8], off: usize) -> (r: u32)
    requires
        off + 4 <= b@.len(),
    ensures
        r == spec_read_u32(e, b@, off as int),
{
    match e {
        Endianness::Little => le32(b, off),
        Endianness::Big => be32(b, off),
    }
}

/// The signed 32-bit value carried by a raw 32-bit field.
pub open spec fn spec_as_i32(u: u32) -> int {
    if u >= 0x8000_0000 {
        u as int - 0x1_0000_0000
    } else {
        u as int
    }
}

/// What the 24-byte global header announces about the file.
#[derive(Clone, Copy, PartialEq, Eq, Structural)]
pub struct PcapHeaderInfo {
    pub endianness: Endianness,
    pub resolution: u64,
    pub timezone_offset: i64,
    pub linktype: u32,
}

/// Parse the global header: the magic number selects byte order and
/// microsecond or nanosecond resolution; a short buffer or an unknown magic
/// is an error with a fixed message.
pub open spec fn spec_parse_pcap_header(data: Seq<u8>) -> Result<PcapHeaderInfo, Seq<char>> {
    if data.len() < 24 {
        Err("PCAP data is too short"@)
    } else {
        let magic = spec_le32(data, 0);
        if magic == 0xA1B2_C3D4 || magic == 0xA1B2_3C4D || magic == 0xD4C3_B2A1 || magic
            == 0x4D3C_B2A1 {
            let endianness = if magic == 0xA1B2_C3D4 || magic == 0xA1B2_3C4D {
                Endianness::Little
            } else {
                Endianness::Big
            };
            let resolution: u64 = if magic == 0xA1B2_C3D4 || magic == 0xD4C3_B2A1 {
                1_000_000
            } else {
                1_000_000_000
            };
            Ok(
                PcapHeaderInfo {
                    endianness,
                    resolution,
                    timezone_offset: spec_as_i32(spec_read_u32(endianness, data, 8)) as i64,
                    linktype: spec_read_u32(endianness, data, 20),
                },
            )
        } else {
            Err("Unrecognized PCAP header"@)
        }
    }
}

/// Parse the 24-byte global header, returning the header description and
/// the offset of the first record.
pub fn parse_pcap_header(data: &[u8]) -> (r: Result<(PcapHeaderInfo, usize), String>)
    ensures
        match r {
            Ok((h, off)) => spec_parse_pcap_header(data@) == Ok::<PcapHeaderInfo, Seq<char>>(h)
                && off == 24,
            Err(e) => spec_parse_pcap_header(data@) == Err::<PcapHeaderInfo, Seq<char>>(e@),
        },
{
    if data.len() < 24 {
        return Err(String::from_str("PCAP data is too short"));
    }
    let magic = le32(data, 0);
    let (endianness, resolution): (Endianness, u64) = match magic {
        0xA1B2_C3D4 => (Endianness::Little, 1_000_000),
        0xA1B2_3C4D => (Endianness::Little, 1_000_000_000),
        0xD4C3_B2A1 => (Endianness::Big, 1_000_000),
        0x4D3C_B2A1 => (Endianness::Big, 1_000_000_000),
        _ => {
            return Err(String::from_str("Unrecognized PCAP header"));
        },
    };
    let thiszone_raw = read_u32(endianness, data, 8);
    let timezone_offset: i64 = if thiszone_raw >= 0x8000_0000 {
        (thiszone_raw as i64) - 0x1_0000_0000i64
    } else {
        thiszone_raw as i64
    };
    let linktype = read_u32(endianness, data, 20);
    Ok((PcapHeaderInfo { endianness, resolution, timezone_offset, linktype }, 24))
}

/// The warning for a record header whose capture length overruns the buffer.
pub open spec fn spec_overrun_warning(n: nat) -> Seq<char> {
    "Packet "@ + spec_dec(n) + " header exceeds capture length"@
}

fn overrun_warning(n: u64) -> (s: String)
    ensures
        s@ == spec_overrun_warning(n as nat),
{
    let mut s = String::from_str("Packet ");
    crate::strutil::append_u64_dec(&mut s, n);
    s.append(" header exceeds capture length");
    proof {
        assert(s@ =~= spec_overrun_warning(n as nat));
    }
    s
}

/// The warning for a packet whose captured bytes fall short of its original
/// length.
pub open spec fn spec_trunc_warning(n: nat, captured: nat, original: nat) -> Seq<char> {
    "Packet "@ + spec_dec(n) + " truncated (captured "@ + spec_dec(captured) + " of "@ + spec_dec(
        original,
    ) + " bytes)"@
}

/// Build the truncation warning text.
pub fn trunc_warning(n: u64, captured: u64, original: u64) -> (s: String)
    ensures
        s@ == spec_trunc_warning(n as nat, captured as nat, original as nat),
{
    let mut s = String::from_str("Packet ");
    crate::strutil::append_u64_dec(&mut s, n);
    s.append(" truncated (captured ");
    crate::strutil::append_u64_dec(&mut s, captured);
    s.append(" of ");
    crate::strutil::append_u64_dec(&mut s, original);
    s.append(" bytes)");
    proof {
        assert(s@ =~= spec_trunc_warning(n as nat, captured as nat, original as nat));
    }
    s
}

/// The packets and warnings decoded from the records starting at `offset`,
/// with `index` records already decoded before it. Decoding ends quietly
/// when fewer than 16 bytes remain, and with a warning when a record's
/// declared capture length overruns the buffer.
pub open spec fn spec_pcap_records(data: Seq<u8>, h: PcapHeaderInfo, offset: nat, index: nat) -> (
    Seq<PacketModel>,
    Seq<Seq<char>>,
)
    decreases data.len() - offset,
{
    if offset + 16 > data.len() {
        (Seq::empty(), Seq::empty())
    } else {
        let ts_sec = spec_read_u32(h.endianness, data, offset as int);
        let ts_frac = spec_read_u32(h.endianness, data, offset as int + 4);
        let cap_len = spec_read_u32(h.endianness, data, offset as int + 8) as nat;
        let orig_len = spec_read_u32(h.endianness, data, offset as int + 12) as nat;
        if offset + 16 + cap_len > data.len() {
            (Seq::empty(), seq![spec_overrun_warning(index + 1)])
        } else {
            let payload = data.subrange(offset as int + 16, offset as int + 16 + cap_len);
            let analysis = spec_analyze_payload(h.linktype, payload);
            let truncated = orig_len > cap_len;
            let summary = if truncated {
                analysis.summary + " [truncated]"@
            } else {
                analysis.summary
            };
            let meta = MetaModel {
                time: spec_format_timestamp(
                    ts_sec as int + h.timezone_offset as int,
                    ts_frac as nat,
                    h.resolution as nat,
                ),
                source: analysis.source,
                destination: analysis.destination,
                protocol: analysis.protocol,
                summary,
                length: cap_len,
            };
            let pkt = spec_create_packet(meta, payload);
            let rest = spec_pcap_records(data, h, offset + 16 + cap_len, index + 1);
            let warns = if truncated {
                seq![spec_trunc_warning(index + 1, cap_len, orig_len)] + rest.1
            } else {
                rest.1
            };
            (seq![pkt] + rest.0, warns)
        }
    }
}

/// Decode a legacy PCAP buffer: parse the global header, then every record
/// in order. Only an unusable global header is an error; everything after
/// it decodes into packets and warnings.
#[verifier::rlimit(100)]
pub fn process_pcap(data: &[u8]) -> (r: Result<PacketProcessingResult, String>)
    ensures
        match r {
            Ok(res) => match spec_parse_pcap_header(data@) {
                Ok(h) => {
                    &&& res@.packets == spec_pcap_records(data@, h, 24, 0).0
                    &&& res@.warnings == spec_pcap_records(data@, h, 24, 0).1
                    &&& res@.errors == Seq::<Seq<char>>::empty()
                },
                Err(_) => false,
            },
            Err(e) => spec_parse_pcap_header(data@) == Err::<PcapHeaderInfo, Seq<char>>(e@),
        },
{
    let (header, start) = match parse_pcap_header(data) {
        Ok(v) => v,
        Err(e) => {
            return Err(e);
        },
    };
    proof {
        assert(header.resolution >= 1);
    }
    let ghost totals = spec_pcap_records(data@, header, 24, 0);
    let mut packets: Vec<Packet> = Vec::new();
    let mut warnings: Vec<String> = Vec::new();
    let mut offset: usize = start;
    let mut index: usize = 0;
    let mut stopped = false;
    while !stopped && data.len() - offset >= 16
        invariant
            spec_parse_pcap_header(data@) == Ok::<PcapHeaderInfo, Seq<char>>(header),
            header.resolution >= 1,
            totals == spec_pcap_records(data@, header, 24, 0),
            offset <= data@.len(),
            index <= offset,
            !stopped ==> {
                let rest = spec_pcap_records(data@, header, offset as nat, index as nat);
                &&& totals.0 == packets@.map_values(|p: Packet| p@) + rest.0
                &&& totals.1 == warnings@.map_values(|s: String| s@) + rest.1
            },
            stopped ==> {
                &&& totals.0 == packets@.map_values(|p: Packet| p@)
                &&& totals.1 == warnings@.map_values(|s: String| s@)
            },
        decreases data@.len() - offset, 1int - (if stopped { 1int } else { 0int }),
    {
        let ts_sec = read_u32(header.endianness, data, offset);
        let ts_frac = read_u32(header.endianness, data, offset + 4) as u64;
        let cap_len = read_u32(header.endianness, data, offset + 8) as usize;
        let orig_len = read_u32(header.endianness, data, offset + 12) as usize;
        let ghost rest = spec_pcap_records(data@, header, offset as nat, index as nat);
        if data.len() - (offset + 16) < cap_len {
            warnings.push(overrun_warning((index + 1) as u64));
            stopped = true;
            proof {
                assert(rest.0 =~= Seq::<PacketModel>::empty());
                assert(rest.1 =~= seq![spec_overrun_warning(index as nat + 1)]);
                assert(totals.1 =~= warnings@.map_values(|s: String| s@));
            }
        } else {
            let payload: &[u8] = &data[offset + 16..offset + 16 + cap_len];
            let analysis = analyze_payload(header.linktype, payload);
            let mut summary = analysis.summary;
            let truncated = orig_len > cap_len;
            if truncated {
                summary.append(" [truncated]");
                warnings.push(
                    trunc_warning((index + 1) as u64, cap_len as u64, orig_len as u64),
                );
            }
            let timestamp_seconds: i64 = ts_sec as i64 + header.timezone_offset;
            let metadata = PacketMetadata {
                time: format_timestamp(timestamp_seconds, ts_frac, header.resolution),
                source: analysis.source,
                destination: analysis.destination,
                protocol: analysis.protocol,
                summary,
                length: cap_len,
            };
            let pkt = create_packet(metadata, payload);
            packets.push(pkt);
            proof {
                let step = spec_pcap_records(
                    data@,
                    header,
                    offset as nat + 16 + cap_len as nat,
                    index as nat + 1,
                );
                assert(rest.0 =~= seq![packets@.last()@] + step.0);
                assert(packets@.map_values(|p: Packet| p@) =~= packets@.drop_last().map_values(
                    |p: Packet| p@,
                ).push(packets@.last()@));
                assert(totals.0 =~= packets@.map_values(|p: Packet| p@) + step.0);
                if truncated {
                    assert(warnings@.map_values(|s: String| s@) =~= warnings@.drop_last()
                        .map_values(|s: String| s@).push(warnings@.last()@));
                }
                assert(totals.1 =~= warnings@.map_values(|s: String| s@) + step.1);
            }
            offset = offset + 16 + cap_len;
            index = index + 1;
        }
    }
    if !stopped {
        proof {
            let rest = spec_pcap_records(data@, header, offset as nat, index as nat);
            assert(rest.0 =~= Seq::<PacketModel>::empty());
            assert(rest.1 =~= Seq::<Seq<char>>::empty());
            assert(totals.0 =~= packets@.map_values(|p: Packet| p@));
            assert(totals.1 =~= warnings@.map_values(|s: String| s@));
        }
    }
    let result = PacketProcessingResult { packets, warnings, errors: Vec::new() };
    proof {
        assert(result@.errors =~= Seq::<Seq<char>>::empty());
    }
    Ok(result)
}

/// Every packet the legacy decoder emits is well formed: its length counts
/// its payload bytes and its `info` document repeats its own fields.
pub proof fn lemma_pcap_records_wf(data: Seq<u8>, h: PcapHeaderInfo, offset: nat, index: nat)
    ensures
        forall|i: int|
            0 <= i < spec_pcap_records(data, h, offset, index).0.len() ==> crate::packet::packet_wf(
                #[trigger] spec_pcap_records(data, h, offset, index).0[i],
            ),
    decreases data.len() - offset,
{
    if offset + 16 > data.len() {
    } else {
        let cap_len = spec_read_u32(h.endianness, data, offset as int + 8) as nat;
        if offset + 16 + cap_len > data.len() {
        } else {
            lemma_pcap_records_wf(data, h, offset + 16 + cap_len, index + 1);
            let r = spec_pcap_records(data, h, offset, index);
            let rest = spec_pcap_records(data, h, offset + 16 + cap_len, index + 1);
            assert forall|i: int| 0 <= i < r.0.len() implies crate::packet::packet_wf(r.0[i]) by {
                if i == 0 {
                    let ts_sec = spec_read_u32(h.endianness, data, offset as int);
                    let ts_frac = spec_read_u32(h.endianness, data, offset as int + 4);
                    let orig_len = spec_read_u32(h.endianness, data, offset as int + 12) as nat;
                    let payload = data.subrange(offset as int + 16, offset as int + 16 + cap_len);
                    let analysis = spec_analyze_payload(h.linktype, payload);
                    let truncated = orig_len > cap_len;
                    let summary = if truncated {
                        analysis.summary + " [truncated]"@
                    } else {
                        analysis.summary
                    };
                    let meta = MetaModel {
                        time: spec_format_timestamp(
                            ts_sec as int + h.timezone_offset as int,
                            ts_frac as nat,
                            h.resolution as nat,
                        ),
                        source: analysis.source,
                        destination: analysis.destination,
                        protocol: analysis.protocol,
                        summary,
                        length: cap_len,
                    };
                    assert(r.0[0] == spec_create_packet(meta, payload));
                    crate::packet::lemma_create_packet_wf(meta, payload);
                } else {
                    assert(r.0[i] == rest.0[i - 1]);
                }
            }
        }
    }
}

} // verus!
