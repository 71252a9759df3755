//! The PCAP-NG decoder: a stream of length-framed blocks. A Section Header
//! fixes the byte order and resets the interface table; Interface
//! Description blocks append to it; Enhanced and Simple Packet blocks emit
//! packet records; every other block is skipped. The first block must be a
//! valid Section Header, otherwise decoding fails outright; a malformed
//! block later in the stream turns into a warning and stops decoding, and
//! everything decoded before it is kept.

use vstd::prelude::*;
use vstd::string::StringExecFns;

use crate::bytes::be16;
use crate::bytes::be32;
use crate::bytes::le16;
use crate::bytes::le32;
use crate::bytes::le64;
use crate::bytes::spec_be16;
use crate::bytes::spec_be32;
use crate::bytes::spec_le16;
use crate::bytes::spec_le32;
use crate::bytes::spec_le64;
use crate::dissect::analyze_payload;
use crate::dissect::spec_analyze_payload;
use crate::packet::create_packet;
use crate::packet::spec_create_packet;
use crate::packet::MetaModel;
use crate::packet::Packet;
use crate::packet::PacketMetadata;
use crate::packet::PacketModel;
use crate::packet::PacketProcessingResult;
use crate::pcap::spec_trunc_warning;
use crate::pcap::trunc_warning;
use crate::strutil::spec_dec;
use crate::timefmt::format_timestamp;
use crate::timefmt::lemma_pow10_at_least;
use crate::timefmt::lemma_pow10_pos;
use crate::timefmt::spec_format_timestamp;
use crate::timefmt::spec_pow10;

verus! {

/// Per-interface decoding state taken from an Interface Description block.
#[derive(Clone, Copy, PartialEq, Eq, Structural)]
pub struct InterfaceInfo {
    pub linktype: u32,
    pub ts_offset: u64,
    pub ts_resolution: u64,
}

/// The interface assumed for Simple Packet blocks when no Interface
/// Description block precedes them: Ethernet with microsecond resolution.
pub open spec fn spec_default_interface() -> InterfaceInfo {
    InterfaceInfo { linktype: 1, ts_offset: 0, ts_resolution: 1_000_000 }
}

/// A 32-bit field in the section's byte order.
pub open spec fn ng_u32(b: Seq<u8>, off: int, be: bool) -> u32 {
    if be {
        spec_be32(b, off)
    } else {
        spec_le32(b, off)
    }
}

/// A 16-bit field in the section's byte order.
pub open spec fn ng_u16(b: Seq<u8>, off: int, be: bool) -> u16 {
    if be {
        spec_be16(b, off)
    } else {
        spec_le16(b, off)
    }
}

fn read_ng_u32(b: &[u8], off: usize, be: bool) -> (r: u32)
    requires
        off + 4 <= b@.len(),
    ensures
        r == ng_u32(b@, off as int, be),
{
    if be {
        be32(b, off)
    } else {
        le32(b, off)
    }
}

fn read_ng_u16(b: &[u8], off: usize, be: bool) -> (r: u16)
    requires
        off + 2 <= b@.len(),
    ensures
        r == ng_u16(b@, off as int, be),
{
    if be {
        be16(b, off)
    } else {
        le16(b, off)
    }
}

/// Values rounded up to the next multiple of four, as block bodies are
/// padded.
pub open spec fn spec_align4(x: nat) -> nat {
    ((x + 3) / 4) * 4
}

/// Powers of two.
pub open spec fn spec_pow2(d: nat) -> nat
    decreases d,
{
    if d == 0 {
        1
    } else {
        2 * spec_pow2((d - 1) as nat)
    }
}

proof fn lemma_pow2_at_least(d: nat, k: nat)
    requires
        d >= k,
    ensures
        spec_pow2(d) >= spec_pow2(k),
        spec_pow2(k) >= 1,
    decreases d,
{
    if d == 0 {
    } else if d == k {
        lemma_pow2_at_least((d - 1) as nat, (d - 1) as nat);
    } else {
        lemma_pow2_at_least((d - 1) as nat, k);
    }
}

/// The timestamp resolution an `if_tsresol` option byte announces: with the
/// high bit clear, a power of ten; with it set, a power of two of the low
/// seven bits; `None` when the value does not fit in 64 bits.
pub open spec fn spec_build_resolution(tsresol: u8) -> Option<u64> {
    if tsresol < 0x80 {
        if tsresol > 19 {
            None
        } else {
            Some(spec_pow10(tsresol as nat) as u64)
        }
    } else {
        let low = (tsresol - 0x80) as nat;
        if low > 63 {
            None
        } else {
            Some(spec_pow2(low) as u64)
        }
    }
}

fn pow10_u64(k: u8) -> (r: u64)
    requires
        k <= 19,
    ensures
        r as nat == spec_pow10(k as nat),
    decreases k,
{
    proof {
        lemma_decimal_pow_fits(k as nat);
        if k > 0 {
            lemma_decimal_pow_fits((k - 1) as nat);
        }
    }
    if k == 0 {
        1
    } else {
        10 * pow10_u64(k - 1)
    }
}

fn pow2_u64(k: u8) -> (r: u64)
    requires
        k <= 63,
    ensures
        r as nat == spec_pow2(k as nat),
    decreases k,
{
    proof {
        lemma_pow2_fits(k as nat);
        if k > 0 {
            lemma_pow2_fits((k - 1) as nat);
        }
    }
    if k == 0 {
        1
    } else {
        2 * pow2_u64(k - 1)
    }
}

fn build_resolution(tsresol: u8) -> (r: Option<u64>)
    ensures
        r == spec_build_resolution(tsresol),
{
    if tsresol < 0x80 {
        if tsresol > 19 {
            None
        } else {
            Some(pow10_u64(tsresol))
        }
    } else {
        let low = tsresol - 0x80;
        if low > 63 {
            None
        } else {
            Some(pow2_u64(low))
        }
    }
}

/// Scan an Interface Description block's option list for `if_tsresol`
/// (code 9, one byte) and `if_tsoffset` (code 14, eight bytes, read
/// little-endian whatever the section's byte order); a later occurrence
/// overrides an earlier one, and a malformed tail ends the scan quietly.
pub open spec fn spec_idb_options(
    data: Seq<u8>,
    pos: nat,
    end: nat,
    be: bool,
    tsresol: u8,
    tsoffset: u64,
) -> (u8, u64)
    recommends
        end <= data.len(),
    decreases end - pos,
{
    if pos + 4 > end {
        (tsresol, tsoffset)
    } else {
        let code = ng_u16(data, pos as int, be);
        let len = ng_u16(data, pos as int + 2, be);
        let vlen = spec_align4(len as nat);
        if pos + 4 + vlen > end {
            (tsresol, tsoffset)
        } else {
            let tsresol2 = if code == 9 && vlen > 0 {
                data[pos as int + 4]
            } else {
                tsresol
            };
            let tsoffset2 = if code == 14 && vlen >= 8 {
                spec_le64(data, pos as int + 4)
            } else {
                tsoffset
            };
            spec_idb_options(data, pos + 4 + vlen, end, be, tsresol2, tsoffset2)
        }
    }
}

/// The interface an Interface Description block at `off` describes.
pub open spec fn spec_idb_interface(data: Seq<u8>, off: nat, blen: nat, be: bool) -> InterfaceInfo {
    let linktype = ng_u16(data, off as int + 8, be) as u32;
    let (tsresol, tsoffset) = spec_idb_options(data, off + 16, (off + blen - 4) as nat, be, 6, 0);
    let ts_resolution = match spec_build_resolution(tsresol) {
        Some(r) => r,
        None => 1_000_000,
    };
    InterfaceInfo { linktype, ts_offset: tsoffset, ts_resolution }
}

/// What one block parse produces: an error message, or the block's meaning
/// plus the offset of the next block.
pub ghost enum BlockStep {
    Failed { message: Seq<char> },
    Section { next: nat, big_endian: bool },
    Interface { next: nat, info: InterfaceInfo },
    Enhanced {
        next: nat,
        if_id: u32,
        ts_high: u32,
        ts_low: u32,
        caplen: u32,
        origlen: u32,
        payload: Seq<u8>,
    },
    Simple { next: nat, origlen: u32, payload: Seq<u8> },
    Other { next: nat },
}

/// Parse the block at `off` with the current byte order. Framing: a four-
/// byte type, a four-byte total length, the body, and the total length
/// again. Truncated buffers and implausible lengths are errors; Section
/// Headers carry their own byte-order magic.
#[verifier::opaque]
pub open spec fn spec_parse_block(data: Seq<u8>, off: nat, be: bool) -> BlockStep {
    let rem = data.len() - off;
    if rem < 4 {
        BlockStep::Failed { message: "Incomplete PCAPNG data"@ }
    } else {
        let btype = ng_u32(data, off as int, be);
        if btype == 0x0A0D_0D0A {
            // Section Header: byte order from the block's own magic.
            if rem < 12 {
                BlockStep::Failed { message: "Incomplete PCAPNG data"@ }
            } else {
                let bom = spec_le32(data, off as int + 8);
                if bom != 0x1A2B_3C4D && bom != 0x4D3C_2B1A {
                    BlockStep::Failed { message: "Header not recognized as PCAP or PCAPNG"@ }
                } else {
                    let nbe = bom == 0x4D3C_2B1A;
                    if rem < 28 {
                        BlockStep::Failed { message: "Incomplete PCAPNG data"@ }
                    } else {
                        let blen = ng_u32(data, off as int + 4, nbe) as nat;
                        if blen < 28 {
                            BlockStep::Failed { message: "Invalid PCAPNG block"@ }
                        } else if rem < blen {
                            BlockStep::Failed { message: "Incomplete PCAPNG data"@ }
                        } else {
                            BlockStep::Section { next: off + blen, big_endian: nbe }
                        }
                    }
                }
            }
        } else {
            let blen = ng_u32(data, off as int + 4, be) as nat;
            if btype == 1 {
                // Interface Description.
                if rem < 20 {
                    BlockStep::Failed { message: "Incomplete PCAPNG data"@ }
                } else if blen < 20 {
                    BlockStep::Failed { message: "Invalid PCAPNG block"@ }
                } else if rem < blen {
                    BlockStep::Failed { message: "Incomplete PCAPNG data"@ }
                } else if ng_u32(data, off as int + blen - 4, be) as nat != blen {
                    BlockStep::Failed { message: "Invalid PCAPNG block"@ }
                } else {
                    BlockStep::Interface {
                        next: off + blen,
                        info: spec_idb_interface(data, off, blen, be),
                    }
                }
            } else if btype == 6 {
                // Enhanced Packet.
                if rem < 32 {
                    BlockStep::Failed { message: "Incomplete PCAPNG data"@ }
                } else if blen < 32 {
                    BlockStep::Failed { message: "Invalid PCAPNG block"@ }
                } else if rem < blen {
                    BlockStep::Failed { message: "Incomplete PCAPNG data"@ }
                } else if ng_u32(data, off as int + blen - 4, be) as nat != blen {
                    BlockStep::Failed { message: "Invalid PCAPNG block"@ }
                } else {
                    let caplen = ng_u32(data, off as int + 20, be);
                    if caplen >= 0xFFFF_FFFF - 4 {
                        BlockStep::Failed { message: "Invalid PCAPNG block"@ }
                    } else if blen - 32 < spec_align4(caplen as nat) {
                        BlockStep::Failed { message: "Incomplete PCAPNG data"@ }
                    } else {
                        BlockStep::Enhanced {
                            next: off + blen,
                            if_id: ng_u32(data, off as int + 8, be),
                            ts_high: ng_u32(data, off as int + 12, be),
                            ts_low: ng_u32(data, off as int + 16, be),
                            caplen,
                            origlen: ng_u32(data, off as int + 24, be),
                            payload: data.subrange(off as int + 28, off as int + 28 + caplen),
                        }
                    }
                }
            } else if btype == 3 {
                // Simple Packet.
                if rem < 16 {
                    BlockStep::Failed { message: "Incomplete PCAPNG data"@ }
                } else if blen < 16 {
                    BlockStep::Failed { message: "Invalid PCAPNG block"@ }
                } else if rem < blen {
                    BlockStep::Failed { message: "Incomplete PCAPNG data"@ }
                } else {
                    let origlen = ng_u32(data, off as int + 8, be);
                    let caplen = if (origlen as nat) <= blen - 16 {
                        origlen as nat
                    } else {
                        (blen - 16) as nat
                    };
                    BlockStep::Simple {
                        next: off + blen,
                        origlen,
                        payload: data.subrange(off as int + 12, off as int + 12 + caplen),
                    }
                }
            } else {
                // Any other block kind: framing only, contents ignored.
                if rem < 12 {
                    BlockStep::Failed { message: "Incomplete PCAPNG data"@ }
                } else if blen < 12 {
                    BlockStep::Failed { message: "Invalid PCAPNG block"@ }
                } else if rem < blen {
                    BlockStep::Failed { message: "Incomplete PCAPNG data"@ }
                } else {
                    BlockStep::Other { next: off + blen }
                }
            }
        }
    }
}

/// The exec-side result of parsing one block; packet payloads are handed
/// back as ranges into the buffer.
pub enum ParsedBlock {
    Failed(String),
    Section { next: usize, big_endian: bool },
    Interface { next: usize, info: InterfaceInfo },
    Enhanced {
        next: usize,
        if_id: u32,
        ts_high: u32,
        ts_low: u32,
        caplen: u32,
        origlen: u32,
        data_start: usize,
    },
    Simple { next: usize, origlen: u32, data_start: usize, data_len: usize },
    Other { next: usize },
}

/// Whether an exec block parse matches its specification.
pub open spec fn parsed_block_matches(r: ParsedBlock, data: Seq<u8>, off: nat, be: bool) -> bool {
    match r {
        ParsedBlock::Failed(m) => spec_parse_block(data, off, be) == (BlockStep::Failed {
            message: m@,
        }),
        ParsedBlock::Section { next, big_endian } => spec_parse_block(data, off, be)
            == (BlockStep::Section { next: next as nat, big_endian }),
        ParsedBlock::Interface { next, info } => spec_parse_block(data, off, be)
            == (BlockStep::Interface { next: next as nat, info }),
        ParsedBlock::Enhanced { next, if_id, ts_high, ts_low, caplen, origlen, data_start } => {
            &&& data_start + caplen <= data.len()
            &&& spec_parse_block(data, off, be) == (BlockStep::Enhanced {
                next: next as nat,
                if_id,
                ts_high,
                ts_low,
                caplen,
                origlen,
                payload: data.subrange(data_start as int, data_start as int + caplen),
            })
        },
        ParsedBlock::Simple { next, origlen, data_start, data_len } => {
            &&& data_start + data_len <= data.len()
            &&& spec_parse_block(data, off, be) == (BlockStep::Simple {
                next: next as nat,
                origlen,
                payload: data.subrange(data_start as int, data_start as int + data_len),
            })
        },
        ParsedBlock::Other { next } => spec_parse_block(data, off, be) == (BlockStep::Other {
            next: next as nat,
        }),
    }
}

/// Every successful parse advances the offset and stays inside the buffer.
pub open spec fn parsed_block_bounds(r: ParsedBlock, data: Seq<u8>, off: nat) -> bool {
    match r {
        ParsedBlock::Failed(_) => true,
        ParsedBlock::Section { next, .. } => off < next <= data.len(),
        ParsedBlock::Interface { next, .. } => off < next <= data.len(),
        ParsedBlock::Enhanced { next, .. } => off < next <= data.len(),
        ParsedBlock::Simple { next, .. } => off < next <= data.len(),
        ParsedBlock::Other { next } => off < next <= data.len(),
    }
}

/// Parse the block at `off`.
#[verifier::rlimit(100)]
fn parse_block(data: &[u8], off: usize, be: bool) -> (r: ParsedBlock)
    requires
        off <= data@.len(),
    ensures
        parsed_block_matches(r, data@, off as nat, be),
        parsed_block_bounds(r, data@, off as nat),
        match r {
            ParsedBlock::Interface { info, .. } => info.ts_resolution >= 1,
            _ => true,
        },
{
    proof {
        reveal(spec_parse_block);
    }
    let rem = data.len() - off;
    if rem < 4 {
        return ParsedBlock::Failed(String::from_str("Incomplete PCAPNG data"));
    }
    let btype = read_ng_u32(data, off, be);
    if btype == 0x0A0D_0D0A {
        if rem < 12 {
            return ParsedBlock::Failed(String::from_str("Incomplete PCAPNG data"));
        }
        let bom = le32(data, off + 8);
        if bom != 0x1A2B_3C4D && bom != 0x4D3C_2B1A {
            return ParsedBlock::Failed(
                String::from_str("Header not recognized as PCAP or PCAPNG"),
            );
        }
        let nbe = bom == 0x4D3C_2B1A;
        if rem < 28 {
            return ParsedBlock::Failed(String::from_str("Incomplete PCAPNG data"));
        }
        let blen = read_ng_u32(data, off + 4, nbe) as usize;
        if blen < 28 {
            return ParsedBlock::Failed(String::from_str("Invalid PCAPNG block"));
        }
        if rem < blen {
            return ParsedBlock::Failed(String::from_str("Incomplete PCAPNG data"));
        }
        return ParsedBlock::Section { next: off + blen, big_endian: nbe };
    }
    if btype == 1 {
        if rem < 20 {
            return ParsedBlock::Failed(String::from_str("Incomplete PCAPNG data"));
        }
        let blen = read_ng_u32(data, off + 4, be) as usize;
        if blen < 20 {
            return ParsedBlock::Failed(String::from_str("Invalid PCAPNG block"));
        }
        if rem < blen {
            return ParsedBlock::Failed(String::from_str("Incomplete PCAPNG data"));
        }
        if read_ng_u32(data, off + blen - 4, be) as usize != blen {
            return ParsedBlock::Failed(String::from_str("Invalid PCAPNG block"));
        }
        let linktype = read_ng_u16(data, off + 8, be) as u32;
        let mut pos = off + 16;
        let end = off + blen - 4;
        let mut tsresol: u8 = 6;
        let mut tsoffset: u64 = 0;
        let mut optdone = false;
        let ghost opts = spec_idb_options(data@, off as nat + 16, end as nat, be, 6, 0);
        while !optdone && pos < end && end - pos >= 4
            invariant
                end <= data@.len(),
                !optdone ==> opts == spec_idb_options(
                    data@,
                    pos as nat,
                    end as nat,
                    be,
                    tsresol,
                    tsoffset,
                ),
                optdone ==> opts == (tsresol, tsoffset),
            decreases end - pos, 1int - (if optdone { 1int } else { 0int }),
        {
            let code = read_ng_u16(data, pos, be);
            let optlen = read_ng_u16(data, pos + 2, be);
            let vlen = ((optlen as usize) + 3) / 4 * 4;
            if end - (pos + 4) < vlen {
                optdone = true;
            } else {
                if code == 9 && vlen > 0 {
                    tsresol = data[pos + 4];
                }
                if code == 14 && vlen >= 8 {
                    tsoffset = le64(data, pos + 4);
                }
                pos = pos + 4 + vlen;
            }
        }
        if !optdone {
            proof {
                assert(opts == (tsresol, tsoffset));
            }
        }
        proof {
            lemma_build_resolution_pos(tsresol);
        }
        let ts_resolution = match build_resolution(tsresol) {
            Some(r) => r,
            None => 1_000_000,
        };
        let info = InterfaceInfo { linktype, ts_offset: tsoffset, ts_resolution };
        proof {
            assert(info == spec_idb_interface(data@, off as nat, blen as nat, be));
        }
        return ParsedBlock::Interface { next: off + blen, info };
    }
    if btype == 6 {
        if rem < 32 {
            return ParsedBlock::Failed(String::from_str("Incomplete PCAPNG data"));
        }
        let blen = read_ng_u32(data, off + 4, be) as usize;
        if blen < 32 {
            return ParsedBlock::Failed(String::from_str("Invalid PCAPNG block"));
        }
        if rem < blen {
            return ParsedBlock::Failed(String::from_str("Incomplete PCAPNG data"));
        }
        if read_ng_u32(data, off + blen - 4, be) as usize != blen {
            return ParsedBlock::Failed(String::from_str("Invalid PCAPNG block"));
        }
        let caplen = read_ng_u32(data, off + 20, be);
        if caplen >= 0xFFFF_FFFF - 4 {
            return ParsedBlock::Failed(String::from_str("Invalid PCAPNG block"));
        }
        let padded = ((caplen as usize) + 3) / 4 * 4;
        if blen - 32 < padded {
            return ParsedBlock::Failed(String::from_str("Incomplete PCAPNG data"));
        }
        return ParsedBlock::Enhanced {
            next: off + blen,
            if_id: read_ng_u32(data, off + 8, be),
            ts_high: read_ng_u32(data, off + 12, be),
            ts_low: read_ng_u32(data, off + 16, be),
            caplen,
            origlen: read_ng_u32(data, off + 24, be),
            data_start: off + 28,
        };
    }
    if btype == 3 {
        if rem < 16 {
            return ParsedBlock::Failed(String::from_str("Incomplete PCAPNG data"));
        }
        let blen = read_ng_u32(data, off + 4, be) as usize;
        if blen < 16 {
            return ParsedBlock::Failed(String::from_str("Invalid PCAPNG block"));
        }
        if rem < blen {
            return ParsedBlock::Failed(String::from_str("Incomplete PCAPNG data"));
        }
        let origlen = read_ng_u32(data, off + 8, be);
        let caplen = if (origlen as usize) <= blen - 16 {
            origlen as usize
        } else {
            blen - 16
        };
        return ParsedBlock::Simple {
            next: off + blen,
            origlen,
            data_start: off + 12,
            data_len: caplen,
        };
    }
    if rem < 12 {
        return ParsedBlock::Failed(String::from_str("Incomplete PCAPNG data"));
    }
    let blen = read_ng_u32(data, off + 4, be) as usize;
    if blen < 12 {
        return ParsedBlock::Failed(String::from_str("Invalid PCAPNG block"));
    }
    if rem < blen {
        return ParsedBlock::Failed(String::from_str("Incomplete PCAPNG data"));
    }
    ParsedBlock::Other { next: off + blen }
}

/// The warning for an Enhanced Packet block that names an interface the
/// current section never described.
pub open spec fn spec_unknown_interface_warning(n: nat, if_id: u32) -> Seq<char> {
    "Enhanced packet "@ + spec_dec(n) + " references unknown interface "@ + spec_dec(if_id as nat)
}

fn unknown_interface_warning(n: u64, if_id: u32) -> (s: String)
    ensures
        s@ == spec_unknown_interface_warning(n as nat, if_id),
{
    let mut s = String::from_str("Enhanced packet ");
    crate::strutil::append_u64_dec(&mut s, n);
    s.append(" references unknown interface ");
    crate::strutil::append_u64_dec(&mut s, if_id as u64);
    proof {
        assert(s@ =~= spec_unknown_interface_warning(n as nat, if_id));
    }
    s
}

/// The timestamp seconds and fractional part an Enhanced Packet block
/// decodes to: the 64-bit tick count divided by the resolution, offset by
/// the interface's timestamp offset, both fields truncated to 32 bits.
pub open spec fn spec_decode_ts(info: InterfaceInfo, ts_high: u32, ts_low: u32) -> (u32, u32) {
    let ts = (ts_high as nat) * 0x1_0000_0000 + (ts_low as nat);
    let sec = ((info.ts_offset as nat + ts / (info.ts_resolution as nat)) % 0x1_0000_0000) as u32;
    let frac = ((ts % (info.ts_resolution as nat)) % 0x1_0000_0000) as u32;
    (sec, frac)
}

fn decode_ts(info: &InterfaceInfo, ts_high: u32, ts_low: u32) -> (r: (u32, u32))
    requires
        info.ts_resolution >= 1,
    ensures
        r == spec_decode_ts(*info, ts_high, ts_low),
{
    let ts: u64 = (ts_high as u64) * 0x1_0000_0000 + ts_low as u64;
    let q = ts / info.ts_resolution;
    let sec = ((info.ts_offset as u128 + q as u128) % 0x1_0000_0000) as u32;
    let frac = ((ts % info.ts_resolution) % 0x1_0000_0000) as u32;
    (sec, frac)
}

/// The packet record and truncation warnings an Enhanced Packet block
/// yields, as packet number `n`, through interface `info`.
#[verifier::opaque]
pub open spec fn spec_enhanced_record(
    info: InterfaceInfo,
    ts_high: u32,
    ts_low: u32,
    caplen: u32,
    origlen: u32,
    payload: Seq<u8>,
    n: nat,
) -> (PacketModel, Seq<Seq<char>>) {
    let (ts_sec, ts_frac) = spec_decode_ts(info, ts_high, ts_low);
    let analysis = spec_analyze_payload(info.linktype, payload);
    let truncated = caplen < origlen;
    let summary = if truncated {
        analysis.summary + " [truncated]"@
    } else {
        analysis.summary
    };
    let meta = MetaModel {
        time: spec_format_timestamp(ts_sec as int, ts_frac as nat, info.ts_resolution as nat),
        source: analysis.source,
        destination: analysis.destination,
        protocol: analysis.protocol,
        summary,
        length: payload.len(),
    };
    (
        spec_create_packet(meta, payload),
        if truncated {
            seq![spec_trunc_warning(n, caplen as nat, origlen as nat)]
        } else {
            Seq::empty()
        },
    )
}

/// The packet record and truncation warnings a Simple Packet block yields,
/// as packet number `n`, through interface `info`; it carries no timestamp.
#[verifier::opaque]
pub open spec fn spec_simple_record(
    info: InterfaceInfo,
    origlen: u32,
    payload: Seq<u8>,
    n: nat,
) -> (PacketModel, Seq<Seq<char>>) {
    let analysis = spec_analyze_payload(info.linktype, payload);
    let truncated = (origlen as nat) > payload.len();
    let summary = if truncated {
        analysis.summary + " [truncated]"@
    } else {
        analysis.summary
    };
    let meta = MetaModel {
        time: "0.000000"@,
        source: analysis.source,
        destination: analysis.destination,
        protocol: analysis.protocol,
        summary,
        length: payload.len(),
    };
    (
        spec_create_packet(meta, payload),
        if truncated {
            seq![spec_trunc_warning(n, payload.len(), origlen as nat)]
        } else {
            Seq::empty()
        },
    )
}

/// Build the packet and optional truncation warning of an Enhanced Packet
/// block.
fn build_enhanced_record(
    info: &InterfaceInfo,
    ts_high: u32,
    ts_low: u32,
    caplen: u32,
    origlen: u32,
    payload: &[u8],
    n: u64,
) -> (r: (Packet, Option<String>))
    requires
        info.ts_resolution >= 1,
    ensures
        r.0@ == spec_enhanced_record(*info, ts_high, ts_low, caplen, origlen, payload@, n as nat).0,
        match r.1 {
            Some(w) => spec_enhanced_record(*info, ts_high, ts_low, caplen, origlen, payload@, n as nat).1
                == seq![w@],
            None => spec_enhanced_record(*info, ts_high, ts_low, caplen, origlen, payload@, n as nat).1
                == Seq::<Seq<char>>::empty(),
        },
{
    proof {
        reveal(spec_enhanced_record);
    }
    let (ts_sec, ts_frac) = decode_ts(info, ts_high, ts_low);
    let analysis = analyze_payload(info.linktype, payload);
    let mut summary = analysis.summary;
    let truncated = caplen < origlen;
    let warn = if truncated {
        summary.append(" [truncated]");
        Some(trunc_warning(n, caplen as u64, origlen as u64))
    } else {
        None
    };
    let metadata = PacketMetadata {
        time: format_timestamp(ts_sec as i64, ts_frac as u64, info.ts_resolution),
        source: analysis.source,
        destination: analysis.destination,
        protocol: analysis.protocol,
        summary,
        length: payload.len(),
    };
    (create_packet(metadata, payload), warn)
}

/// Build the packet and optional truncation warning of a Simple Packet
/// block.
fn build_simple_record(info: &InterfaceInfo, origlen: u32, payload: &[u8], n: u64) -> (r: (
    Packet,
    Option<String>,
))
    ensures
        r.0@ == spec_simple_record(*info, origlen, payload@, n as nat).0,
        match r.1 {
            Some(w) => spec_simple_record(*info, origlen, payload@, n as nat).1 == seq![w@],
            None => spec_simple_record(*info, origlen, payload@, n as nat).1
                == Seq::<Seq<char>>::empty(),
        },
{
    proof {
        reveal(spec_simple_record);
    }
    let analysis = analyze_payload(info.linktype, payload);
    let mut summary = analysis.summary;
    let truncated = (origlen as usize) > payload.len();
    let warn = if truncated {
        summary.append(" [truncated]");
        Some(trunc_warning(n, payload.len() as u64, origlen as u64))
    } else {
        None
    };
    let metadata = PacketMetadata {
        time: String::from_str("0.000000"),
        source: analysis.source,
        destination: analysis.destination,
        protocol: analysis.protocol,
        summary,
        length: payload.len(),
    };
    (create_packet(metadata, payload), warn)
}

/// The packets and warnings decoded from the blocks starting at `off`, in
/// the byte order `be`, with the interface table `ifs` and `idx` packet
/// blocks already seen. A Section Header empties the interface table; a
/// parse failure ends decoding with its message as a warning.
#[verifier::opaque]
pub open spec fn spec_ng_blocks(
    data: Seq<u8>,
    off: nat,
    be: bool,
    ifs: Seq<InterfaceInfo>,
    idx: nat,
) -> (Seq<PacketModel>, Seq<Seq<char>>)
    decreases data.len() - off,
{
    if off >= data.len() {
        (Seq::empty(), Seq::empty())
    } else {
        match spec_parse_block(data, off, be) {
            BlockStep::Failed { message } => (Seq::empty(), seq![message]),
            BlockStep::Section { next, big_endian } => {
                if next <= off || next > data.len() {
                    (Seq::empty(), Seq::empty())
                } else {
                    spec_ng_blocks(data, next, big_endian, Seq::empty(), idx)
                }
            },
            BlockStep::Interface { next, info } => {
                if next <= off || next > data.len() {
                    (Seq::empty(), Seq::empty())
                } else {
                    spec_ng_blocks(data, next, be, ifs.push(info), idx)
                }
            },
            BlockStep::Enhanced { next, if_id, ts_high, ts_low, caplen, origlen, payload } => {
                if next <= off || next > data.len() {
                    (Seq::empty(), Seq::empty())
                } else if if_id as nat >= ifs.len() {
                    let rest = spec_ng_blocks(data, next, be, ifs, idx + 1);
                    (rest.0, seq![spec_unknown_interface_warning(idx + 1, if_id)] + rest.1)
                } else {
                    let rec = spec_enhanced_record(
                        ifs[if_id as int],
                        ts_high,
                        ts_low,
                        caplen,
                        origlen,
                        payload,
                        idx + 1,
                    );
                    let rest = spec_ng_blocks(data, next, be, ifs, idx + 1);
                    (seq![rec.0] + rest.0, rec.1 + rest.1)
                }
            },
            BlockStep::Simple { next, origlen, payload } => {
                if next <= off || next > data.len() {
                    (Seq::empty(), Seq::empty())
                } else {
                    let info = if ifs.len() > 0 {
                        ifs[0]
                    } else {
                        spec_default_interface()
                    };
                    let rec = spec_simple_record(info, origlen, payload, idx + 1);
                    let rest = spec_ng_blocks(data, next, be, ifs, idx + 1);
                    (seq![rec.0] + rest.0, rec.1 + rest.1)
                }
            },
            BlockStep::Other { next } => {
                if next <= off || next > data.len() {
                    (Seq::empty(), Seq::empty())
                } else {
                    spec_ng_blocks(data, next, be, ifs, idx)
                }
            },
        }
    }
}

/// A Section Header block wipes the interface table: decoding from it
/// onward does not depend on any interface described before it, so two
/// back-to-back sections cannot cross-reference each other's interfaces.
pub proof fn lemma_section_header_resets_interfaces(
    data: Seq<u8>,
    off: nat,
    be: bool,
    ifs1: Seq<InterfaceInfo>,
    ifs2: Seq<InterfaceInfo>,
    idx: nat,
)
    requires
        spec_parse_block(data, off, be) is Section,
        off < data.len(),
    ensures
        spec_ng_blocks(data, off, be, ifs1, idx) == spec_ng_blocks(data, off, be, ifs2, idx),
{
    reveal(spec_ng_blocks);
}

/// The error with which decoding refuses a buffer whose first block is not
/// a complete, recognizable Section Header; `None` when it is one.
pub open spec fn spec_ng_first_error(data: Seq<u8>) -> Option<Seq<char>> {
    if data.len() < 12 {
        Some("Incomplete PCAPNG data"@)
    } else {
        let bom = spec_le32(data, 8);
        if bom != 0x1A2B_3C4D && bom != 0x4D3C_2B1A {
            Some("Header not recognized as PCAP or PCAPNG"@)
        } else {
            let nbe = bom == 0x4D3C_2B1A;
            if data.len() < 28 {
                Some("Incomplete PCAPNG data"@)
            } else if (ng_u32(data, 4, nbe) as nat) < 28 {
                Some("Invalid PCAPNG block"@)
            } else if !(data[0] == 0x0A && data[1] == 0x0D && data[2] == 0x0D && data[3]
                == 0x0A) {
                Some("Invalid PCAPNG block"@)
            } else if data.len() < ng_u32(data, 4, nbe) as nat {
                Some("Incomplete PCAPNG data"@)
            } else {
                None
            }
        }
    }
}

fn ng_first_error(data: &[u8]) -> (r: Option<String>)
    ensures
        match r {
            Some(e) => spec_ng_first_error(data@) == Some(e@),
            None => spec_ng_first_error(data@) is None,
        },
{
    if data.len() < 12 {
        return Some(String::from_str("Incomplete PCAPNG data"));
    }
    let bom = le32(data, 8);
    if bom != 0x1A2B_3C4D && bom != 0x4D3C_2B1A {
        return Some(String::from_str("Header not recognized as PCAP or PCAPNG"));
    }
    let nbe = bom == 0x4D3C_2B1A;
    if data.len() < 28 {
        return Some(String::from_str("Incomplete PCAPNG data"));
    }
    let blen = read_ng_u32(data, 4, nbe) as usize;
    if blen < 28 {
        return Some(String::from_str("Invalid PCAPNG block"));
    }
    if !(data[0] == 0x0A && data[1] == 0x0D && data[2] == 0x0D && data[3] == 0x0A) {
        return Some(String::from_str("Invalid PCAPNG block"));
    }
    if data.len() < blen {
        return Some(String::from_str("Incomplete PCAPNG data"));
    }
    None
}

/// All interfaces in the table announce a usable (nonzero) resolution.
pub open spec fn interfaces_wf(ifs: Seq<InterfaceInfo>) -> bool {
    forall|i: int| 0 <= i < ifs.len() ==> (#[trigger] ifs[i]).ts_resolution >= 1
}

/// A resolution option decodes to a nonzero unit count whenever it decodes
/// at all.
proof fn lemma_build_resolution_pos(tsresol: u8)
    ensures
        match spec_build_resolution(tsresol) {
            Some(r) => r >= 1,
            None => true,
        },
{
    if tsresol < 0x80 {
        if tsresol <= 19 {
            lemma_pow10_pos(tsresol as nat);
            lemma_decimal_pow_fits(tsresol as nat);
        }
    } else {
        if (tsresol - 0x80) <= 63 {
            lemma_pow2_at_least((tsresol - 0x80) as nat, 0);
            lemma_pow2_fits((tsresol - 0x80) as nat);
        }
    }
}

proof fn lemma_decimal_pow_fits(k: nat)
    requires
        k <= 19,
    ensures
        spec_pow10(k) <= 0xFFFF_FFFF_FFFF_FFFF,
        (spec_pow10(k) as u64) as nat == spec_pow10(k),
{
    assert(spec_pow10(19) == 10000000000000000000) by {
        reveal_with_fuel(spec_pow10, 20);
    }
    lemma_pow10_at_least(19, k);
}

proof fn lemma_pow2_fits(k: nat)
    requires
        k <= 63,
    ensures
        spec_pow2(k) <= 0xFFFF_FFFF_FFFF_FFFF,
        (spec_pow2(k) as u64) as nat == spec_pow2(k),
{
    assert(spec_pow2(63) == 0x8000_0000_0000_0000) by {
        reveal_with_fuel(spec_pow2, 64);
    }
    lemma_pow2_at_least(63, k);
}

/// Decode a PCAP-NG buffer: the first block must be a valid Section Header;
/// after that, blocks decode in order into packets and warnings, and a
/// malformed block ends decoding with a warning.
#[verifier::rlimit(100)]
pub fn process_pcapng(data: &[u8]) -> (r: Result<PacketProcessingResult, String>)
    ensures
        match r {
            Ok(res) => {
                &&& spec_ng_first_error(data@) is None
                &&& res@.packets == spec_ng_blocks(data@, 0, false, Seq::empty(), 0).0
                &&& res@.warnings == spec_ng_blocks(data@, 0, false, Seq::empty(), 0).1
                &&& res@.errors == Seq::<Seq<char>>::empty()
            },
            Err(e) => spec_ng_first_error(data@) == Some(e@),
        },
{
    if let Some(e) = ng_first_error(data) {
        return Err(e);
    }
    let ghost totals = spec_ng_blocks(data@, 0, false, Seq::empty(), 0);
    let mut packets: Vec<Packet> = Vec::new();
    let mut warnings: Vec<String> = Vec::new();
    let mut interfaces: Vec<InterfaceInfo> = Vec::new();
    let mut offset: usize = 0;
    let mut big_endian = false;
    let mut index: usize = 0;
    let mut stopped = false;
    while !stopped && offset < data.len()
        invariant
            totals == spec_ng_blocks(data@, 0, false, Seq::empty(), 0),
            offset <= data@.len(),
            index <= offset,
            interfaces_wf(interfaces@),
            !stopped ==> {
                let rest = spec_ng_blocks(
                    data@,
                    offset as nat,
                    big_endian,
                    interfaces@,
                    index as nat,
                );
                &&& totals.0 == packets@.map_values(|p: Packet| p@) + rest.0
                &&& totals.1 == warnings@.map_values(|s: String| s@) + rest.1
            },
            stopped ==> {
                &&& totals.0 == packets@.map_values(|p: Packet| p@)
                &&& totals.1 == warnings@.map_values(|s: String| s@)
            },
        decreases data@.len() - offset, 1int - (if stopped { 1int } else { 0int }),
    {
        proof {
            reveal(spec_ng_blocks);
        }
        let ghost rest = spec_ng_blocks(data@, offset as nat, big_endian, interfaces@, index as nat);
        match parse_block(data, offset, big_endian) {
            ParsedBlock::Failed(message) => {
                warnings.push(message);
                stopped = true;
                proof {
                    assert(rest.0 =~= Seq::<PacketModel>::empty());
                    assert(totals.1 =~= warnings@.map_values(|s: String| s@));
                }
            },
            ParsedBlock::Section { next, big_endian: nbe } => {
                interfaces = Vec::new();
                big_endian = nbe;
                offset = next;
                proof {
                    assert(interfaces@ =~= Seq::<InterfaceInfo>::empty());
                }
            },
            ParsedBlock::Interface { next, info } => {
                interfaces.push(info);
                offset = next;
            },
            ParsedBlock::Enhanced { next, if_id, ts_high, ts_low, caplen, origlen, data_start } => {
                if (if_id as usize) >= interfaces.len() {
                    warnings.push(unknown_interface_warning((index + 1) as u64, if_id));
                    proof {
                        let step = spec_ng_blocks(
                            data@,
                            next as nat,
                            big_endian,
                            interfaces@,
                            index as nat + 1,
                        );
                        assert(warnings@.map_values(|s: String| s@) =~= warnings@.drop_last()
                            .map_values(|s: String| s@).push(warnings@.last()@));
                        assert(totals.1 =~= warnings@.map_values(|s: String| s@) + step.1);
                    }
                    index = index + 1;
                    offset = next;
                } else {
                    let info = interfaces[if_id as usize];
                    let payload: &[u8] = &data[data_start..data_start + caplen as usize];
                    let (pkt, warn) = build_enhanced_record(
                        &info,
                        ts_high,
                        ts_low,
                        caplen,
                        origlen,
                        payload,
                        (index + 1) as u64,
                    );
                    let ghost had_warn = warn is Some;
                    if let Some(w) = warn {
                        warnings.push(w);
                    }
                    packets.push(pkt);
                    proof {
                        let step = spec_ng_blocks(
                            data@,
                            next as nat,
                            big_endian,
                            interfaces@,
                            index as nat + 1,
                        );
                        assert(packets@.map_values(|p: Packet| p@) =~= packets@.drop_last()
                            .map_values(|p: Packet| p@).push(packets@.last()@));
                        assert(totals.0 =~= packets@.map_values(|p: Packet| p@) + step.0);
                        if had_warn {
                            assert(warnings@.map_values(|s: String| s@) =~= warnings@.drop_last()
                                .map_values(|s: String| s@).push(warnings@.last()@));
                        }
                        assert(totals.1 =~= warnings@.map_values(|s: String| s@) + step.1);
                    }
                    index = index + 1;
                    offset = next;
                }
            },
            ParsedBlock::Simple { next, origlen, data_start, data_len } => {
                let info = if interfaces.len() > 0 {
                    interfaces[0]
                } else {
                    InterfaceInfo { linktype: 1, ts_offset: 0, ts_resolution: 1_000_000 }
                };
                let payload: &[u8] = &data[data_start..data_start + data_len];
                let (pkt, warn) = build_simple_record(&info, origlen, payload, (index + 1) as u64);
                let ghost had_warn = warn is Some;
                if let Some(w) = warn {
                    warnings.push(w);
                }
                packets.push(pkt);
                proof {
                    let step = spec_ng_blocks(
                        data@,
                        next as nat,
                        big_endian,
                        interfaces@,
                        index as nat + 1,
                    );
                    assert(packets@.map_values(|p: Packet| p@) =~= packets@.drop_last().map_values(
                        |p: Packet| p@,
                    ).push(packets@.last()@));
                    assert(totals.0 =~= packets@.map_values(|p: Packet| p@) + step.0);
                    if had_warn {
                        assert(warnings@.map_values(|s: String| s@) =~= warnings@.drop_last()
                            .map_values(|s: String| s@).push(warnings@.last()@));
                    }
                    assert(totals.1 =~= warnings@.map_values(|s: String| s@) + step.1);
                }
                index = index + 1;
                offset = next;
            },
            ParsedBlock::Other { next } => {
                offset = next;
            },
        }
    }
    if !stopped {
        proof {
            reveal(spec_ng_blocks);
            let rest = spec_ng_blocks(data@, offset as nat, big_endian, interfaces@, index as nat);
            assert(rest.0 =~= Seq::<PacketModel>::empty());
            assert(rest.1 =~= Seq::<Seq<char>>::empty());
            assert(totals.0 =~= packets@.map_values(|p: Packet| p@));
            assert(totals.1 =~= warnings@.map_values(|s: String| s@));
        }
    }
    let result = PacketProcessingResult { packets, warnings, errors: Vec::new() };
    proof {
        assert(result@.errors =~= Seq::<Seq<char>>::empty());
    }
    Ok(result)
}

/// A record built from an Enhanced Packet block is well formed.
proof fn lemma_enhanced_record_wf(
    info: InterfaceInfo,
    ts_high: u32,
    ts_low: u32,
    caplen: u32,
    origlen: u32,
    payload: Seq<u8>,
    n: nat,
)
    ensures
        crate::packet::packet_wf(
            spec_enhanced_record(info, ts_high, ts_low, caplen, origlen, payload, n).0,
        ),
{
    reveal(spec_enhanced_record);
    let (ts_sec, ts_frac) = spec_decode_ts(info, ts_high, ts_low);
    let analysis = spec_analyze_payload(info.linktype, payload);
    let truncated = caplen < origlen;
    let summary = if truncated {
        analysis.summary + " [truncated]"@
    } else {
        analysis.summary
    };
    let meta = MetaModel {
        time: spec_format_timestamp(ts_sec as int, ts_frac as nat, info.ts_resolution as nat),
        source: analysis.source,
        destination: analysis.destination,
        protocol: analysis.protocol,
        summary,
        length: payload.len(),
    };
    crate::packet::lemma_create_packet_wf(meta, payload);
}

/// A record built from a Simple Packet block is well formed.
proof fn lemma_simple_record_wf(info: InterfaceInfo, origlen: u32, payload: Seq<u8>, n: nat)
    ensures
        crate::packet::packet_wf(spec_simple_record(info, origlen, payload, n).0),
{
    reveal(spec_simple_record);
    let analysis = spec_analyze_payload(info.linktype, payload);
    let truncated = (origlen as nat) > payload.len();
    let summary = if truncated {
        analysis.summary + " [truncated]"@
    } else {
        analysis.summary
    };
    let meta = MetaModel {
        time: "0.000000"@,
        source: analysis.source,
        destination: analysis.destination,
        protocol: analysis.protocol,
        summary,
        length: payload.len(),
    };
    crate::packet::lemma_create_packet_wf(meta, payload);
}

/// Every packet the PCAP-NG decoder emits is well formed: its length counts
/// its payload bytes and its `info` document repeats its own fields.
pub proof fn lemma_ng_blocks_wf(
    data: Seq<u8>,
    off: nat,
    be: bool,
    ifs: Seq<InterfaceInfo>,
    idx: nat,
)
    ensures
        forall|i: int|
            0 <= i < spec_ng_blocks(data, off, be, ifs, idx).0.len()
                ==> crate::packet::packet_wf(
                #[trigger] spec_ng_blocks(data, off, be, ifs, idx).0[i],
            ),
    decreases data.len() - off,
{
    reveal(spec_ng_blocks);
    let r = spec_ng_blocks(data, off, be, ifs, idx);
    if off >= data.len() {
    } else {
        match spec_parse_block(data, off, be) {
            BlockStep::Failed { message } => {},
            BlockStep::Section { next, big_endian } => {
                if off < next <= data.len() {
                    lemma_ng_blocks_wf(data, next, big_endian, Seq::empty(), idx);
                    let sub = spec_ng_blocks(data, next, big_endian, Seq::empty(), idx);
                    assert forall|i: int| 0 <= i < r.0.len() implies crate::packet::packet_wf(
                        r.0[i],
                    ) by {
                        assert(r.0[i] == sub.0[i]);
                    }
                }
            },
            BlockStep::Interface { next, info } => {
                if off < next <= data.len() {
                    lemma_ng_blocks_wf(data, next, be, ifs.push(info), idx);
                    let sub = spec_ng_blocks(data, next, be, ifs.push(info), idx);
                    assert forall|i: int| 0 <= i < r.0.len() implies crate::packet::packet_wf(
                        r.0[i],
                    ) by {
                        assert(r.0[i] == sub.0[i]);
                    }
                }
            },
            BlockStep::Enhanced { next, if_id, ts_high, ts_low, caplen, origlen, payload } => {
                if off < next <= data.len() {
                    lemma_ng_blocks_wf(data, next, be, ifs, idx + 1);
                    if (if_id as nat) >= ifs.len() {
                        let sub = spec_ng_blocks(data, next, be, ifs, idx + 1);
                        assert forall|i: int| 0 <= i < r.0.len() implies crate::packet::packet_wf(
                            r.0[i],
                        ) by {
                            assert(r.0[i] == sub.0[i]);
                        }
                    }
                    if (if_id as nat) < ifs.len() {
                        let rec = spec_enhanced_record(
                            ifs[if_id as int],
                            ts_high,
                            ts_low,
                            caplen,
                            origlen,
                            payload,
                            idx + 1,
                        );
                        let rest = spec_ng_blocks(data, next, be, ifs, idx + 1);
                        lemma_enhanced_record_wf(
                            ifs[if_id as int],
                            ts_high,
                            ts_low,
                            caplen,
                            origlen,
                            payload,
                            idx + 1,
                        );
                        assert forall|i: int| 0 <= i < r.0.len() implies crate::packet::packet_wf(
                            r.0[i],
                        ) by {
                            if i == 0 {
                                assert(r.0[0] == rec.0);
                            } else {
                                assert(r.0[i] == rest.0[i - 1]);
                            }
                        }
                    }
                }
            },
            BlockStep::Simple { next, origlen, payload } => {
                if off < next <= data.len() {
                    lemma_ng_blocks_wf(data, next, be, ifs, idx + 1);
                    let info = if ifs.len() > 0 {
                        ifs[0]
                    } else {
                        spec_default_interface()
                    };
                    let rec = spec_simple_record(info, origlen, payload, idx + 1);
                    let rest = spec_ng_blocks(data, next, be, ifs, idx + 1);
                    lemma_simple_record_wf(info, origlen, payload, idx + 1);
                    assert forall|i: int| 0 <= i < r.0.len() implies crate::packet::packet_wf(
                        r.0[i],
                    ) by {
                        if i == 0 {
                            assert(r.0[0] == rec.0);
                        } else {
                            assert(r.0[i] == rest.0[i - 1]);
                        }
                    }
                }
            },
            BlockStep::Other { next } => {
                if off < next <= data.len() {
                    lemma_ng_blocks_wf(data, next, be, ifs, idx);
                    let sub = spec_ng_blocks(data, next, be, ifs, idx);
                    assert forall|i: int| 0 <= i < r.0.len() implies crate::packet::packet_wf(
                        r.0[i],
                    ) by {
                        assert(r.0[i] == sub.0[i]);
                    }
                }
            },
        }
    }
}

} // verus!
