//! Per-frame protocol dissection: given a link type and a captured frame,
//! produce source, destination, protocol name and a one-line summary.
//! Ethernet, Null/Loopback and raw-IP link layers are peeled down through
//! IPv4/IPv6 (with extension-header chains), ARP, the TCP/UDP/SCTP port
//! rules and ICMPv4/ICMPv6 type decoding. Dissection never fails: malformed
//! input falls back to a generic description of the captured bytes.

use vstd::prelude::*;
use vstd::string::StringExecFns;

use crate::addr::format_mac;
use crate::addr::format_port;
use crate::addr::ipv4_string;
use crate::addr::ipv6_string;
use crate::addr::spec_ipv4;
use crate::addr::spec_ipv6;
use crate::addr::spec_mac;
use crate::addr::spec_port;
use crate::bytes::be16;
use crate::bytes::le32;
use crate::bytes::spec_be16;
use crate::bytes::spec_le32;
use crate::proto::describe_icmpv4;
use crate::proto::describe_icmpv6;
use crate::proto::map_ip_protocol;
use crate::proto::spec_describe_icmpv4;
use crate::proto::spec_describe_icmpv6;
use crate::proto::spec_map_ip_protocol;
use crate::strutil::hex_digit;
use crate::strutil::push_char;
use crate::strutil::spec_dec;

verus! {

/// What the dissector found in one frame.
pub struct PacketAnalysis {
    pub source: String,
    pub destination: String,
    pub protocol: String,
    pub summary: String,
}

/// The mathematical content of a `PacketAnalysis`.
#[verifier::ext_equal]
pub ghost struct AnalysisModel {
    pub source: Seq<char>,
    pub destination: Seq<char>,
    pub protocol: Seq<char>,
    pub summary: Seq<char>,
}

impl View for PacketAnalysis {
    type V = AnalysisModel;

    open spec fn view(&self) -> AnalysisModel {
        AnalysisModel {
            source: self.source@,
            destination: self.destination@,
            protocol: self.protocol@,
            summary: self.summary@,
        }
    }
}

/// The generic description used when no dissector understands a frame.
pub open spec fn spec_fallback_analysis(linktype: u32, length: nat) -> AnalysisModel {
    AnalysisModel {
        source: "\u{2014}"@,
        destination: "\u{2014}"@,
        protocol: "LINKTYPE "@ + spec_dec(linktype as nat),
        summary: "Captured "@ + spec_dec(length) + " bytes (linktype "@ + spec_dec(
            linktype as nat,
        ) + ")"@,
    }
}

/// Build the fallback analysis for an undissected frame.
pub fn fallback_analysis(linktype: u32, length: usize) -> (a: PacketAnalysis)
    ensures
        a@ == spec_fallback_analysis(linktype, length as nat),
{
    let mut protocol = String::from_str("LINKTYPE ");
    crate::strutil::append_u64_dec(&mut protocol, linktype as u64);
    let mut summary = String::from_str("Captured ");
    crate::strutil::append_u64_dec(&mut summary, length as u64);
    summary.append(" bytes (linktype ");
    crate::strutil::append_u64_dec(&mut summary, linktype as u64);
    summary.append(")");
    let a = PacketAnalysis {
        source: String::from_str("\u{2014}"),
        destination: String::from_str("\u{2014}"),
        protocol,
        summary,
    };
    proof {
        assert(a@.protocol =~= spec_fallback_analysis(linktype, length as nat).protocol);
        assert(a@.summary =~= spec_fallback_analysis(linktype, length as nat).summary);
    }
    a
}

/// `{name} {src} → {dst}`.
pub open spec fn spec_flow_summary(name: Seq<char>, src: Seq<char>, dst: Seq<char>) -> Seq<char> {
    name + " "@ + src + " \u{2192} "@ + dst
}

fn flow_summary(name: &str, src: &str, dst: &str) -> (s: String)
    ensures
        s@ == spec_flow_summary(name@, src@, dst@),
{
    let mut s = String::from_str(name);
    s.append(" ");
    s.append(src);
    s.append(" \u{2192} ");
    s.append(dst);
    s
}

/// The transport refinement shared by IPv4 and IPv6: TCP, UDP and SCTP
/// frames with at least four payload bytes get their ports attached; an
/// ICMP payload of at least two bytes gets its type decoded.
pub open spec fn spec_transport_analysis(
    protocol: u8,
    name: Seq<char>,
    src_ip: Seq<char>,
    dst_ip: Seq<char>,
    payload: Seq<u8>,
    icmp_number: u8,
    icmp_name: Seq<char>,
    icmp_desc: Seq<char>,
) -> AnalysisModel {
    let base = AnalysisModel {
        source: src_ip,
        destination: dst_ip,
        protocol: name,
        summary: spec_flow_summary(name, src_ip, dst_ip),
    };
    if (protocol == 6 || protocol == 17 || protocol == 132) && payload.len() >= 4 {
        let src = spec_port(src_ip, spec_be16(payload, 0));
        let dst = spec_port(dst_ip, spec_be16(payload, 2));
        AnalysisModel {
            source: src,
            destination: dst,
            summary: spec_flow_summary(name, src, dst),
            ..base
        }
    } else if protocol == icmp_number && payload.len() >= 2 {
        AnalysisModel {
            summary: icmp_name + " "@ + src_ip + " \u{2192} "@ + dst_ip + " ("@ + icmp_desc + ")"@,
            ..base
        }
    } else {
        base
    }
}

/// IPv4 dissection: requires 20 header bytes, version 4, a plausible IHL
/// and total length; extracts addresses, the protocol name, and transport
/// details from the payload delimited by IHL and total length.
pub open spec fn spec_parse_ipv4(p: Seq<u8>) -> Option<AnalysisModel> {
    if p.len() < 20 {
        None
    } else if p[0] / 16 != 4 {
        None
    } else {
        let ihl = (p[0] % 16) * 4;
        if ihl < 20 || p.len() < ihl {
            None
        } else if spec_be16(p, 2) < ihl {
            None
        } else {
            let total_length = spec_be16(p, 2) as int;
            let protocol = p[9];
            let src_ip = spec_ipv4(p[12], p[13], p[14], p[15]);
            let dst_ip = spec_ipv4(p[16], p[17], p[18], p[19]);
            let payload_end = if p.len() <= total_length {
                p.len() as int
            } else {
                total_length
            };
            let payload = if payload_end > ihl {
                p.subrange(ihl as int, payload_end)
            } else {
                Seq::empty()
            };
            Some(
                spec_transport_analysis(
                    protocol,
                    spec_map_ip_protocol(protocol),
                    src_ip,
                    dst_ip,
                    payload,
                    1,
                    "ICMP"@,
                    spec_describe_icmpv4(
                        if payload.len() >= 2 {
                            payload[0]
                        } else {
                            0
                        },
                        if payload.len() >= 2 {
                            payload[1]
                        } else {
                            0
                        },
                    ),
                ),
            )
        }
    }
}

/// Attach transport details to a base IP analysis; shared by the IPv4 and
/// IPv6 dissectors.
fn transport_analysis(
    protocol: u8,
    name: &str,
    src_ip: String,
    dst_ip: String,
    payload: &[u8],
    icmpv6: bool,
) -> (a: PacketAnalysis)
    ensures
        ({
            let icmp_name = if icmpv6 {
                "ICMPv6"@
            } else {
                "ICMP"@
            };
            a@ == spec_transport_analysis(
                protocol,
                name@,
                src_ip@,
                dst_ip@,
                payload@,
                if icmpv6 { 58 } else { 1 },
                icmp_name,
                if icmpv6 {
                    spec_describe_icmpv6(
                        if payload@.len() >= 2 {
                            payload@[0]
                        } else {
                            0
                        },
                        if payload@.len() >= 2 {
                            payload@[1]
                        } else {
                            0
                        },
                    )
                } else {
                    spec_describe_icmpv4(
                        if payload@.len() >= 2 {
                            payload@[0]
                        } else {
                            0
                        },
                        if payload@.len() >= 2 {
                            payload@[1]
                        } else {
                            0
                        },
                    )
                },
            )
        }),
{
    let icmp_number: u8 = if icmpv6 {
        58
    } else {
        1
    };
    if (protocol == 6 || protocol == 17 || protocol == 132) && payload.len() >= 4 {
        let src_port = be16(payload, 0);
        let dst_port = be16(payload, 2);
        let source = format_port(src_ip.as_str(), src_port);
        let destination = format_port(dst_ip.as_str(), dst_port);
        let summary = flow_summary(name, source.as_str(), destination.as_str());
        PacketAnalysis { source, destination, protocol: String::from_str(name), summary }
    } else if protocol == icmp_number && payload.len() >= 2 {
        let desc = if icmpv6 {
            describe_icmpv6(payload[0], payload[1])
        } else {
            describe_icmpv4(payload[0], payload[1])
        };
        let mut summary = if icmpv6 {
            String::from_str("ICMPv6")
        } else {
            String::from_str("ICMP")
        };
        summary.append(" ");
        summary.append(src_ip.as_str());
        summary.append(" \u{2192} ");
        summary.append(dst_ip.as_str());
        summary.append(" (");
        summary.append(desc.as_str());
        summary.append(")");
        let a = PacketAnalysis {
            source: src_ip,
            destination: dst_ip,
            protocol: String::from_str(name),
            summary,
        };
        a
    } else {
        let summary = flow_summary(name, src_ip.as_str(), dst_ip.as_str());
        PacketAnalysis { source: src_ip, destination: dst_ip, protocol: String::from_str(name), summary }
    }
}

/// Dissect an IPv4 packet.
pub fn parse_ipv4_packet(packet: &[u8]) -> (r: Option<PacketAnalysis>)
    ensures
        match r {
            Some(a) => spec_parse_ipv4(packet@) == Some(a@),
            None => spec_parse_ipv4(packet@) is None,
        },
{
    if packet.len() < 20 {
        return None;
    }
    let version_ihl = packet[0];
    if version_ihl / 16 != 4 {
        return None;
    }
    let ihl = ((version_ihl % 16) as usize) * 4;
    if ihl < 20 || packet.len() < ihl {
        return None;
    }
    let total_length = be16(packet, 2) as usize;
    if total_length < ihl {
        return None;
    }
    let protocol = packet[9];
    let src_ip = ipv4_string(packet[12], packet[13], packet[14], packet[15]);
    let dst_ip = ipv4_string(packet[16], packet[17], packet[18], packet[19]);
    let payload_end = if packet.len() <= total_length {
        packet.len()
    } else {
        total_length
    };
    let payload: &[u8] = if payload_end > ihl {
        &packet[ihl..payload_end]
    } else {
        &packet[0..0]
    };
    let name = map_ip_protocol(protocol);
    Some(transport_analysis(protocol, name, src_ip, dst_ip, payload, false))
}

/// One step at a time, skip up to `fuel` recognized IPv6 extension headers,
/// returning the final next-header value and payload offset. Traversal stops
/// at an unrecognized header or when a header length would overrun the
/// buffer.
pub open spec fn spec_skip_ext_headers(p: Seq<u8>, nh: u8, off: nat, fuel: nat) -> (u8, nat)
    recommends
        off <= p.len(),
    decreases fuel,
{
    if fuel == 0 {
        (nh, off)
    } else if nh == 0 || nh == 43 || nh == 60 {
        if p.len() < off + 8 {
            (nh, off)
        } else {
            let hdr_len = ((p[off as int + 1] as nat) + 1) * 8;
            if p.len() < off + hdr_len {
                (nh, off)
            } else {
                spec_skip_ext_headers(p, p[off as int], off + hdr_len, (fuel - 1) as nat)
            }
        }
    } else if nh == 44 {
        if p.len() < off + 8 {
            (nh, off)
        } else {
            spec_skip_ext_headers(p, p[off as int], off + 8, (fuel - 1) as nat)
        }
    } else if nh == 51 {
        if p.len() < off + 4 {
            (nh, off)
        } else {
            let hdr_len = ((p[off as int + 1] as nat) + 2) * 4;
            if p.len() < off + hdr_len {
                (nh, off)
            } else {
                spec_skip_ext_headers(p, p[off as int], off + hdr_len, (fuel - 1) as nat)
            }
        }
    } else {
        (nh, off)
    }
}

fn skip_ext_headers(packet: &[u8], nh: u8, off: usize, fuel: u8) -> (r: (u8, usize))
    requires
        off <= packet@.len(),
    ensures
        (r.0, r.1 as nat) == spec_skip_ext_headers(packet@, nh, off as nat, fuel as nat),
        r.1 <= packet@.len(),
    decreases fuel,
{
    if fuel == 0 {
        (nh, off)
    } else if nh == 0 || nh == 43 || nh == 60 {
        if packet.len() - off < 8 {
            (nh, off)
        } else {
            let hdr_len = ((packet[off + 1] as usize) + 1) * 8;
            if packet.len() - off < hdr_len {
                (nh, off)
            } else {
                skip_ext_headers(packet, packet[off], off + hdr_len, fuel - 1)
            }
        }
    } else if nh == 44 {
        if packet.len() - off < 8 {
            (nh, off)
        } else {
            skip_ext_headers(packet, packet[off], off + 8, fuel - 1)
        }
    } else if nh == 51 {
        if packet.len() - off < 4 {
            (nh, off)
        } else {
            let hdr_len = ((packet[off + 1] as usize) + 2) * 4;
            if packet.len() - off < hdr_len {
                (nh, off)
            } else {
                skip_ext_headers(packet, packet[off], off + hdr_len, fuel - 1)
            }
        }
    } else {
        (nh, off)
    }
}

/// IPv6 dissection: requires the 40-byte fixed header and version 6, skips
/// up to four extension headers, then applies the same transport rules as
/// IPv4, with ICMPv6 type decoding for next-header 58.
pub open spec fn spec_parse_ipv6(p: Seq<u8>) -> Option<AnalysisModel> {
    if p.len() < 40 {
        None
    } else if p[0] / 16 != 6 {
        None
    } else {
        let src_ip = spec_ipv6(p.subrange(8, 24));
        let dst_ip = spec_ipv6(p.subrange(24, 40));
        let (next_header, off) = spec_skip_ext_headers(p, p[6], 40, 4);
        if off > p.len() {
            None
        } else {
            let payload = p.skip(off as int);
            Some(
                spec_transport_analysis(
                    next_header,
                    spec_map_ip_protocol(next_header),
                    src_ip,
                    dst_ip,
                    payload,
                    58,
                    "ICMPv6"@,
                    spec_describe_icmpv6(
                        if payload.len() >= 2 {
                            payload[0]
                        } else {
                            0
                        },
                        if payload.len() >= 2 {
                            payload[1]
                        } else {
                            0
                        },
                    ),
                ),
            )
        }
    }
}

/// Dissect an IPv6 packet.
pub fn parse_ipv6_packet(packet: &[u8]) -> (r: Option<PacketAnalysis>)
    ensures
        match r {
            Some(a) => spec_parse_ipv6(packet@) == Some(a@),
            None => spec_parse_ipv6(packet@) is None,
        },
{
    if packet.len() < 40 {
        return None;
    }
    if packet[0] / 16 != 6 {
        return None;
    }
    let src_ip = ipv6_string(&packet[8..24]);
    let dst_ip = ipv6_string(&packet[24..40]);
    let (next_header, offset) = skip_ext_headers(packet, packet[6], 40, 4);
    if offset > packet.len() {
        return None;
    }
    let payload: &[u8] = &packet[offset..packet.len()];
    proof {
        assert(payload@ =~= packet@.skip(offset as int));
    }
    let name = map_ip_protocol(next_header);
    Some(transport_analysis(next_header, name, src_ip, dst_ip, payload, true))
}

/// ARP dissection over Ethernet: hardware type 1, protocol type IPv4,
/// six-byte hardware and four-byte protocol addresses; the summary names
/// the operation, and the trailing MAC pair shows the frame's source MAC
/// and, for replies, the ARP target MAC, otherwise the frame's destination
/// MAC.
pub open spec fn spec_parse_arp(p: Seq<u8>, src_mac: Seq<char>, dst_mac: Seq<char>) -> Option<
    AnalysisModel,
> {
    if p.len() < 28 {
        None
    } else if spec_be16(p, 0) != 1 || spec_be16(p, 2) != 0x0800 || p[4] != 6 || p[5] != 4 {
        None
    } else {
        let operation = spec_be16(p, 6);
        let sender_mac = spec_mac(p.subrange(8, 14));
        let sender_ip = spec_ipv4(p[14], p[15], p[16], p[17]);
        let target_mac = spec_mac(p.subrange(18, 24));
        let target_ip = spec_ipv4(p[24], p[25], p[26], p[27]);
        let base_summary = if operation == 1 {
            "ARP who-has "@ + target_ip + " tell "@ + sender_ip
        } else if operation == 2 {
            "ARP reply "@ + sender_ip + " is-at "@ + sender_mac
        } else {
            "ARP op "@ + spec_dec(operation as nat) + " "@ + sender_ip + " \u{2192} "@ + target_ip
        };
        let tail_mac = if operation == 2 {
            target_mac
        } else {
            dst_mac
        };
        Some(
            AnalysisModel {
                source: sender_ip,
                destination: target_ip,
                protocol: "ARP"@,
                summary: base_summary + " ("@ + src_mac + " \u{2192} "@ + tail_mac + ")"@,
            },
        )
    }
}

/// Dissect an ARP packet carried in an Ethernet frame with the given MACs.
pub fn parse_arp_packet(packet: &[u8], src_mac: &str, dst_mac: &str) -> (r: Option<PacketAnalysis>)
    ensures
        match r {
            Some(a) => spec_parse_arp(packet@, src_mac@, dst_mac@) == Some(a@),
            None => spec_parse_arp(packet@, src_mac@, dst_mac@) is None,
        },
{
    if packet.len() < 28 {
        return None;
    }
    let hw_type = be16(packet, 0);
    let proto_type = be16(packet, 2);
    let hw_len = packet[4];
    let proto_len = packet[5];
    let operation = be16(packet, 6);
    if hw_type != 1 || proto_type != 0x0800 || hw_len != 6 || proto_len != 4 {
        return None;
    }
    let sender_mac = format_mac(&packet[8..14]);
    let sender_ip = ipv4_string(packet[14], packet[15], packet[16], packet[17]);
    let target_mac = format_mac(&packet[18..24]);
    let target_ip = ipv4_string(packet[24], packet[25], packet[26], packet[27]);
    let mut summary: String;
    if operation == 1 {
        summary = String::from_str("ARP who-has ");
        summary.append(target_ip.as_str());
        summary.append(" tell ");
        summary.append(sender_ip.as_str());
    } else if operation == 2 {
        summary = String::from_str("ARP reply ");
        summary.append(sender_ip.as_str());
        summary.append(" is-at ");
        summary.append(sender_mac.as_str());
    } else {
        summary = String::from_str("ARP op ");
        crate::strutil::append_u64_dec(&mut summary, operation as u64);
        summary.append(" ");
        summary.append(sender_ip.as_str());
        summary.append(" \u{2192} ");
        summary.append(target_ip.as_str());
    }
    summary.append(" (");
    summary.append(src_mac);
    summary.append(" \u{2192} ");
    if operation == 2 {
        summary.append(target_mac.as_str());
    } else {
        summary.append(dst_mac);
    }
    summary.append(")");
    let a = PacketAnalysis {
        source: sender_ip,
        destination: target_ip,
        protocol: String::from_str("ARP"),
        summary,
    };
    proof {
        assert(a@.summary =~= spec_parse_arp(packet@, src_mac@, dst_mac@).unwrap().summary);
    }
    Some(a)
}

/// Substitute the link-layer MACs for addresses the inner dissector left as
/// the em dash placeholder.
pub open spec fn spec_mac_fixup(a: AnalysisModel, src_mac: Seq<char>, dst_mac: Seq<char>) -> AnalysisModel {
    AnalysisModel {
        source: if a.source == "\u{2014}"@ {
            src_mac
        } else {
            a.source
        },
        destination: if a.destination == "\u{2014}"@ {
            dst_mac
        } else {
            a.destination
        },
        ..a
    }
}

/// Ethernet dissection: 14-byte header, upper-case colon MACs, dispatch on
/// the EtherType for IPv4, IPv6 and ARP; anything else is described
/// generically with the EtherType in four upper-case hex digits.
pub open spec fn spec_analyze_ethernet(f: Seq<u8>) -> AnalysisModel {
    if f.len() < 14 {
        spec_fallback_analysis(1, f.len())
    } else {
        let dst_mac = spec_mac(f.subrange(0, 6));
        let src_mac = spec_mac(f.subrange(6, 12));
        let ethertype = spec_be16(f, 12);
        let rest = f.skip(14);
        if ethertype == 0x0800 && spec_parse_ipv4(rest) is Some {
            spec_mac_fixup(spec_parse_ipv4(rest).unwrap(), src_mac, dst_mac)
        } else if ethertype == 0x86DD && spec_parse_ipv6(rest) is Some {
            spec_mac_fixup(spec_parse_ipv6(rest).unwrap(), src_mac, dst_mac)
        } else if ethertype == 0x0806 && spec_parse_arp(rest, src_mac, dst_mac) is Some {
            spec_parse_arp(rest, src_mac, dst_mac).unwrap()
        } else {
            AnalysisModel {
                source: src_mac,
                destination: dst_mac,
                protocol: "EtherType 0x"@ + spec_hex4(ethertype),
                summary: "Ethernet 0x"@ + spec_hex4(ethertype) + " \u{2192} captured "@ + spec_dec(
                    f.len(),
                ) + " bytes"@,
            }
        }
    }
}

/// Four upper-case hex digits, zero-padded.
pub open spec fn spec_hex4(v: u16) -> Seq<char> {
    seq![
        hex_digit((v as nat) / 4096),
        hex_digit((v as nat) / 256 % 16),
        hex_digit((v as nat) / 16 % 16),
        hex_digit((v as nat) % 16),
    ]
}

fn append_hex4(out: &mut String, v: u16)
    ensures
        final(out)@ == old(out)@ + spec_hex4(v),
{
    let d0 = ((v / 4096) % 16) as u8;
    let d1 = ((v / 256) % 16) as u8;
    let d2 = ((v / 16) % 16) as u8;
    let d3 = (v % 16) as u8;
    push_char(out, if d0 < 10 {
        (0x30u8 + d0) as char
    } else {
        (0x41u8 + (d0 - 10)) as char
    });
    push_char(out, if d1 < 10 {
        (0x30u8 + d1) as char
    } else {
        (0x41u8 + (d1 - 10)) as char
    });
    push_char(out, if d2 < 10 {
        (0x30u8 + d2) as char
    } else {
        (0x41u8 + (d2 - 10)) as char
    });
    push_char(out, if d3 < 10 {
        (0x30u8 + d3) as char
    } else {
        (0x41u8 + (d3 - 10)) as char
    });
    proof {
        assert((v as nat) / 4096 < 16);
        assert(out@ =~= old(out)@ + spec_hex4(v));
    }
}

fn mac_fixup(a: PacketAnalysis, src_mac: &String, dst_mac: &String) -> (r: PacketAnalysis)
    ensures
        r@ == spec_mac_fixup(a@, src_mac@, dst_mac@),
{
    let em = String::from_str("\u{2014}");
    let source = if a.source == em {
        src_mac.clone()
    } else {
        a.source
    };
    let destination = if a.destination == em {
        dst_mac.clone()
    } else {
        a.destination
    };
    PacketAnalysis { source, destination, protocol: a.protocol, summary: a.summary }
}

/// Dissect an Ethernet frame.
pub fn analyze_ethernet_frame(frame: &[u8]) -> (a: PacketAnalysis)
    ensures
        a@ == spec_analyze_ethernet(frame@),
{
    if frame.len() < 14 {
        return fallback_analysis(1, frame.len());
    }
    let dst_mac = format_mac(&frame[0..6]);
    let src_mac = format_mac(&frame[6..12]);
    let ethertype = be16(frame, 12);
    let rest: &[u8] = &frame[14..frame.len()];
    proof {
        assert(rest@ =~= frame@.skip(14));
    }
    if ethertype == 0x0800 {
        if let Some(analysis) = parse_ipv4_packet(rest) {
            return mac_fixup(analysis, &src_mac, &dst_mac);
        }
    } else if ethertype == 0x86DD {
        if let Some(analysis) = parse_ipv6_packet(rest) {
            return mac_fixup(analysis, &src_mac, &dst_mac);
        }
    } else if ethertype == 0x0806 {
        if let Some(analysis) = parse_arp_packet(rest, src_mac.as_str(), dst_mac.as_str()) {
            return analysis;
        }
    }
    let mut protocol = String::from_str("EtherType 0x");
    append_hex4(&mut protocol, ethertype);
    let mut summary = String::from_str("Ethernet 0x");
    append_hex4(&mut summary, ethertype);
    summary.append(" \u{2192} captured ");
    crate::strutil::append_u64_dec(&mut summary, frame.len() as u64);
    summary.append(" bytes");
    let a = PacketAnalysis { source: src_mac, destination: dst_mac, protocol, summary };
    proof {
        assert(a@.protocol =~= spec_analyze_ethernet(frame@).protocol);
        assert(a@.summary =~= spec_analyze_ethernet(frame@).summary);
    }
    a
}

/// Null/Loopback dissection: a four-byte address-family prefix read in the
/// byte order of little-endian capture machines, 2 for IPv4 and 24 for IPv6.
pub open spec fn spec_analyze_null_loopback(p: Seq<u8>) -> Option<AnalysisModel> {
    if p.len() < 4 {
        None
    } else {
        let family = spec_le32(p, 0);
        if family == 2 {
            spec_parse_ipv4(p.skip(4))
        } else if family == 24 {
            spec_parse_ipv6(p.skip(4))
        } else {
            None
        }
    }
}

/// Dissect a Null/Loopback frame.
pub fn analyze_null_loopback(payload: &[u8]) -> (r: Option<PacketAnalysis>)
    ensures
        match r {
            Some(a) => spec_analyze_null_loopback(payload@) == Some(a@),
            None => spec_analyze_null_loopback(payload@) is None,
        },
{
    if payload.len() < 4 {
        return None;
    }
    let family = le32(payload, 0);
    let rest: &[u8] = &payload[4..payload.len()];
    proof {
        assert(rest@ =~= payload@.skip(4));
    }
    if family == 2 {
        parse_ipv4_packet(rest)
    } else if family == 24 {
        parse_ipv6_packet(rest)
    } else {
        None
    }
}

/// Raw-IP dissection: peek at the version nibble of the first byte.
pub open spec fn spec_analyze_raw_ip(p: Seq<u8>) -> Option<AnalysisModel> {
    if p.len() == 0 {
        None
    } else if p[0] / 16 == 4 {
        spec_parse_ipv4(p)
    } else if p[0] / 16 == 6 {
        spec_parse_ipv6(p)
    } else {
        None
    }
}

/// Dissect a frame of unknown link type by peeking at the IP version nibble.
pub fn analyze_raw_ip(payload: &[u8]) -> (r: Option<PacketAnalysis>)
    ensures
        match r {
            Some(a) => spec_analyze_raw_ip(payload@) == Some(a@),
            None => spec_analyze_raw_ip(payload@) is None,
        },
{
    if payload.len() == 0 {
        return None;
    }
    if payload[0] / 16 == 4 {
        parse_ipv4_packet(payload)
    } else if payload[0] / 16 == 6 {
        parse_ipv6_packet(payload)
    } else {
        None
    }
}

/// The dissector's link-type dispatch: Ethernet (1), Null/Loopback (0),
/// raw IPv4 (101, 228), raw IPv6 (229); anything else is probed by IP
/// version nibble. Every failure falls back to the generic description.
pub open spec fn spec_analyze_payload(linktype: u32, p: Seq<u8>) -> AnalysisModel {
    if linktype == 1 {
        spec_analyze_ethernet(p)
    } else if linktype == 0 {
        match spec_analyze_null_loopback(p) {
            Some(a) => a,
            None => spec_fallback_analysis(linktype, p.len()),
        }
    } else if linktype == 101 || linktype == 228 {
        match spec_parse_ipv4(p) {
            Some(a) => a,
            None => spec_fallback_analysis(linktype, p.len()),
        }
    } else if linktype == 229 {
        match spec_parse_ipv6(p) {
            Some(a) => a,
            None => spec_fallback_analysis(linktype, p.len()),
        }
    } else {
        match spec_analyze_raw_ip(p) {
            Some(a) => a,
            None => spec_fallback_analysis(linktype, p.len()),
        }
    }
}

/// Dissect one captured frame according to its link type; never fails.
pub fn analyze_payload(linktype: u32, payload: &[u8]) -> (a: PacketAnalysis)
    ensures
        a@ == spec_analyze_payload(linktype, payload@),
{
    if linktype == 1 {
        analyze_ethernet_frame(payload)
    } else if linktype == 0 {
        match analyze_null_loopback(payload) {
            Some(a) => a,
            None => fallback_analysis(linktype, payload.len()),
        }
    } else if linktype == 101 || linktype == 228 {
        match parse_ipv4_packet(payload) {
            Some(a) => a,
            None => fallback_analysis(linktype, payload.len()),
        }
    } else if linktype == 229 {
        match parse_ipv6_packet(payload) {
            Some(a) => a,
            None => fallback_analysis(linktype, payload.len()),
        }
    } else {
        match analyze_raw_ip(payload) {
            Some(a) => a,
            None => fallback_analysis(linktype, payload.len()),
        }
    }
}

} // verus!
