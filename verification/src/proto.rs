//! Names for IP protocol numbers and descriptions of ICMP type/code pairs.

use vstd::prelude::*;
use vstd::string::StringExecFns;

use crate::strutil::spec_dec;

verus! {

/// The display name of an IP protocol number.
pub open spec fn spec_map_ip_protocol(value: u8) -> Seq<char> {
    if value == 1 {
        "ICMP"@
    } else if value == 2 {
        "IGMP"@
    } else if value == 6 {
        "TCP"@
    } else if value == 17 {
        "UDP"@
    } else if value == 41 {
        "ENCAP"@
    } else if value == 47 {
        "GRE"@
    } else if value == 50 {
        "ESP"@
    } else if value == 51 {
        "AH"@
    } else if value == 58 {
        "ICMPv6"@
    } else if value == 89 {
        "OSPF"@
    } else if value == 132 {
        "SCTP"@
    } else {
        "IP"@
    }
}

/// Map an IP protocol number to its display name.
pub fn map_ip_protocol(value: u8) -> (r: &'static str)
    ensures
        r@ == spec_map_ip_protocol(value),
{
    match value {
        1 => "ICMP",
        2 => "IGMP",
        6 => "TCP",
        17 => "UDP",
        41 => "ENCAP",
        47 => "GRE",
        50 => "ESP",
        51 => "AH",
        58 => "ICMPv6",
        89 => "OSPF",
        132 => "SCTP",
        _ => "IP",
    }
}

/// The generic `type {t}, code {c}` fallback description.
pub open spec fn spec_icmp_generic(icmp_type: u8, icmp_code: u8) -> Seq<char> {
    "type "@ + spec_dec(icmp_type as nat) + ", code "@ + spec_dec(icmp_code as nat)
}

/// The description of an ICMPv4 type/code pair.
pub open spec fn spec_describe_icmpv4(icmp_type: u8, icmp_code: u8) -> Seq<char> {
    if icmp_type == 0 {
        "echo reply"@
    } else if icmp_type == 3 && icmp_code == 0 {
        "destination network unreachable"@
    } else if icmp_type == 3 && icmp_code == 1 {
        "destination host unreachable"@
    } else if icmp_type == 3 && icmp_code == 3 {
        "port unreachable"@
    } else if icmp_type == 5 && icmp_code == 1 {
        "redirect host"@
    } else if icmp_type == 8 {
        "echo request"@
    } else if icmp_type == 11 && icmp_code == 0 {
        "time exceeded in transit"@
    } else if icmp_type == 11 && icmp_code == 1 {
        "fragment reassembly time exceeded"@
    } else {
        spec_icmp_generic(icmp_type, icmp_code)
    }
}

fn icmp_generic(icmp_type: u8, icmp_code: u8) -> (s: String)
    ensures
        s@ == spec_icmp_generic(icmp_type, icmp_code),
{
    let mut s = String::from_str("type ");
    crate::strutil::append_u64_dec(&mut s, icmp_type as u64);
    s.append(", code ");
    crate::strutil::append_u64_dec(&mut s, icmp_code as u64);
    proof {
        assert(s@ =~= spec_icmp_generic(icmp_type, icmp_code));
    }
    s
}

/// Describe an ICMPv4 type/code pair.
pub fn describe_icmpv4(icmp_type: u8, icmp_code: u8) -> (s: String)
    ensures
        s@ == spec_describe_icmpv4(icmp_type, icmp_code),
{
    match (icmp_type, icmp_code) {
        (0, _) => String::from_str("echo reply"),
        (3, 0) => String::from_str("destination network unreachable"),
        (3, 1) => String::from_str("destination host unreachable"),
        (3, 3) => String::from_str("port unreachable"),
        (5, 1) => String::from_str("redirect host"),
        (8, _) => String::from_str("echo request"),
        (11, 0) => String::from_str("time exceeded in transit"),
        (11, 1) => String::from_str("fragment reassembly time exceeded"),
        _ => icmp_generic(icmp_type, icmp_code),
    }
}

/// The description of an ICMPv6 type/code pair.
pub open spec fn spec_describe_icmpv6(icmp_type: u8, icmp_code: u8) -> Seq<char> {
    if icmp_type == 1 && icmp_code == 0 {
        "destination unreachable"@
    } else if icmp_type == 2 && icmp_code == 0 {
        "packet too big"@
    } else if icmp_type == 3 && icmp_code == 0 {
        "time exceeded"@
    } else if icmp_type == 128 {
        "echo request"@
    } else if icmp_type == 129 {
        "echo reply"@
    } else if icmp_type == 133 {
        "router solicitation"@
    } else if icmp_type == 134 {
        "router advertisement"@
    } else if icmp_type == 135 {
        "neighbor solicitation"@
    } else if icmp_type == 136 {
        "neighbor advertisement"@
    } else {
        spec_icmp_generic(icmp_type, icmp_code)
    }
}

/// Describe an ICMPv6 type/code pair.
pub fn describe_icmpv6(icmp_type: u8, icmp_code: u8) -> (s: String)
    ensures
        s@ == spec_describe_icmpv6(icmp_type, icmp_code),
{
    match (icmp_type, icmp_code) {
        (1, 0) => String::from_str("destination unreachable"),
        (2, 0) => String::from_str("packet too big"),
        (3, 0) => String::from_str("time exceeded"),
        (128, _) => String::from_str("echo request"),
        (129, _) => String::from_str("echo reply"),
        (133, _) => String::from_str("router solicitation"),
        (134, _) => String::from_str("router advertisement"),
        (135, _) => String::from_str("neighbor solicitation"),
        (136, _) => String::from_str("neighbor advertisement"),
        _ => icmp_generic(icmp_type, icmp_code),
    }
}

} // verus!
