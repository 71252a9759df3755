//! Textual shapes of link- and network-layer addresses: colon-separated
//! upper-case MAC addresses, dotted-quad IPv4, and compressed lower-case
//! IPv6 with the usual longest-zero-run elision and the IPv4-mapped special
//! case.

use vstd::prelude::*;
use vstd::string::StringExecFns;

use crate::preview::spec_hex_pair;
use crate::strutil::hex_digit_lower;
use crate::strutil::push_char;
use crate::strutil::spec_dec;
use crate::strutil::u64_dec;

verus! {

/// Upper-case hex pairs joined by `:`.
pub open spec fn spec_mac(bytes: Seq<u8>) -> Seq<char>
    decreases bytes.len(),
{
    if bytes.len() == 0 {
        Seq::empty()
    } else if bytes.len() == 1 {
        spec_hex_pair(bytes[0])
    } else {
        spec_mac(bytes.drop_last()) + seq![':'] + spec_hex_pair(bytes.last())
    }
}

/// Render a MAC address (or any byte string) as upper-case hex pairs joined
/// by colons.
pub fn format_mac(bytes: &[u8]) -> (s: String)
    ensures
        s@ == spec_mac(bytes@),
{
    let mut s = String::new();
    let n = bytes.len();
    let mut i: usize = 0;
    while i < n
        invariant
            n == bytes@.len(),
            i <= n,
            s@ == spec_mac(bytes@.take(i as int)),
        decreases n - i,
    {
        if i > 0 {
            push_char(&mut s, ':');
        }
        let b = bytes[i];
        let hi = b / 16;
        let lo = b % 16;
        push_char(&mut s, if hi < 10 {
            (0x30u8 + hi) as char
        } else {
            (0x41u8 + (hi - 10)) as char
        });
        push_char(&mut s, if lo < 10 {
            (0x30u8 + lo) as char
        } else {
            (0x41u8 + (lo - 10)) as char
        });
        proof {
            assert(bytes@.take(i as int + 1).drop_last() =~= bytes@.take(i as int));
            assert(bytes@.take(i as int + 1).last() == bytes@[i as int]);
            assert(s@ =~= spec_mac(bytes@.take(i as int + 1)));
        }
        i = i + 1;
    }
    proof {
        assert(bytes@.take(n as int) =~= bytes@);
    }
    s
}

/// Dotted-quad IPv4 text.
pub open spec fn spec_ipv4(a: u8, b: u8, c: u8, d: u8) -> Seq<char> {
    spec_dec(a as nat) + seq!['.'] + spec_dec(b as nat) + seq!['.'] + spec_dec(c as nat)
        + seq!['.'] + spec_dec(d as nat)
}

/// Render four octets as dotted-quad IPv4 text.
pub fn ipv4_string(a: u8, b: u8, c: u8, d: u8) -> (s: String)
    ensures
        s@ == spec_ipv4(a, b, c, d),
{
    let mut s = u64_dec(a as u64);
    push_char(&mut s, '.');
    crate::strutil::append_u64_dec(&mut s, b as u64);
    push_char(&mut s, '.');
    crate::strutil::append_u64_dec(&mut s, c as u64);
    push_char(&mut s, '.');
    crate::strutil::append_u64_dec(&mut s, d as u64);
    proof {
        assert(s@ =~= spec_ipv4(a, b, c, d));
    }
    s
}

/// An address with a transport port attached.
pub open spec fn spec_port(addr: Seq<char>, port: u16) -> Seq<char> {
    addr + seq![':'] + spec_dec(port as nat)
}

/// Attach a transport port to an address.
pub fn format_port(address: &str, port: u16) -> (s: String)
    ensures
        s@ == spec_port(address@, port),
{
    let mut s = String::from_str(address);
    push_char(&mut s, ':');
    crate::strutil::append_u64_dec(&mut s, port as u64);
    proof {
        assert(s@ =~= spec_port(address@, port));
    }
    s
}

/// The eight 16-bit groups of an IPv6 address, big-endian within each group.
pub open spec fn ipv6_groups(b: Seq<u8>) -> Seq<u16>
    recommends
        b.len() == 16,
{
    Seq::new(8, |i: int| (b[2 * i] as u16 * 256 + b[2 * i + 1] as u16) as u16)
}

/// Lower-case hex rendering of one group, without leading zeros.
pub open spec fn spec_hex_group(v: nat) -> Seq<char>
    decreases v,
{
    if v < 16 {
        seq![hex_digit_lower(v)]
    } else {
        spec_hex_group(v / 16).push(hex_digit_lower(v % 16))
    }
}

/// Hex groups joined by `:`.
pub open spec fn spec_groups_join(gs: Seq<u16>) -> Seq<char>
    decreases gs.len(),
{
    if gs.len() == 0 {
        Seq::empty()
    } else if gs.len() == 1 {
        spec_hex_group(gs[0] as nat)
    } else {
        spec_groups_join(gs.drop_last()) + seq![':'] + spec_hex_group(gs.last() as nat)
    }
}

/// Scan for the zero run to elide: the first run of zero groups of maximal
/// length, tracked as (current start, current length, best start, best
/// length); a later run replaces the best one only when strictly longer.
pub open spec fn spec_zero_run_scan(g: Seq<u16>, i: int, cs: int, cl: int, bs: int, bl: int) -> (
    int,
    int,
)
    decreases g.len() - i,
{
    if i < 0 || i >= g.len() {
        if cl > bl {
            (cs, cl)
        } else {
            (bs, bl)
        }
    } else if g[i] == 0 {
        spec_zero_run_scan(
            g,
            i + 1,
            if cl == 0 {
                i
            } else {
                cs
            },
            cl + 1,
            bs,
            bl,
        )
    } else {
        spec_zero_run_scan(
            g,
            i + 1,
            0,
            0,
            if cl > bl {
                cs
            } else {
                bs
            },
            if cl > bl {
                cl
            } else {
                bl
            },
        )
    }
}

/// Start and length of the zero run that compression elides.
pub open spec fn spec_best_zero_run(g: Seq<u16>) -> (int, int) {
    spec_zero_run_scan(g, 0, 0, 0, 0, 0)
}

/// The compressed textual shape of an IPv6 address given as 16 bytes:
/// the IPv4-mapped prefix keeps its dotted-quad tail; otherwise the first
/// longest run of two or more zero groups collapses to `::`.
pub open spec fn spec_ipv6(b: Seq<u8>) -> Seq<char>
    recommends
        b.len() == 16,
{
    let g = ipv6_groups(b);
    if g[0] == 0 && g[1] == 0 && g[2] == 0 && g[3] == 0 && g[4] == 0 && g[5] == 0xFFFF {
        "::ffff:"@ + spec_ipv4(b[12], b[13], b[14], b[15])
    } else {
        let (bs, bl) = spec_best_zero_run(g);
        if bl >= 2 {
            spec_groups_join(g.take(bs)) + "::"@ + spec_groups_join(g.skip(bs + bl))
        } else {
            spec_groups_join(g)
        }
    }
}

/// Append the lower-case hex rendering of one group.
fn append_hex_group(out: &mut String, v: u16)
    ensures
        final(out)@ == old(out)@ + spec_hex_group(v as nat),
    decreases v,
{
    if v < 16 {
        let d = v as u8;
        push_char(out, if d < 10 {
            (0x30u8 + d) as char
        } else {
            (0x61u8 + (d - 10)) as char
        });
        proof {
            assert(out@ =~= old(out)@ + spec_hex_group(v as nat));
        }
    } else {
        append_hex_group(out, v / 16);
        let d = (v % 16) as u8;
        push_char(out, if d < 10 {
            (0x30u8 + d) as char
        } else {
            (0x61u8 + (d - 10)) as char
        });
        proof {
            assert(out@ =~= old(out)@ + spec_hex_group(v as nat));
        }
    }
}

/// Append groups `[from, to)` joined by `:`.
fn append_groups_join(out: &mut String, groups: &Vec<u16>, from: usize, to: usize)
    requires
        from <= to <= groups@.len(),
    ensures
        final(out)@ == old(out)@ + spec_groups_join(groups@.subrange(from as int, to as int)),
{
    let mut i = from;
    while i < to
        invariant
            from <= i <= to <= groups@.len(),
            out@ == old(out)@ + spec_groups_join(groups@.subrange(from as int, i as int)),
        decreases to - i,
    {
        if i > from {
            push_char(out, ':');
        }
        append_hex_group(out, groups[i]);
        proof {
            let sub = groups@.subrange(from as int, i as int + 1);
            assert(sub.drop_last() =~= groups@.subrange(from as int, i as int));
            assert(sub.last() == groups@[i as int]);
            assert(out@ =~= old(out)@ + spec_groups_join(sub));
        }
        i = i + 1;
    }
}

/// Render a 16-byte IPv6 address in its compressed textual shape.
pub fn ipv6_string(b: &[u8]) -> (s: String)
    requires
        b@.len() == 16,
    ensures
        s@ == spec_ipv6(b@),
{
    let ghost g = ipv6_groups(b@);
    let mut groups: Vec<u16> = Vec::new();
    let mut k: usize = 0;
    while k < 8
        invariant
            b@.len() == 16,
            k <= 8,
            groups@.len() == k,
            forall|j: int| 0 <= j < k ==> groups@[j] == ipv6_groups(b@)[j],
        decreases 8 - k,
    {
        let v = b[2 * k] as u16 * 256 + b[2 * k + 1] as u16;
        groups.push(v);
        k = k + 1;
    }
    proof {
        assert(groups@ =~= g);
    }
    if groups[0] == 0 && groups[1] == 0 && groups[2] == 0 && groups[3] == 0 && groups[4] == 0
        && groups[5] == 0xFFFF {
        let mut s = String::from_str("::ffff:");
        crate::strutil::append_u64_dec(&mut s, b[12] as u64);
        push_char(&mut s, '.');
        crate::strutil::append_u64_dec(&mut s, b[13] as u64);
        push_char(&mut s, '.');
        crate::strutil::append_u64_dec(&mut s, b[14] as u64);
        push_char(&mut s, '.');
        crate::strutil::append_u64_dec(&mut s, b[15] as u64);
        proof {
            assert(s@ =~= spec_ipv6(b@));
        }
        s
    } else {
        // Find the first longest run of zero groups.
        let mut cs: usize = 0;
        let mut cl: usize = 0;
        let mut bs: usize = 0;
        let mut bl: usize = 0;
        let mut i: usize = 0;
        while i < 8
            invariant
                groups@ == g,
                g.len() == 8,
                i <= 8,
                cl <= i,
                cs + cl <= i,
                bs + bl <= i,
                spec_best_zero_run(g) == spec_zero_run_scan(
                    g,
                    i as int,
                    cs as int,
                    cl as int,
                    bs as int,
                    bl as int,
                ),
            decreases 8 - i,
        {
            if groups[i] == 0 {
                if cl == 0 {
                    cs = i;
                }
                cl = cl + 1;
            } else {
                if cl > bl {
                    bs = cs;
                    bl = cl;
                }
                cs = 0;
                cl = 0;
            }
            i = i + 1;
        }
        if cl > bl {
            bs = cs;
            bl = cl;
        }
        proof {
            assert((bs as int, bl as int) == spec_best_zero_run(g));
        }
        let mut s = String::new();
        if bl >= 2 {
            append_groups_join(&mut s, &groups, 0, bs);
            push_char(&mut s, ':');
            push_char(&mut s, ':');
            append_groups_join(&mut s, &groups, bs + bl, 8);
            proof {
                assert(g.take(bs as int) =~= g.subrange(0, bs as int));
                assert(g.skip(bs as int + bl as int) =~= g.subrange(bs as int + bl as int, 8));
                assert("::"@ =~= seq![':', ':']) by {
                    reveal_strlit("::");
                }
                assert(s@ =~= spec_ipv6(b@));
            }
        } else {
            append_groups_join(&mut s, &groups, 0, 8);
            proof {
                assert(g =~= g.subrange(0, 8));
                assert(s@ =~= spec_ipv6(b@));
            }
        }
        s
    }
}

} // verus!
