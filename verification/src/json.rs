//! A small verified JSON string emitter: escaping of string values and the
//! comma-joined renderings used for arrays. The exact output text is pinned
//! down by spec functions so that callers can state the full shape of the
//! documents they build.

use vstd::prelude::*;
use vstd::string::StrSliceExecFns;
use vstd::string::StringExecFns;

use crate::strutil::hex_digit_lower;
use crate::strutil::push_char;
use crate::strutil::spec_dec;

verus! {

/// How one character is written inside a JSON string literal: quote and
/// backslash get a backslash escape, control characters a `\u00XX` escape,
/// and everything else stands as itself.
pub open spec fn json_escape_char(c: char) -> Seq<char> {
    if c == '"' {
        seq!['\\', '"']
    } else if c == '\\' {
        seq!['\\', '\\']
    } else if (c as nat) < 0x20 {
        seq!['\\', 'u', '0', '0', hex_digit_lower(c as nat / 16), hex_digit_lower(c as nat % 16)]
    } else {
        seq![c]
    }
}

/// The body of a JSON string literal for `s`: every character escaped.
pub open spec fn json_escape(s: Seq<char>) -> Seq<char>
    decreases s.len(),
{
    if s.len() == 0 {
        Seq::empty()
    } else {
        json_escape(s.drop_last()) + json_escape_char(s.last())
    }
}

/// The JSON string literal for `s`, quotes included.
pub open spec fn json_str(s: Seq<char>) -> Seq<char> {
    seq!['"'] + json_escape(s) + seq!['"']
}

/// Append one escaped character.
fn append_escaped_char(out: &mut String, c: char)
    ensures
        final(out)@ == old(out)@ + json_escape_char(c),
{
    if c == '"' {
        push_char(out, '\\');
        push_char(out, '"');
        proof {
            assert(out@ =~= old(out)@ + json_escape_char(c));
        }
    } else if c == '\\' {
        push_char(out, '\\');
        push_char(out, '\\');
        proof {
            assert(out@ =~= old(out)@ + json_escape_char(c));
        }
    } else if (c as u32) < 0x20 {
        let v = c as u32;
        push_char(out, '\\');
        push_char(out, 'u');
        push_char(out, '0');
        push_char(out, '0');
        let hi = (v / 16) as u8;
        let lo = (v % 16) as u8;
        push_char(out, if hi < 10 {
            (0x30u8 + hi) as char
        } else {
            (0x61u8 + (hi - 10)) as char
        });
        push_char(out, if lo < 10 {
            (0x30u8 + lo) as char
        } else {
            (0x61u8 + (lo - 10)) as char
        });
        proof {
            assert(out@ =~= old(out)@ + json_escape_char(c));
        }
    } else {
        push_char(out, c);
        proof {
            assert(out@ =~= old(out)@ + json_escape_char(c));
        }
    }
}

/// Escaping distributes over extending a string by one character.
pub proof fn lemma_json_escape_push(s: Seq<char>, c: char)
    ensures
        json_escape(s.push(c)) == json_escape(s) + json_escape_char(c),
{
    assert(s.push(c).drop_last() =~= s);
    assert(s.push(c).last() == c);
}

/// Append the JSON string literal for `s`, quotes included.
pub fn append_json_str(out: &mut String, s: &str)
    ensures
        final(out)@ == old(out)@ + json_str(s@),
{
    push_char(out, '"');
    let n = s.unicode_len();
    let mut i: usize = 0;
    while i < n
        invariant
            n == s@.len(),
            i <= n,
            out@ == old(out)@ + seq!['"'] + json_escape(s@.take(i as int)),
        decreases n - i,
    {
        let c = s.get_char(i);
        append_escaped_char(out, c);
        proof {
            lemma_json_escape_push(s@.take(i as int), c);
            assert(s@.take(i as int).push(c) =~= s@.take(i as int + 1));
        }
        i = i + 1;
    }
    push_char(out, '"');
    proof {
        assert(s@.take(n as int) =~= s@);
        assert(out@ =~= old(out)@ + json_str(s@));
    }
}

/// The comma-joined decimal renderings of a sequence of bytes, as used for
/// the body of a JSON array of numbers.
pub open spec fn json_byte_list(bytes: Seq<u8>) -> Seq<char>
    decreases bytes.len(),
{
    if bytes.len() == 0 {
        Seq::empty()
    } else if bytes.len() == 1 {
        spec_dec(bytes[0] as nat)
    } else {
        json_byte_list(bytes.drop_last()) + seq![','] + spec_dec(bytes.last() as nat)
    }
}

/// Append `[b0,b1,...]` for the given bytes.
pub fn append_json_byte_array(out: &mut String, bytes: &[u8])
    ensures
        final(out)@ == old(out)@ + seq!['['] + json_byte_list(bytes@) + seq![']'],
{
    push_char(out, '[');
    let n = bytes.len();
    let mut i: usize = 0;
    while i < n
        invariant
            n == bytes@.len(),
            i <= n,
            out@ == old(out)@ + seq!['['] + json_byte_list(bytes@.take(i as int)),
        decreases n - i,
    {
        if i > 0 {
            push_char(out, ',');
        }
        crate::strutil::append_u64_dec(out, bytes[i] as u64);
        proof {
            assert(bytes@.take(i as int + 1).drop_last() =~= bytes@.take(i as int));
            assert(bytes@.take(i as int + 1).last() == bytes@[i as int]);
            assert(out@ =~= old(out)@ + seq!['['] + json_byte_list(bytes@.take(i as int + 1)));
        }
        i = i + 1;
    }
    push_char(out, ']');
    proof {
        assert(bytes@.take(n as int) =~= bytes@);
        assert(out@ =~= old(out)@ + seq!['['] + json_byte_list(bytes@) + seq![']']);
    }
}

/// The comma-joined JSON string literals for a sequence of strings, as used
/// for the body of a JSON array of strings.
pub open spec fn json_string_list(ss: Seq<Seq<char>>) -> Seq<char>
    decreases ss.len(),
{
    if ss.len() == 0 {
        Seq::empty()
    } else if ss.len() == 1 {
        json_str(ss[0])
    } else {
        json_string_list(ss.drop_last()) + seq![','] + json_str(ss.last())
    }
}

/// Append `["s0","s1",...]` for the given strings.
pub fn append_json_string_array(out: &mut String, ss: &Vec<String>)
    ensures
        final(out)@ == old(out)@ + seq!['['] + json_string_list(ss@.map_values(|s: String| s@))
            + seq![']'],
{
    let ghost views = ss@.map_values(|s: String| s@);
    push_char(out, '[');
    let n = ss.len();
    let mut i: usize = 0;
    while i < n
        invariant
            n == ss@.len(),
            views == ss@.map_values(|s: String| s@),
            i <= n,
            out@ == old(out)@ + seq!['['] + json_string_list(views.take(i as int)),
        decreases n - i,
    {
        if i > 0 {
            push_char(out, ',');
        }
        append_json_str(out, ss[i].as_str());
        proof {
            assert(views.take(i as int + 1).drop_last() =~= views.take(i as int));
            assert(views.take(i as int + 1).last() == ss@[i as int]@);
            assert(out@ =~= old(out)@ + seq!['['] + json_string_list(views.take(i as int + 1)));
        }
        i = i + 1;
    }
    push_char(out, ']');
    proof {
        assert(views.take(n as int) =~= views);
        assert(out@ =~= old(out)@ + seq!['['] + json_string_list(views) + seq![']']);
    }
}

} // verus!
