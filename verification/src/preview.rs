//! Short previews of byte buffers: space-separated upper-case hex pairs and a
//! printable-ASCII rendering, both cut off after a maximum number of bytes
//! with an ellipsis marking the continuation.

use vstd::prelude::*;
use vstd::string::StringExecFns;

use crate::strutil::hex_digit;
use crate::strutil::push_char;

verus! {

/// The two upper-case hex digits of one byte.
pub open spec fn spec_hex_pair(b: u8) -> Seq<char> {
    seq![hex_digit(b as nat / 16), hex_digit(b as nat % 16)]
}

/// Space-separated hex pairs of all given bytes.
pub open spec fn spec_hex_body(bytes: Seq<u8>) -> Seq<char>
    decreases bytes.len(),
{
    if bytes.len() == 0 {
        Seq::empty()
    } else if bytes.len() == 1 {
        spec_hex_pair(bytes[0])
    } else {
        spec_hex_body(bytes.drop_last()) + seq![' '] + spec_hex_pair(bytes.last())
    }
}

/// The hex preview covers the first `min(len, max)` bytes; a longer input is
/// marked with a space and an ellipsis.
pub open spec fn spec_hex_preview(bytes: Seq<u8>, max: nat) -> Seq<char> {
    let p = if bytes.len() <= max {
        bytes.len()
    } else {
        max
    };
    if bytes.len() > p {
        spec_hex_body(bytes.take(p as int)) + seq![' ', '\u{2026}']
    } else {
        spec_hex_body(bytes)
    }
}

/// The printable rendering of one byte: the ASCII glyph for `0x20..=0x7E`,
/// a dot for everything else.
pub open spec fn spec_ascii_char(b: u8) -> char {
    if 0x20 <= b <= 0x7E {
        b as char
    } else {
        '.'
    }
}

/// The printable rendering of all given bytes.
pub open spec fn spec_ascii_body(bytes: Seq<u8>) -> Seq<char> {
    bytes.map_values(|b: u8| spec_ascii_char(b))
}

/// The ASCII preview covers the first `min(len, max)` bytes; a longer input
/// is marked with an ellipsis (no separating space).
pub open spec fn spec_ascii_preview(bytes: Seq<u8>, max: nat) -> Seq<char> {
    let p = if bytes.len() <= max {
        bytes.len()
    } else {
        max
    };
    if bytes.len() > p {
        spec_ascii_body(bytes.take(p as int)).push('\u{2026}')
    } else {
        spec_ascii_body(bytes)
    }
}

/// Upper-case hex preview of the first `max_len` bytes, pairs separated by
/// single spaces, with ` …` appended when the input is longer.
pub fn build_hex_preview(bytes: &[u8], max_len: usize) -> (s: String)
    ensures
        s@ == spec_hex_preview(bytes@, max_len as nat),
{
    let preview_len = if bytes.len() <= max_len {
        bytes.len()
    } else {
        max_len
    };
    let mut s = String::new();
    let mut i: usize = 0;
    while i < preview_len
        invariant
            preview_len <= bytes@.len(),
            i <= preview_len,
            s@ == spec_hex_body(bytes@.take(i as int)),
        decreases preview_len - i,
    {
        if i > 0 {
            push_char(&mut s, ' ');
        }
        let b = bytes[i];
        let hi = b / 16;
        let lo = b % 16;
        push_char(&mut s, if hi < 10 {
            (0x30u8 + hi) as char
        } else {
            (0x41u8 + (hi - 10)) as char
        });
        push_char(&mut s, if lo < 10 {
            (0x30u8 + lo) as char
        } else {
            (0x41u8 + (lo - 10)) as char
        });
        proof {
            assert(bytes@.take(i as int + 1).drop_last() =~= bytes@.take(i as int));
            assert(bytes@.take(i as int + 1).last() == bytes@[i as int]);
            assert(s@ =~= spec_hex_body(bytes@.take(i as int + 1)));
        }
        i = i + 1;
    }
    if bytes.len() > preview_len {
        push_char(&mut s, ' ');
        push_char(&mut s, '\u{2026}');
        proof {
            assert(s@ =~= spec_hex_preview(bytes@, max_len as nat));
        }
    } else {
        proof {
            assert(bytes@.take(preview_len as int) =~= bytes@);
            assert(s@ =~= spec_hex_preview(bytes@, max_len as nat));
        }
    }
    s
}

/// Printable-ASCII preview of the first `max_len` bytes, with `…` appended
/// when the input is longer.
pub fn build_ascii_preview(bytes: &[u8], max_len: usize) -> (s: String)
    ensures
        s@ == spec_ascii_preview(bytes@, max_len as nat),
{
    let preview_len = if bytes.len() <= max_len {
        bytes.len()
    } else {
        max_len
    };
    let mut s = String::new();
    let mut i: usize = 0;
    while i < preview_len
        invariant
            preview_len <= bytes@.len(),
            i <= preview_len,
            s@ == spec_ascii_body(bytes@.take(i as int)),
        decreases preview_len - i,
    {
        let b = bytes[i];
        if 0x20 <= b && b <= 0x7E {
            push_char(&mut s, b as char);
        } else {
            push_char(&mut s, '.');
        }
        proof {
            assert(s@ =~= spec_ascii_body(bytes@.take(i as int + 1)));
        }
        i = i + 1;
    }
    if bytes.len() > preview_len {
        push_char(&mut s, '\u{2026}');
        proof {
            assert(s@ =~= spec_ascii_preview(bytes@, max_len as nat));
        }
    } else {
        proof {
            assert(bytes@.take(preview_len as int) =~= bytes@);
            assert(s@ =~= spec_ascii_preview(bytes@, max_len as nat));
        }
    }
    s
}

/// Every character of a hex preview is a decimal digit, an upper-case hex
/// letter, a space, or the ellipsis; and the ellipsis appears exactly when
/// the input is longer than the cut-off.
pub proof fn lemma_hex_preview_charset(bytes: Seq<u8>, max: nat)
    ensures
        forall|i: int|
            0 <= i < spec_hex_preview(bytes, max).len() ==> is_hex_preview_char(
                #[trigger] spec_hex_preview(bytes, max)[i],
            ),
        spec_hex_preview(bytes, max).contains('\u{2026}') <==> bytes.len() > max,
{
    let p = if bytes.len() <= max {
        bytes.len()
    } else {
        max
    };
    lemma_hex_body_charset(bytes.take(p as int));
    assert(bytes.take(p as int) =~= bytes || bytes.len() > p);
    if bytes.len() > p {
        let s = spec_hex_preview(bytes, max);
        assert(s[s.len() - 1] == '\u{2026}');
        assert(s.contains('\u{2026}'));
    } else {
        assert(bytes.take(p as int) =~= bytes);
        if spec_hex_preview(bytes, max).contains('\u{2026}') {
            let i = choose|i: int|
                0 <= i < spec_hex_body(bytes).len() && spec_hex_body(bytes)[i] == '\u{2026}';
            assert(is_hex_body_char(spec_hex_body(bytes)[i]));
        }
    }
}

/// Characters allowed in the body of a hex preview.
pub open spec fn is_hex_body_char(c: char) -> bool {
    ('0' <= c && c <= '9') || ('A' <= c && c <= 'F') || c == ' '
}

/// Characters allowed anywhere in a hex preview.
pub open spec fn is_hex_preview_char(c: char) -> bool {
    is_hex_body_char(c) || c == '\u{2026}'
}

proof fn lemma_hex_digit_charset(d: nat)
    requires
        d < 16,
    ensures
        is_hex_body_char(hex_digit(d)),
        hex_digit(d) != ' ',
{
    if d < 10 {
        assert(0x30 + d <= 0x39);
        assert(hex_digit(d) as nat == 0x30 + d);
    } else {
        assert(0x41 + (d - 10) <= 0x46);
        assert(hex_digit(d) as nat == 0x41 + (d - 10));
    }
}

proof fn lemma_hex_body_charset(bytes: Seq<u8>)
    ensures
        forall|i: int|
            0 <= i < spec_hex_body(bytes).len() ==> is_hex_body_char(
                #[trigger] spec_hex_body(bytes)[i],
            ),
    decreases bytes.len(),
{
    if bytes.len() == 0 {
    } else if bytes.len() == 1 {
        lemma_hex_digit_charset(bytes[0] as nat / 16);
        lemma_hex_digit_charset(bytes[0] as nat % 16);
        let s = spec_hex_body(bytes);
        assert forall|i: int| 0 <= i < s.len() implies is_hex_body_char(s[i]) by {
            assert(s == spec_hex_pair(bytes[0]));
            if i == 0 {
                assert(s[i] == hex_digit(bytes[0] as nat / 16));
            } else {
                assert(s[i] == hex_digit(bytes[0] as nat % 16));
            }
        }
    } else {
        lemma_hex_body_charset(bytes.drop_last());
        lemma_hex_digit_charset(bytes.last() as nat / 16);
        lemma_hex_digit_charset(bytes.last() as nat % 16);
        let s = spec_hex_body(bytes);
        let pre = spec_hex_body(bytes.drop_last());
        assert(s == pre + seq![' '] + spec_hex_pair(bytes.last()));
        assert forall|i: int| 0 <= i < s.len() implies is_hex_body_char(s[i]) by {
            if i < pre.len() {
                assert(s[i] == pre[i]);
            } else if i == pre.len() {
                assert(s[i] == ' ');
            } else if i == pre.len() + 1 {
                assert(s[i] == hex_digit(bytes.last() as nat / 16));
            } else {
                assert(s[i] == hex_digit(bytes.last() as nat % 16));
            }
        }
    }
}

/// Every character of an ASCII preview is printable ASCII (`0x20..=0x7E`) or
/// the ellipsis; and the ellipsis appears exactly when the input is longer
/// than the cut-off.
pub proof fn lemma_ascii_preview_charset(bytes: Seq<u8>, max: nat)
    ensures
        forall|i: int|
            0 <= i < spec_ascii_preview(bytes, max).len() ==> is_ascii_preview_char(
                #[trigger] spec_ascii_preview(bytes, max)[i],
            ),
        spec_ascii_preview(bytes, max).contains('\u{2026}') <==> bytes.len() > max,
{
    let p = if bytes.len() <= max {
        bytes.len()
    } else {
        max
    };
    if bytes.len() > p {
        let s = spec_ascii_preview(bytes, max);
        assert(s[s.len() - 1] == '\u{2026}');
        assert(s.contains('\u{2026}'));
    } else {
        assert(bytes.take(p as int) =~= bytes);
        if spec_ascii_preview(bytes, max).contains('\u{2026}') {
            let i = choose|i: int|
                0 <= i < spec_ascii_body(bytes).len() && spec_ascii_body(bytes)[i] == '\u{2026}';
            assert(spec_ascii_body(bytes)[i] == spec_ascii_char(bytes[i]));
        }
    }
}

/// Characters allowed anywhere in an ASCII preview.
pub open spec fn is_ascii_preview_char(c: char) -> bool {
    (0x20 <= c as nat && c as nat <= 0x7E) || c == '\u{2026}'
}

} // verus!
