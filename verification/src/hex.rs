//! Rendering of bytes and words as hexadecimal text, used by the
//! disassembler and the diagnostic dumps. Text is built as ASCII bytes with
//! exact contents and turned into a `String` at the very end.

use vstd::prelude::*;

verus! {

/// The ASCII byte of the lower-case hexadecimal digit of `n % 16`.
pub open spec fn hex_lower(n: int) -> u8 {
    let d = n % 16;
    if d < 10 {
        (0x30 + d) as u8
    } else {
        (0x57 + d) as u8
    }
}

/// The ASCII byte of the upper-case hexadecimal digit of `n % 16`.
pub open spec fn hex_upper(n: int) -> u8 {
    let d = n % 16;
    if d < 10 {
        (0x30 + d) as u8
    } else {
        (0x37 + d) as u8
    }
}

/// One lower-case hex digit, as rendered for a register index.
pub open spec fn hex1_lower(n: int) -> Seq<u8> {
    seq![hex_lower(n)]
}

/// The two lower-case hex digits of a byte value.
pub open spec fn hex2_lower(n: int) -> Seq<u8> {
    seq![hex_lower(n / 16), hex_lower(n)]
}

/// The four lower-case hex digits of a 16-bit value.
pub open spec fn hex4_lower(n: int) -> Seq<u8> {
    seq![hex_lower(n / 4096), hex_lower(n / 256), hex_lower(n / 16), hex_lower(n)]
}

/// One upper-case hex digit.
pub open spec fn hex1_upper(n: int) -> Seq<u8> {
    seq![hex_upper(n)]
}

/// The two upper-case hex digits of a byte value.
pub open spec fn hex2_upper(n: int) -> Seq<u8> {
    seq![hex_upper(n / 16), hex_upper(n)]
}

/// The four upper-case hex digits of a 16-bit value.
pub open spec fn hex4_upper(n: int) -> Seq<u8> {
    seq![hex_upper(n / 4096), hex_upper(n / 256), hex_upper(n / 16), hex_upper(n)]
}

/// Every byte is an ASCII code point.
pub open spec fn all_ascii(s: Seq<u8>) -> bool {
    forall|i: int| 0 <= i < s.len() ==> s[i] < 128
}

/// The characters spelled by a sequence of ASCII bytes.
pub open spec fn chars_of(s: Seq<u8>) -> Seq<char> {
    s.map_values(|b: u8| b as char)
}

/// Appending ASCII bytes to ASCII text leaves ASCII text.
proof fn lemma_ascii_extend(a: Seq<u8>, b: Seq<u8>)
    requires
        all_ascii(b),
    ensures
        all_ascii(a) ==> all_ascii(a + b),
{
    if all_ascii(a) {
        assert forall|i: int| 0 <= i < (a + b).len() implies (a + b)[i] < 128 by {
            if i < a.len() {
                assert((a + b)[i] == a[i]);
            } else {
                assert((a + b)[i] == b[i - a.len()]);
            }
        }
    }
}

/// Appends one ASCII byte.
pub fn push_lit(v: &mut Vec<u8>, b: u8)
    requires
        b < 128,
    ensures
        final(v)@ == old(v)@ + seq![b],
        all_ascii(old(v)@) ==> all_ascii(final(v)@),
{
    v.push(b);
    proof {
        assert(v@ =~= old(v)@ + seq![b]);
        assert(all_ascii(seq![b]));
        lemma_ascii_extend(old(v)@, seq![b]);
    }
}

/// The ASCII byte of the lower-case hex digit of a value below 16.
pub fn hex_digit_lower(n: u8) -> (r: u8)
    requires
        n < 16,
    ensures
        r == hex_lower(n as int),
{
    if n < 10 {
        0x30 + n
    } else {
        0x57 + n
    }
}

/// The ASCII byte of the upper-case hex digit of a value below 16.
pub fn hex_digit_upper(n: u8) -> (r: u8)
    requires
        n < 16,
    ensures
        r == hex_upper(n as int),
{
    if n < 10 {
        0x30 + n
    } else {
        0x37 + n
    }
}

/// Appends the single lower-case hex digit of a value below 16.
pub fn push_hex1_lower(v: &mut Vec<u8>, n: u8)
    requires
        n < 16,
    ensures
        final(v)@ == old(v)@ + hex1_lower(n as int),
        all_ascii(old(v)@) ==> all_ascii(final(v)@),
{
    let d = hex_digit_lower(n);
    v.push(d);
    proof {
        assert(v@ =~= old(v)@ + hex1_lower(n as int));
        assert(all_ascii(hex1_lower(n as int)));
        lemma_ascii_extend(old(v)@, hex1_lower(n as int));
    }
}

/// Appends the two lower-case hex digits of a byte.
pub fn push_hex2_lower(v: &mut Vec<u8>, b: u8)
    ensures
        final(v)@ == old(v)@ + hex2_lower(b as int),
        all_ascii(old(v)@) ==> all_ascii(final(v)@),
{
    let hi = hex_digit_lower(b / 16);
    let lo = hex_digit_lower(b % 16);
    v.push(hi);
    v.push(lo);
    proof {
        assert(b / 16 < 16 && (b / 16) % 16 == b / 16);
        assert(v@ =~= old(v)@ + hex2_lower(b as int));
        assert(all_ascii(hex2_lower(b as int)));
        lemma_ascii_extend(old(v)@, hex2_lower(b as int));
    }
}

/// Appends the four lower-case hex digits of a 16-bit value.
pub fn push_hex4_lower(v: &mut Vec<u8>, w: u16)
    ensures
        final(v)@ == old(v)@ + hex4_lower(w as int),
        all_ascii(old(v)@) ==> all_ascii(final(v)@),
{
    proof {
        assert(w as int / 4096 < 16) by (nonlinear_arith)
            requires
                w as int <= 65535,
        ;
    }
    let d0 = hex_digit_lower((w / 4096) as u8);
    let d1 = hex_digit_lower((w / 256 % 16) as u8);
    let d2 = hex_digit_lower((w / 16 % 16) as u8);
    let d3 = hex_digit_lower((w % 16) as u8);
    v.push(d0);
    v.push(d1);
    v.push(d2);
    v.push(d3);
    proof {
        assert((w as int / 4096) % 16 == w as int / 4096);
        assert(v@ =~= old(v)@ + hex4_lower(w as int));
        assert(all_ascii(hex4_lower(w as int)));
        lemma_ascii_extend(old(v)@, hex4_lower(w as int));
    }
}

/// Appends the single upper-case hex digit of a value below 16.
pub fn push_hex1_upper(v: &mut Vec<u8>, n: u8)
    requires
        n < 16,
    ensures
        final(v)@ == old(v)@ + hex1_upper(n as int),
        all_ascii(old(v)@) ==> all_ascii(final(v)@),
{
    let d = hex_digit_upper(n);
    v.push(d);
    proof {
        assert(v@ =~= old(v)@ + hex1_upper(n as int));
        assert(all_ascii(hex1_upper(n as int)));
        lemma_ascii_extend(old(v)@, hex1_upper(n as int));
    }
}

/// Appends the two upper-case hex digits of a byte.
pub fn push_hex2_upper(v: &mut Vec<u8>, b: u8)
    ensures
        final(v)@ == old(v)@ + hex2_upper(b as int),
        all_ascii(old(v)@) ==> all_ascii(final(v)@),
{
    let hi = hex_digit_upper(b / 16);
    let lo = hex_digit_upper(b % 16);
    v.push(hi);
    v.push(lo);
    proof {
        assert(b / 16 < 16 && (b / 16) % 16 == b / 16);
        assert(v@ =~= old(v)@ + hex2_upper(b as int));
        assert(all_ascii(hex2_upper(b as int)));
        lemma_ascii_extend(old(v)@, hex2_upper(b as int));
    }
}

/// Appends the four upper-case hex digits of a 16-bit value.
pub fn push_hex4_upper(v: &mut Vec<u8>, w: u16)
    ensures
        final(v)@ == old(v)@ + hex4_upper(w as int),
        all_ascii(old(v)@) ==> all_ascii(final(v)@),
{
    proof {
        assert(w as int / 4096 < 16) by (nonlinear_arith)
            requires
                w as int <= 65535,
        ;
    }
    let d0 = hex_digit_upper((w / 4096) as u8);
    let d1 = hex_digit_upper((w / 256 % 16) as u8);
    let d2 = hex_digit_upper((w / 16 % 16) as u8);
    let d3 = hex_digit_upper((w % 16) as u8);
    v.push(d0);
    v.push(d1);
    v.push(d2);
    v.push(d3);
    proof {
        assert((w as int / 4096) % 16 == w as int / 4096);
        assert(v@ =~= old(v)@ + hex4_upper(w as int));
        assert(all_ascii(hex4_upper(w as int)));
        lemma_ascii_extend(old(v)@, hex4_upper(w as int));
    }
}

/// Relies on `String::from_utf8`: bytes below 0x80 are single-byte UTF-8
/// code points, so the resulting string's characters are exactly the bytes.
#[verifier::external_body]
pub fn ascii_to_string(bytes: Vec<u8>) -> (r: String)
    requires
        all_ascii(bytes@),
    ensures
        r@ == chars_of(bytes@),
{
    String::from_utf8(bytes).unwrap_or_default()
}

} // verus!
