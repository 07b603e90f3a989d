//! Lossy decoding of the UTF-16 character runs that kernel queries report.
//!
//! Variable-length kernel queries hand back wide-character data together with
//! the number of units actually filled. Decoding takes exactly that reported
//! run, pairs well-formed surrogates into supplementary characters, and maps
//! every lone or misplaced surrogate to U+FFFD, so that malformed text never
//! makes the query fail.

use vstd::prelude::*;

verus! {

/// A unit reserved for the first half of a surrogate pair.
pub open spec fn is_high_surrogate(u: u16) -> bool {
    0xD800 <= u && u <= 0xDBFF
}

/// A unit reserved for the second half of a surrogate pair.
pub open spec fn is_low_surrogate(u: u16) -> bool {
    0xDC00 <= u && u <= 0xDFFF
}

/// A unit that cannot stand for a scalar value on its own.
pub open spec fn is_surrogate(u: u16) -> bool {
    0xD800 <= u && u <= 0xDFFF
}

/// The scalar value encoded by a well-formed surrogate pair.
pub open spec fn combined_scalar(hi: u16, lo: u16) -> u32 {
    (0x10000 + (hi - 0xD800) * 0x400 + (lo - 0xDC00)) as u32
}

/// The characters that lossy UTF-16 decoding produces: one character per
/// non-surrogate unit, one per well-formed surrogate pair, and U+FFFD for
/// every unit that is a lone or misplaced surrogate.
pub open spec fn utf16_lossy(s: Seq<u16>) -> Seq<char>
    decreases s.len(),
{
    if s.len() == 0 {
        Seq::empty()
    } else if !is_surrogate(s[0]) {
        seq![(s[0] as u32) as char] + utf16_lossy(s.skip(1))
    } else if is_high_surrogate(s[0]) && s.len() >= 2 && is_low_surrogate(s[1]) {
        seq![combined_scalar(s[0], s[1]) as char] + utf16_lossy(s.skip(2))
    } else {
        seq!['\u{FFFD}'] + utf16_lossy(s.skip(1))
    }
}

/// Decoding never loses text entirely: a run with at least one unit decodes
/// to at least one character.
pub proof fn lemma_utf16_lossy_nonempty(s: Seq<u16>)
    requires
        s.len() > 0,
    ensures
        utf16_lossy(s).len() > 0,
{
}

/// The UTF-16 encoding of one character: a single unit for a scalar value
/// below 0x10000, and a surrogate pair for a supplementary character.
pub open spec fn encode_utf16_char(c: char) -> Seq<u16> {
    let v = c as u32;
    if v < 0x10000 {
        seq![v as u16]
    } else {
        seq![
            (0xD800 + ((v - 0x10000) / 0x400)) as u16,
            (0xDC00 + ((v - 0x10000) % 0x400)) as u16,
        ]
    }
}

/// The UTF-16 encoding of a character sequence, character by character.
pub open spec fn encode_utf16(s: Seq<char>) -> Seq<u16>
    decreases s.len(),
{
    if s.len() == 0 {
        Seq::empty()
    } else {
        encode_utf16_char(s[0]) + encode_utf16(s.skip(1))
    }
}

/// Text that reaches a query buffer as well-formed UTF-16 comes back from
/// lossy decoding as exactly the characters that were encoded: decoding
/// inverts encoding on every character sequence.
pub proof fn lemma_utf16_round_trip(s: Seq<char>)
    ensures
        utf16_lossy(encode_utf16(s)) == s,
    decreases s.len(),
{
    if s.len() == 0 {
        assert(utf16_lossy(encode_utf16(s)) =~= s);
    } else {
        let c = s[0];
        let v = c as u32;
        vstd::utf8::char_is_scalar(c);
        vstd::utf8::char_u32_cast(c, v);
        let enc = encode_utf16(s);
        let rest = encode_utf16(s.skip(1));
        lemma_utf16_round_trip(s.skip(1));
        if v < 0x10000 {
            let u = (v as u16);
            assert(enc == seq![u] + rest);
            assert(enc[0] == u);
            assert(!is_surrogate(u));
            assert(enc.skip(1) =~= rest);
            assert(((enc[0] as u32) as char) == c);
            assert(utf16_lossy(enc) == seq![c] + utf16_lossy(rest));
            assert(seq![c] + s.skip(1) =~= s);
        } else {
            let d: int = v - 0x10000;
            vstd::arithmetic::div_mod::lemma_fundamental_div_mod(d, 0x400);
            assert(0 <= d % 0x400 < 0x400);
            assert(d / 0x400 <= 0x3FF);
            let hi = (0xD800 + (d / 0x400)) as u16;
            let lo = (0xDC00 + (d % 0x400)) as u16;
            assert(is_high_surrogate(hi));
            assert(is_low_surrogate(lo));
            assert(enc == seq![hi, lo] + rest);
            assert(enc[0] == hi);
            assert(enc[1] == lo);
            assert(enc.len() >= 2);
            assert(combined_scalar(hi, lo) == v);
            assert(enc.skip(2) =~= rest);
            assert((combined_scalar(enc[0], enc[1]) as char) == c);
            assert(utf16_lossy(enc) == seq![c] + utf16_lossy(rest));
            assert(seq![c] + s.skip(1) =~= s);
        }
    }
}

/// Relies on `char::from_u32` of the standard library: it returns `Some` of
/// the character with the given code exactly when the code is a Unicode
/// scalar value, and `None` otherwise.
pub assume_specification[ char::from_u32 ](i: u32) -> (r: Option<char>)
    ensures
        r is Some <==> vstd::utf8::is_scalar(i),
        r matches Some(c) ==> c as u32 == i,
;

/// Relies on `String`'s `FromIterator` over `char`: collecting characters
/// yields the string holding exactly those characters in order.
#[verifier::external_body]
fn string_from_chars(chars: Vec<char>) -> (r: String)
    ensures
        r@ == chars@,
{
    chars.into_iter().collect()
}

/// Decodes the first `len` units of `units` as lossy UTF-16.
///
/// The reported run length comes from the kernel query; the caller has
/// already checked that it does not exceed what the buffer holds.
pub fn decode_utf16_prefix_lossy(units: &Vec<u16>, len: usize) -> (r: String)
    requires
        len <= units@.len(),
    ensures
        r@ == utf16_lossy(units@.take(len as int)),
{
    let ghost target = units@.take(len as int);
    let mut chars: Vec<char> = Vec::new();
    let mut i: usize = 0;
    proof {
        assert(target.skip(0) =~= target);
        assert(chars@ + utf16_lossy(target) =~= utf16_lossy(target));
    }
    while i < len
        invariant
            i <= len,
            len <= units@.len(),
            target == units@.take(len as int),
            utf16_lossy(target) == chars@ + utf16_lossy(target.skip(i as int)),
        decreases len - i,
    {
        proof {
            assert(target.skip(i as int)[0] == target[i as int]);
            assert(target[i as int] == units@[i as int]);
        }
        let u = units[i];
        if u < 0xD800 || u > 0xDFFF {
            let c = match char::from_u32(u as u32) {
                Some(c) => c,
                None => {
                    proof {
                        assert(false);
                    }
                    '\u{FFFD}'
                },
            };
            proof {
                let rest = target.skip(i as int);
                vstd::utf8::char_u32_cast(c, u as u32);
                assert(((rest[0] as u32) as char) == c);
                assert(rest.skip(1) =~= target.skip(i + 1));
                assert(utf16_lossy(rest) == seq![c] + utf16_lossy(target.skip(i + 1)));
                assert(chars@.push(c) + utf16_lossy(target.skip(i + 1)) =~= chars@ + utf16_lossy(
                    rest,
                ));
            }
            chars.push(c);
            i = i + 1;
        } else if u <= 0xDBFF && i + 1 < len && 0xDC00 <= units[i + 1] && units[i + 1] <= 0xDFFF {
            let lo = units[i + 1];
            let scalar: u32 = 0x10000 + (u as u32 - 0xD800) * 0x400 + (lo as u32 - 0xDC00);
            proof {
                assert(target.skip(i as int)[1] == target[i + 1]);
                assert(target[i + 1] == units@[i + 1]);
                assert(scalar == combined_scalar(u, lo));
                assert(vstd::utf8::is_scalar(scalar));
            }
            let c = match char::from_u32(scalar) {
                Some(c) => c,
                None => {
                    proof {
                        assert(false);
                    }
                    '\u{FFFD}'
                },
            };
            proof {
                let rest = target.skip(i as int);
                vstd::utf8::char_u32_cast(c, scalar);
                assert((combined_scalar(rest[0], rest[1]) as char) == c);
                assert(rest.len() >= 2);
                assert(rest.skip(2) =~= target.skip(i + 2));
                assert(utf16_lossy(rest) == seq![c] + utf16_lossy(target.skip(i + 2)));
                assert(chars@.push(c) + utf16_lossy(target.skip(i + 2)) =~= chars@ + utf16_lossy(
                    rest,
                ));
            }
            chars.push(c);
            i = i + 2;
        } else {
            let c = '\u{FFFD}';
            proof {
                let rest = target.skip(i as int);
                if i + 1 < len {
                    assert(rest[1] == target[i + 1]);
                    assert(target[i + 1] == units@[i + 1]);
                } else {
                    assert(rest.len() < 2);
                }
                assert(rest.skip(1) =~= target.skip(i + 1));
                assert(utf16_lossy(rest) == seq![c] + utf16_lossy(target.skip(i + 1)));
                assert(chars@.push(c) + utf16_lossy(target.skip(i + 1)) =~= chars@ + utf16_lossy(
                    rest,
                ));
            }
            chars.push(c);
            i = i + 1;
        }
    }
    proof {
        assert(target.skip(len as int) =~= Seq::<u16>::empty());
        assert(chars@ + utf16_lossy(Seq::<u16>::empty()) =~= chars@);
    }
    string_from_chars(chars)
}

/// Decodes a whole buffer of units as lossy UTF-16.
pub fn decode_utf16_lossy(units: &Vec<u16>) -> (r: String)
    ensures
        r@ == utf16_lossy(units@),
{
    let n: usize = units.len();
    let r = decode_utf16_prefix_lossy(units, n);
    proof {
        assert(units@.take(units@.len() as int) =~= units@);
    }
    r
}

} // verus!
