//! A verified UTF-16 codec over character sequences.
//!
//! The EEPROM string descriptors carry their text as UTF-16LE code units,
//! so the image codec needs both directions: encoding a string's
//! characters into code units, and decoding code units back, rejecting
//! unpaired surrogates.

use vstd::prelude::*;

verus! {

/// The UTF-16 code units encoding one character: a single unit for a
/// character in the basic plane, a surrogate pair for any other.
pub open spec fn utf16_units(c: char) -> Seq<u16> {
    let u = c as u32;
    if u < 0x10000 {
        seq![u as u16]
    } else {
        seq![
            (0xD800 + (u - 0x10000) / 0x400) as u16,
            (0xDC00 + (u - 0x10000) % 0x400) as u16,
        ]
    }
}

/// The UTF-16 code units encoding a character sequence, in order.
pub open spec fn utf16_encode(s: Seq<char>) -> Seq<u16>
    decreases s.len(),
{
    if s.len() == 0 {
        Seq::empty()
    } else {
        utf16_units(s[0]) + utf16_encode(s.skip(1))
    }
}

pub open spec fn is_high_surrogate(u: u16) -> bool {
    0xD800 <= u < 0xDC00
}

pub open spec fn is_low_surrogate(u: u16) -> bool {
    0xDC00 <= u < 0xE000
}

/// Whether a sequence of code units is a valid UTF-16 encoding: every high
/// surrogate is followed by a low surrogate, and no low surrogate stands
/// alone.
pub open spec fn utf16_valid(v: Seq<u16>) -> bool
    decreases v.len(),
{
    if v.len() == 0 {
        true
    } else if is_high_surrogate(v[0]) {
        &&& v.len() >= 2
        &&& is_low_surrogate(v[1])
        &&& utf16_valid(v.skip(2))
    } else if is_low_surrogate(v[0]) {
        false
    } else {
        utf16_valid(v.skip(1))
    }
}

/// The Unicode scalar value represented by a surrogate pair.
pub open spec fn combine_surrogates(hi: u16, lo: u16) -> u32 {
    (0x10000 + (hi - 0xD800) * 0x400 + (lo - 0xDC00)) as u32
}

/// The characters encoded by a sequence of UTF-16 code units, assuming the
/// sequence is valid.
pub open spec fn utf16_decode(v: Seq<u16>) -> Seq<char>
    recommends
        utf16_valid(v),
    decreases v.len(),
{
    if v.len() == 0 {
        Seq::empty()
    } else if is_high_surrogate(v[0]) {
        if v.len() >= 2 {
            seq![combine_surrogates(v[0], v[1]) as char] + utf16_decode(v.skip(2))
        } else {
            Seq::empty()
        }
    } else {
        seq![(v[0] as u32) as char] + utf16_decode(v.skip(1))
    }
}

/// Encoding any character sequence yields valid UTF-16, and decoding it
/// yields the sequence back.
pub proof fn lemma_utf16_round_trip(s: Seq<char>)
    ensures
        utf16_valid(utf16_encode(s)),
        utf16_decode(utf16_encode(s)) == s,
    decreases s.len(),
{
    if s.len() == 0 {
        assert(utf16_decode(utf16_encode(s)) =~= s);
    } else {
        let c = s[0];
        let u = c as u32;
        vstd::utf8::char_is_scalar(c);
        vstd::utf8::char_u32_cast(c, u);
        let units = utf16_units(c);
        let rest = utf16_encode(s.skip(1));
        lemma_utf16_round_trip(s.skip(1));
        if u < 0x10000 {
            assert((units + rest)[0] == units[0]);
            assert((units + rest).skip(1) =~= rest);
            assert(!is_high_surrogate(units[0]) && !is_low_surrogate(units[0]));
            assert(utf16_decode(units + rest) =~= seq![c] + utf16_decode(rest));
            assert(seq![c] + s.skip(1) =~= s);
        } else {
            let x = u - 0x10000;
            vstd::arithmetic::div_mod::lemma_fundamental_div_mod(x as int, 0x400);
            vstd::arithmetic::div_mod::lemma_mod_bound(x as int, 0x400);
            assert(0 <= x / 0x400 <= 0x3FF) by {
                vstd::arithmetic::div_mod::lemma_div_is_ordered(x as int, 0xFFFFF, 0x400);
                vstd::arithmetic::div_mod::lemma_div_pos_is_pos(x as int, 0x400);
            }
            let hi = units[0];
            let lo = units[1];
            assert(is_high_surrogate(hi));
            assert(is_low_surrogate(lo));
            assert(combine_surrogates(hi, lo) == u);
            assert((units + rest)[0] == hi && (units + rest)[1] == lo);
            assert((units + rest).skip(2) =~= rest);
            assert(utf16_decode(units + rest) =~= seq![c] + utf16_decode(rest));
            assert(seq![c] + s.skip(1) =~= s);
        }
    }
}

/// Appending one character extends the encoding by that character's units.
pub proof fn lemma_utf16_encode_push(t: Seq<char>, c: char)
    ensures
        utf16_encode(t.push(c)) == utf16_encode(t) + utf16_units(c),
    decreases t.len(),
{
    let p = t.push(c);
    if t.len() == 0 {
        assert(p[0] == c);
        assert(p.skip(1) =~= Seq::<char>::empty());
        assert(utf16_encode(p) == utf16_units(c) + utf16_encode(p.skip(1)));
        assert(utf16_encode(p.skip(1)) == Seq::<u16>::empty());
        assert(utf16_encode(t) == Seq::<u16>::empty());
        assert(utf16_encode(p) =~= utf16_encode(t) + utf16_units(c));
    } else {
        lemma_utf16_encode_push(t.skip(1), c);
        assert(p[0] == t[0]);
        assert(p.skip(1) =~= t.skip(1).push(c));
        assert(utf16_encode(p) == utf16_units(t[0]) + utf16_encode(p.skip(1)));
        assert(utf16_encode(p.skip(1)) == utf16_encode(t.skip(1)) + utf16_units(c));
        assert(utf16_encode(t) == utf16_units(t[0]) + utf16_encode(t.skip(1)));
        assert(utf16_encode(p) =~= utf16_encode(t) + utf16_units(c));
    }
}

/// Relies on char::from_u32: it returns the character for every Unicode
/// scalar value and nothing for any other integer.
#[verifier::external_body]
fn char_from_u32(u: u32) -> (r: Option<char>)
    ensures
        r is Some <==> vstd::utf8::is_scalar(u),
        r matches Some(c) ==> c as u32 == u,
{
    char::from_u32(u)
}

/// Relies on String::push: it appends exactly one character.
#[verifier::external_body]
fn push_char(s: &mut String, c: char)
    ensures
        final(s)@ == old(s)@.push(c),
{
    s.push(c);
}

/// Encode the characters of a string as UTF-16 code units.
pub fn utf16_encode_str(s: &str) -> (v: Vec<u16>)
    ensures
        v@ == utf16_encode(s@),
{
    let n: usize = s.unicode_len();
    let mut v: Vec<u16> = Vec::new();
    let mut i: usize = 0;
    while i < n
        invariant
            n == s@.len(),
            i <= n,
            v@ == utf16_encode(s@.take(i as int)),
        decreases n - i,
    {
        let c = s.get_char(i);
        proof {
            vstd::utf8::char_is_scalar(c);
            lemma_utf16_encode_push(s@.take(i as int), c);
            assert(s@.take(i as int).push(c) =~= s@.take((i + 1) as int));
        }
        let u = c as u32;
        if u < 0x10000 {
            v.push(u as u16);
        } else {
            v.push((0xD800 + (u - 0x10000) / 0x400) as u16);
            v.push((0xDC00 + (u - 0x10000) % 0x400) as u16);
        }
        proof {
            assert(v@ =~= utf16_encode(s@.take(i as int)) + utf16_units(c));
        }
        i = i + 1;
    }
    proof {
        assert(s@.take(n as int) =~= s@);
    }
    v
}

/// Decode a sequence of UTF-16 code units into a string; fails exactly
/// when the units are not a valid encoding (an unpaired surrogate).
pub fn utf16_decode_units(v: &[u16]) -> (r: Option<String>)
    ensures
        r is Some <==> utf16_valid(v@),
        r matches Some(s) ==> s@ == utf16_decode(v@),
{
    let mut out = String::new();
    let mut i: usize = 0;
    proof {
        assert(v@.skip(0) =~= v@);
    }
    while i < v.len()
        invariant
            i <= v@.len(),
            utf16_valid(v@) <==> utf16_valid(v@.skip(i as int)),
            utf16_valid(v@.skip(i as int)) ==> utf16_decode(v@) == out@ + utf16_decode(
                v@.skip(i as int),
            ),
        decreases v@.len() - i,
    {
        let ghost rest = v@.skip(i as int);
        let u0 = v[i];
        if u0 >= 0xD800 && u0 < 0xDC00 {
            if i + 1 >= v.len() {
                proof {
                    assert(!utf16_valid(rest));
                }
                return None;
            }
            let u1 = v[i + 1];
            if !(u1 >= 0xDC00 && u1 < 0xE000) {
                proof {
                    assert(!utf16_valid(rest));
                }
                return None;
            }
            let scalar: u32 = 0x10000 + (u0 as u32 - 0xD800) * 0x400 + (u1 as u32 - 0xDC00);
            proof {
                assert(vstd::utf8::is_scalar(scalar));
            }
            match char_from_u32(scalar) {
                Some(c) => {
                    let ghost out0 = out@;
                    push_char(&mut out, c);
                    proof {
                        vstd::utf8::char_u32_cast(c, scalar);
                        assert(out@ =~= out0 + seq![c]);
                        assert(scalar == combine_surrogates(rest[0], rest[1]));
                        assert(rest.skip(2) =~= v@.skip((i + 2) as int));
                        assert(utf16_valid(rest) == utf16_valid(rest.skip(2)));
                        if utf16_valid(rest) {
                            assert(utf16_decode(rest) =~= seq![c] + utf16_decode(rest.skip(2)));
                            assert(utf16_decode(v@) =~= out@ + utf16_decode(
                                v@.skip((i + 2) as int),
                            ));
                        }
                    }
                    i = i + 2;
                },
                None => {
                    proof {
                        assert(false);
                    }
                    return None;
                },
            }
        } else if u0 >= 0xDC00 && u0 < 0xE000 {
            proof {
                assert(!utf16_valid(rest));
            }
            return None;
        } else {
            proof {
                assert(vstd::utf8::is_scalar(u0 as u32));
            }
            match char_from_u32(u0 as u32) {
                Some(c) => {
                    let ghost out0 = out@;
                    push_char(&mut out, c);
                    proof {
                        vstd::utf8::char_u32_cast(c, u0 as u32);
                        assert(out@ =~= out0 + seq![c]);
                        assert(rest.skip(1) =~= v@.skip((i + 1) as int));
                        assert(utf16_valid(rest) == utf16_valid(rest.skip(1)));
                        if utf16_valid(rest) {
                            assert(utf16_decode(rest) =~= seq![c] + utf16_decode(rest.skip(1)));
                            assert(utf16_decode(v@) =~= out@ + utf16_decode(
                                v@.skip((i + 1) as int),
                            ));
                        }
                    }
                    i = i + 1;
                },
                None => {
                    proof {
                        assert(false);
                    }
                    return None;
                },
            }
        }
    }
    proof {
        assert(v@.skip(v@.len() as int) =~= Seq::<u16>::empty());
    }
    Some(out)
}

} // verus!
