//! NUL-terminated wide (UTF-16) strings, as used by platform interfaces that
//! exchange `u16` code-unit buffers.
//!
//! `str2wsz` encodes a string as UTF-16 code units with a trailing NUL.
//! `wsz2string` decodes a buffer up to its first NUL, replacing unpaired
//! surrogates with U+FFFD, the Unicode replacement character.

use vstd::prelude::*;

verus! {

pub open spec fn is_high_surrogate(w: u16) -> bool {
    0xD800 <= w && w <= 0xDBFF
}

pub open spec fn is_low_surrogate(w: u16) -> bool {
    0xDC00 <= w && w <= 0xDFFF
}

/// The UTF-16 code units of one character: the character's own scalar value
/// if it lies in the basic multilingual plane, else its surrogate pair.
pub open spec fn utf16_units(c: char) -> Seq<u16> {
    if (c as u32) < 0x10000 {
        seq![(c as u32) as u16]
    } else {
        seq![
            (0xD800 + ((c as u32) - 0x10000) / 0x400) as u16,
            (0xDC00 + ((c as u32) - 0x10000) % 0x400) as u16,
        ]
    }
}

/// UTF-16 encoding of a character sequence.
pub open spec fn utf16_encode(s: Seq<char>) -> Seq<u16>
    decreases s.len(),
{
    if s.len() == 0 {
        Seq::empty()
    } else {
        utf16_units(s[0]) + utf16_encode(s.skip(1))
    }
}

/// The scalar value encoded by a surrogate pair.
pub open spec fn combine_surrogates(hi: u16, lo: u16) -> int {
    0x10000 + (hi - 0xD800) * 0x400 + (lo - 0xDC00)
}

/// The scalar value of the Unicode replacement character.
pub open spec fn replacement_scalar() -> int {
    0xFFFD
}

/// Lossy UTF-16 decoding, as a sequence of Unicode scalar values: a leading
/// surrogate followed by a trailing surrogate decodes as one supplementary
/// character, any unpaired surrogate decodes as the replacement character,
/// and every other code unit is its own scalar value.
pub open spec fn utf16_decode_vals(u: Seq<u16>) -> Seq<int>
    decreases u.len(),
{
    if u.len() == 0 {
        Seq::empty()
    } else if is_high_surrogate(u[0]) && u.len() >= 2 && is_low_surrogate(u[1]) {
        seq![combine_surrogates(u[0], u[1])] + utf16_decode_vals(u.skip(2))
    } else if is_high_surrogate(u[0]) || is_low_surrogate(u[0]) {
        seq![replacement_scalar()] + utf16_decode_vals(u.skip(1))
    } else {
        seq![u[0] as int] + utf16_decode_vals(u.skip(1))
    }
}

/// The prefix of a buffer before its first NUL code unit; the whole buffer
/// if it holds none.
pub open spec fn until_nul(u: Seq<u16>) -> Seq<u16>
    decreases u.len(),
{
    if u.len() == 0 || u[0] == 0 {
        Seq::empty()
    } else {
        seq![u[0]] + until_nul(u.skip(1))
    }
}

/// The scalar values of a character sequence.
pub open spec fn scalars_of(s: Seq<char>) -> Seq<int> {
    s.map_values(|c: char| c as int)
}

/// Relies on `str::chars`: the characters of the string, in order.
#[verifier::external_body]
fn chars_of(s: &str) -> (v: Vec<char>)
    ensures
        v@ == s@,
{
    s.chars().collect()
}

/// Relies on `char::from_u32`: `Some` exactly for Unicode scalar values, and
/// the returned character has the given value.
pub assume_specification[ char::from_u32 ](v: u32) -> (r: Option<char>)
    ensures
        r is Some <==> (v < 0xD800 || (0xE000 <= v && v <= 0x10FFFF)),
        r is Some ==> r->0 as int == v as int,
;

/// Appending one character extends an encoding by that character's units.
proof fn lemma_utf16_encode_push(s: Seq<char>, c: char)
    ensures
        utf16_encode(s.push(c)) == utf16_encode(s) + utf16_units(c),
    decreases s.len(),
{
    if s.len() == 0 {
        assert(s.push(c)[0] == c);
        assert(s.push(c).skip(1) =~= Seq::<char>::empty());
        assert(utf16_encode(s.push(c)) == utf16_units(c) + utf16_encode(Seq::<char>::empty()));
        assert(utf16_encode(s.push(c)) =~= utf16_encode(s) + utf16_units(c));
    } else {
        lemma_utf16_encode_push(s.skip(1), c);
        assert(s.push(c).skip(1) =~= s.skip(1).push(c));
        assert(s.push(c)[0] == s[0]);
        assert(utf16_encode(s.push(c)) == utf16_units(s[0]) + utf16_encode(s.skip(1).push(c)));
        assert(utf16_encode(s.push(c)) =~= utf16_encode(s) + utf16_units(c));
    }
}

/// Encode a string as UTF-16 code units followed by a terminating NUL.
pub fn str2wsz(s: &str) -> (r: Vec<u16>)
    ensures
        r@ == utf16_encode(s@).push(0u16),
{
    let chars = chars_of(s);
    let mut out: Vec<u16> = Vec::new();
    let mut i: usize = 0;
    while i < chars.len()
        invariant
            i <= chars@.len(),
            chars@ == s@,
            out@ == utf16_encode(chars@.take(i as int)),
        decreases chars@.len() - i,
    {
        let c = chars[i];
        let cp = c as u32;
        proof {
            assert(chars@.take(i + 1) =~= chars@.take(i as int).push(chars@[i as int]));
            lemma_utf16_encode_push(chars@.take(i as int), chars@[i as int]);
        }
        if cp < 0x10000 {
            out.push(cp as u16);
            assert(out@ =~= utf16_encode(chars@.take(i + 1)));
        } else {
            let lead: u32 = 0xD800 + (cp - 0x10000) / 0x400;
            let trail: u32 = 0xDC00 + (cp - 0x10000) % 0x400;
            out.push(lead as u16);
            out.push(trail as u16);
            assert(out@ =~= utf16_encode(chars@.take(i + 1)));
        }
        i = i + 1;
    }
    proof {
        assert(chars@.take(chars@.len() as int) =~= chars@);
    }
    out.push(0u16);
    out
}

/// Decode a NUL-terminated wide-string buffer: the characters of the result
/// are exactly the lossy UTF-16 decoding of the buffer up to its first NUL
/// (or of the whole buffer, if it holds none).
pub fn wsz2string(units: &Vec<u16>) -> (r: String)
    ensures
        scalars_of(r@) == utf16_decode_vals(until_nul(units@)),
{
    let ghost whole = utf16_decode_vals(until_nul(units@));
    let mut out: Vec<char> = Vec::new();
    let mut i: usize = 0;
    proof {
        assert(units@.skip(0) =~= units@);
        assert(scalars_of(out@) =~= Seq::<int>::empty());
    }
    while i < units.len() && units[i] != 0
        invariant
            i <= units@.len(),
            whole == utf16_decode_vals(until_nul(units@)),
            whole == scalars_of(out@) + utf16_decode_vals(until_nul(units@.skip(i as int))),
        decreases units@.len() - i,
    {
        let w = units[i];
        proof {
            assert(units@.skip(i as int)[0] == w);
            assert(units@.skip(i as int).skip(1) =~= units@.skip(i + 1));
            assert(until_nul(units@.skip(i as int)) =~= seq![w] + until_nul(units@.skip(i + 1)));
        }
        let ghost rest = until_nul(units@.skip(i as int));
        let ghost out0 = out@;
        if 0xD800 <= w && w <= 0xDBFF {
            // leading surrogate: pairs with a trailing surrogate, else lossy
            let paired = i + 1 < units.len() && 0xDC00 <= units[i + 1] && units[i + 1] <= 0xDFFF;
            if paired {
                let lo = units[i + 1];
                proof {
                    assert(units@.skip(i + 1)[0] == lo);
                    assert(units@.skip(i + 1).skip(1) =~= units@.skip(i + 2));
                    assert(until_nul(units@.skip(i + 1)) =~= seq![lo] + until_nul(
                        units@.skip(i + 2),
                    ));
                    assert(rest[0] == w && rest.len() >= 2 && rest[1] == lo);
                    assert(rest.skip(2) =~= until_nul(units@.skip(i + 2)));
                    assert(utf16_decode_vals(rest) == seq![combine_surrogates(w, lo)]
                        + utf16_decode_vals(rest.skip(2)));
                }
                let v: u32 = 0x10000 + (((w as u32) - 0xD800) * 0x400 + ((lo as u32) - 0xDC00));
                proof {
                    assert(0x10000 <= v <= 0x10FFFF && v == combine_surrogates(w, lo))
                        by (nonlinear_arith)
                        requires
                            v == 0x10000 + (((w as u32) - 0xD800) * 0x400 + ((lo as u32)
                                - 0xDC00)),
                            0xD800 <= w <= 0xDBFF,
                            0xDC00 <= lo <= 0xDFFF,
                    ;
                }
                let c = char::from_u32(v).unwrap();
                out.push(c);
                i = i + 2;
                proof {
                    assert(c as int == combine_surrogates(w, lo));
                    assert(scalars_of(out@) =~= scalars_of(out0).push(c as int));
                    assert(scalars_of(out@) + utf16_decode_vals(until_nul(units@.skip(i as int)))
                        =~= scalars_of(out0) + utf16_decode_vals(rest));
                }
            } else {
                proof {
                    lemma_unpaired_step(units@, i as int, rest);
                }
                let c = char::from_u32(0xFFFD).unwrap();
                out.push(c);
                i = i + 1;
                proof {
                    assert(c as int == replacement_scalar());
                    assert(scalars_of(out@) =~= scalars_of(out0).push(c as int));
                    assert(scalars_of(out@) + utf16_decode_vals(until_nul(units@.skip(i as int)))
                        =~= scalars_of(out0) + utf16_decode_vals(rest));
                }
            }
        } else if 0xDC00 <= w && w <= 0xDFFF {
            // stray trailing surrogate: lossy
            proof {
                assert(rest.skip(1) =~= until_nul(units@.skip(i + 1)));
                assert(utf16_decode_vals(rest) == seq![replacement_scalar()] + utf16_decode_vals(
                    rest.skip(1),
                ));
            }
            let c = char::from_u32(0xFFFD).unwrap();
            out.push(c);
            i = i + 1;
            proof {
                assert(c as int == replacement_scalar());
                assert(scalars_of(out@) =~= scalars_of(out0).push(c as int));
                assert(scalars_of(out@) + utf16_decode_vals(until_nul(units@.skip(i as int)))
                    =~= scalars_of(out0) + utf16_decode_vals(rest));
            }
        } else {
            proof {
                assert(rest.skip(1) =~= until_nul(units@.skip(i + 1)));
                assert(utf16_decode_vals(rest) == seq![rest[0] as int] + utf16_decode_vals(
                    rest.skip(1),
                ));
            }
            let c = char::from_u32(w as u32).unwrap();
            out.push(c);
            i = i + 1;
            proof {
                assert(c as int == w as int);
                assert(scalars_of(out@) =~= scalars_of(out0).push(c as int));
                assert(scalars_of(out@) + utf16_decode_vals(until_nul(units@.skip(i as int)))
                    =~= scalars_of(out0) + utf16_decode_vals(rest));
            }
        }
    }
    proof {
        assert(until_nul(units@.skip(i as int)) =~= Seq::<u16>::empty());
        assert(whole =~= scalars_of(out@));
    }
    crate::util::string_from_chars(&out)
}

/// The shape of one character's code units: a non-surrogate single unit
/// carrying the character's own value, or a well-formed surrogate pair that
/// recombines to it; and no unit is NUL unless the character is.
proof fn lemma_utf16_units_facts(c: char)
    ensures
        (c as u32) < 0x10000 ==> {
            let u = utf16_units(c);
            &&& u.len() == 1
            &&& u[0] as int == c as int
            &&& !is_high_surrogate(u[0])
            &&& !is_low_surrogate(u[0])
            &&& (u[0] == 0 <==> c == '\0')
        },
        (c as u32) >= 0x10000 ==> {
            let u = utf16_units(c);
            &&& u.len() == 2
            &&& is_high_surrogate(u[0])
            &&& is_low_surrogate(u[1])
            &&& combine_surrogates(u[0], u[1]) == c as int
            &&& u[0] != 0
            &&& u[1] != 0
        },
{
    if (c as u32) >= 0x10000 {
        let x = (c as u32) - 0x10000;
        assert(0 <= x <= 0xFFFFF);
        assert(0 <= x / 0x400 <= 0x3FF && 0 <= x % 0x400 <= 0x3FF && (x / 0x400) * 0x400 + x
            % 0x400 == x) by (nonlinear_arith)
            requires
                0 <= x <= 0xFFFFF,
        ;
        assert(utf16_units(c)[0] as int == 0xD800 + x / 0x400);
        assert(utf16_units(c)[1] as int == 0xDC00 + x % 0x400);
    }
}

/// Decoding inverts encoding: the UTF-16 encoding of any character sequence
/// decodes back to exactly its scalar values.
pub proof fn lemma_decode_inverts_encode(s: Seq<char>)
    ensures
        utf16_decode_vals(utf16_encode(s)) == scalars_of(s),
    decreases s.len(),
{
    if s.len() == 0 {
        assert(scalars_of(s) =~= Seq::<int>::empty());
        assert(utf16_decode_vals(utf16_encode(s)) =~= Seq::<int>::empty());
    } else {
        let c = s[0];
        let tail = utf16_encode(s.skip(1));
        lemma_decode_inverts_encode(s.skip(1));
        lemma_utf16_units_facts(c);
        let u = utf16_encode(s);
        assert(u == utf16_units(c) + tail);
        if (c as u32) < 0x10000 {
            assert(u[0] == utf16_units(c)[0]);
            assert(u.skip(1) =~= tail);
            assert(utf16_decode_vals(u) == seq![u[0] as int] + utf16_decode_vals(tail));
        } else {
            assert(u.len() >= 2 && u[0] == utf16_units(c)[0] && u[1] == utf16_units(c)[1]);
            assert(u.skip(2) =~= tail);
            assert(utf16_decode_vals(u) == seq![combine_surrogates(u[0], u[1])]
                + utf16_decode_vals(tail));
        }
        assert(scalars_of(s) =~= seq![c as int] + scalars_of(s.skip(1)));
        assert(utf16_decode_vals(u) =~= scalars_of(s));
    }
}

/// The encoding of a NUL-free character sequence holds no NUL code unit.
proof fn lemma_encode_has_no_nul(s: Seq<char>)
    requires
        forall|i: int| 0 <= i < s.len() ==> s[i] != '\0',
    ensures
        forall|j: int| 0 <= j < utf16_encode(s).len() ==> utf16_encode(s)[j] != 0,
    decreases s.len(),
{
    if s.len() > 0 {
        assert(forall|i: int| 0 <= i < s.skip(1).len() ==> s.skip(1)[i] != '\0');
        lemma_encode_has_no_nul(s.skip(1));
        lemma_utf16_units_facts(s[0]);
        let u = utf16_encode(s);
        assert(u == utf16_units(s[0]) + utf16_encode(s.skip(1)));
        assert(forall|j: int| 0 <= j < u.len() ==> u[j] != 0) by {
            assert(forall|j: int|
                0 <= j < utf16_units(s[0]).len() ==> utf16_units(s[0])[j] != 0);
        }
    }
}

/// Appending the terminator to a NUL-free buffer and cutting at the first
/// NUL gives the buffer back.
proof fn lemma_until_nul_of_clean(u: Seq<u16>)
    requires
        forall|j: int| 0 <= j < u.len() ==> u[j] != 0,
    ensures
        until_nul(u.push(0u16)) == u,
    decreases u.len(),
{
    if u.len() == 0 {
        assert(u.push(0u16)[0] == 0);
        assert(until_nul(u.push(0u16)) =~= u);
    } else {
        assert(forall|j: int| 0 <= j < u.skip(1).len() ==> u.skip(1)[j] != 0);
        lemma_until_nul_of_clean(u.skip(1));
        assert(u.push(0u16).skip(1) =~= u.skip(1).push(0u16));
        assert(u.push(0u16)[0] == u[0]);
        assert(until_nul(u.push(0u16)) =~= seq![u[0]] + u.skip(1));
        assert(seq![u[0]] + u.skip(1) =~= u);
    }
}

/// Round trip: the NUL-terminated encoding of a NUL-free string decodes back
/// to exactly that string's scalar values. Together with the contracts of
/// `str2wsz` and `wsz2string`, decoding undoes encoding.
pub proof fn lemma_wsz_round_trip(s: Seq<char>)
    requires
        forall|i: int| 0 <= i < s.len() ==> s[i] != '\0',
    ensures
        utf16_decode_vals(until_nul(utf16_encode(s).push(0u16))) == scalars_of(s),
{
    lemma_encode_has_no_nul(s);
    lemma_until_nul_of_clean(utf16_encode(s));
    lemma_decode_inverts_encode(s);
}

/// Scalar values determine characters: two character sequences with the same
/// scalar values are the same sequence. With `lemma_wsz_round_trip`, a
/// decoded encoding is therefore the very string that was encoded.
pub proof fn lemma_scalars_determine_chars(a: Seq<char>, b: Seq<char>)
    requires
        scalars_of(a) == scalars_of(b),
    ensures
        a == b,
{
    assert(scalars_of(a).len() == a.len());
    assert(scalars_of(b).len() == b.len());
    assert forall|i: int| 0 <= i < a.len() implies a[i] == b[i] by {
        assert(scalars_of(a)[i] == a[i] as int);
        assert(scalars_of(b)[i] == b[i] as int);
    }
    assert(a =~= b);
}

/// A leading surrogate whose successor within the NUL-bounded prefix is not a
/// trailing surrogate decodes as the replacement character.
proof fn lemma_unpaired_step(units: Seq<u16>, i: int, rest: Seq<u16>)
    requires
        0 <= i < units.len(),
        is_high_surrogate(units[i]),
        rest == until_nul(units.skip(i)),
        rest[0] == units[i],
        rest =~= seq![units[i]] + until_nul(units.skip(i + 1)),
        !(i + 1 < units.len() && is_low_surrogate(units[i + 1])),
    ensures
        utf16_decode_vals(rest) =~= seq![replacement_scalar()] + utf16_decode_vals(
            until_nul(units.skip(i + 1)),
        ),
{
    if rest.len() >= 2 {
        assert(rest[1] == until_nul(units.skip(i + 1))[0]);
        if i + 1 < units.len() && units[i + 1] != 0 {
            assert(units.skip(i + 1)[0] == units[i + 1]);
            assert(until_nul(units.skip(i + 1))[0] == units[i + 1]);
            assert(!is_low_surrogate(rest[1]));
        } else {
            assert(until_nul(units.skip(i + 1)) =~= Seq::<u16>::empty());
        }
    }
    assert(rest.skip(1) =~= until_nul(units.skip(i + 1)));
}

} // verus!
