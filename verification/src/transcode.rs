//! The notation transcoder: per-token text transforms between diacritic
//! pinyin (`nǐ`) and tone-number pinyin (`ni3`).
//!
//! The numbered-to-diacritic direction scans each token from the end and
//! matches keys longest first, so that `yu4` becomes the `ü` vowel rather
//! than `y` followed by a converted `u4`.  Text that forms no key passes
//! through unchanged in both directions.

use crate::tables::diacritic_entry;
use crate::tables::lookup_diacritic;
use crate::tables::lookup_numbered2;
use crate::tables::lookup_numbered3;
use crate::tables::numbered_entry2;
use crate::tables::numbered_entry3;
use crate::text::chars_to_string;
use crate::text::str_to_chars;
use vstd::prelude::*;

verus! {

/// An ASCII decimal digit.
pub open spec fn is_digit_char(c: char) -> bool {
    ||| c == '0'
    ||| c == '1'
    ||| c == '2'
    ||| c == '3'
    ||| c == '4'
    ||| c == '5'
    ||| c == '6'
    ||| c == '7'
    ||| c == '8'
    ||| c == '9'
}

fn digit_char(c: char) -> (b: bool)
    ensures
        b == is_digit_char(c),
{
    match c {
        '0' | '1' | '2' | '3' | '4' | '5' | '6' | '7' | '8' | '9' => true,
        _ => false,
    }
}

/// One character of a token in tone-number form: a diacritic vowel expands
/// to its letter and digit, anything else stays itself.
pub open spec fn numbered_unit(c: char) -> Seq<char> {
    match diacritic_entry(c) {
        Some(p) => seq![p.0, p.1],
        None => seq![c],
    }
}

/// A whole token in tone-number form: every character expanded independently,
/// in order.
pub open spec fn numbered_form(s: Seq<char>) -> Seq<char>
    decreases s.len(),
{
    if s.len() == 0 {
        Seq::empty()
    } else {
        numbered_form(s.drop_last()) + numbered_unit(s.last())
    }
}

/// A whole token in diacritic form: scanning from the end, a trailing digit
/// first tries the three-character key of the two preceding letters plus the
/// digit, then the two-character key of one preceding letter plus the digit;
/// a match is replaced by its diacritic vowel, anything else passes through.
pub open spec fn diacritic_form(s: Seq<char>) -> Seq<char>
    decreases s.len(),
{
    if s.len() == 0 {
        Seq::empty()
    } else {
        let n = s.len() as int;
        let c = s.last();
        if is_digit_char(c) && n >= 3 && numbered_entry3(s[n - 3], s[n - 2], c) is Some {
            diacritic_form(s.take(n - 3)).push(numbered_entry3(s[n - 3], s[n - 2], c)->Some_0)
        } else if is_digit_char(c) && n >= 2 && numbered_entry2(s[n - 2], c) is Some {
            diacritic_form(s.take(n - 2)).push(numbered_entry2(s[n - 2], c)->Some_0)
        } else {
            diacritic_form(s.take(n - 1)).push(c)
        }
    }
}

/// Rewrites one token from diacritic form to tone-number form.
pub fn replace_diacritic(pinyin: &str) -> (r: String)
    ensures
        r@ == numbered_form(pinyin@),
{
    let src = str_to_chars(pinyin);
    let mut out: Vec<char> = Vec::new();
    let n = src.len();
    let mut i: usize = 0;
    while i < n
        invariant
            n == src@.len(),
            src@ == pinyin@,
            i <= n,
            out@ == numbered_form(src@.take(i as int)),
        decreases n - i,
    {
        let c = src[i];
        match lookup_diacritic(c) {
            Some((l, d)) => {
                out.push(l);
                out.push(d);
            },
            None => {
                out.push(c);
            },
        }
        proof {
            let s = src@.take(i + 1);
            assert(s.drop_last() =~= src@.take(i as int));
            assert(s.last() == src@[i as int]);
            assert(out@ =~= numbered_form(src@.take(i as int)) + numbered_unit(src@[i as int]));
        }
        i += 1;
    }
    proof {
        assert(src@.take(n as int) =~= src@);
    }
    chars_to_string(&out)
}

/// Rewrites one token from tone-number form to diacritic form, matching the
/// longest key first while scanning from the end.
pub fn replace_numbered_pinyin(pinyin: &str) -> (r: String)
    ensures
        r@ == diacritic_form(pinyin@),
{
    let src = str_to_chars(pinyin);
    let mut out: Vec<char> = Vec::new();
    let mut i: usize = src.len();
    proof {
        assert(src@.take(src@.len() as int) =~= src@);
        assert(diacritic_form(src@) + out@ =~= diacritic_form(src@));
    }
    while i > 0
        invariant
            i <= src@.len(),
            src@ == pinyin@,
            diacritic_form(pinyin@) == diacritic_form(src@.take(i as int)) + out@,
        decreases i,
    {
        let ghost i0 = i as int;
        let c = src[i - 1];
        let mut consumed: usize = 1;
        let mut emit: char = c;
        if digit_char(c) {
            if i >= 3 {
                match lookup_numbered3(src[i - 3], src[i - 2], c) {
                    Some(v) => {
                        consumed = 3;
                        emit = v;
                    },
                    None => {},
                }
            }
            if consumed == 1 && i >= 2 {
                match lookup_numbered2(src[i - 2], c) {
                    Some(v) => {
                        consumed = 2;
                        emit = v;
                    },
                    None => {},
                }
            }
        }
        let ghost before = out@;
        out.insert(0, emit);
        proof {
            let s = src@.take(i0);
            assert(s.len() == i0);
            assert(s.last() == src@[i0 - 1]);
            if i0 >= 2 {
                assert(s[i0 - 2] == src@[i0 - 2]);
            }
            if i0 >= 3 {
                assert(s[i0 - 3] == src@[i0 - 3]);
            }
            assert(s.take(i0 - consumed) =~= src@.take(i0 - consumed));
            assert(diacritic_form(s) == diacritic_form(src@.take(i0 - consumed)).push(emit));
            assert(out@ =~= seq![emit] + before);
            assert(diacritic_form(src@.take(i0 - consumed)).push(emit) + before
                =~= diacritic_form(src@.take(i0 - consumed)) + (seq![emit] + before));
        }
        i -= consumed;
    }
    proof {
        assert(src@.take(0) =~= Seq::<char>::empty());
        assert(diacritic_form(Seq::<char>::empty()) + out@ =~= out@);
    }
    chars_to_string(&out)
}

/// Round trip through a two-character key: decoding the key yields a single
/// diacritic vowel, and re-encoding that vowel yields the canonical spelling
/// of the same key — the vowel's own letter with the same digit — which
/// decodes back to the same vowel.  (`ü1` and `v1` both decode to `ǖ`, which
/// re-encodes to `v1`.)
pub proof fn lemma_round_trip_two(l: char, d: char)
    requires
        numbered_entry2(l, d) is Some,
    ensures
        ({
            let c = numbered_entry2(l, d)->Some_0;
            &&& diacritic_form(seq![l, d]) == seq![c]
            &&& diacritic_entry(c) is Some
            &&& (diacritic_entry(c)->Some_0).1 == d
            &&& numbered_form(seq![c]) == seq![
                (diacritic_entry(c)->Some_0).0,
                (diacritic_entry(c)->Some_0).1,
            ]
            &&& numbered_entry2((diacritic_entry(c)->Some_0).0, (diacritic_entry(c)->Some_0).1)
                == Some(c)
        }),
{
    let c = numbered_entry2(l, d)->Some_0;
    let s = seq![l, d];
    assert(s.len() == 2);
    assert(s.last() == d);
    assert(s[0] == l);
    assert(is_digit_char(d));
    assert(s.take(0) =~= Seq::<char>::empty());
    assert(diacritic_form(Seq::<char>::empty()) == Seq::<char>::empty());
    assert(diacritic_form(s) =~= seq![c]);
    assert(seq![c].drop_last() =~= Seq::<char>::empty());
    assert(numbered_form(Seq::<char>::empty()) == Seq::<char>::empty());
    assert(numbered_form(seq![c]) =~= seq![
        (diacritic_entry(c)->Some_0).0,
        (diacritic_entry(c)->Some_0).1,
    ]);
}

/// Round trip through the three-character `yu` keys: they decode to the same
/// vowels as the `v` keys, and re-encode to the canonical `v` spelling.
pub proof fn lemma_round_trip_three(a: char, b: char, d: char)
    requires
        numbered_entry3(a, b, d) is Some,
    ensures
        ({
            let c = numbered_entry3(a, b, d)->Some_0;
            &&& diacritic_form(seq![a, b, d]) == seq![c]
            &&& diacritic_entry(c) is Some
            &&& (diacritic_entry(c)->Some_0).1 == d
            &&& numbered_form(seq![c]) == seq![
                (diacritic_entry(c)->Some_0).0,
                (diacritic_entry(c)->Some_0).1,
            ]
            &&& numbered_entry2((diacritic_entry(c)->Some_0).0, (diacritic_entry(c)->Some_0).1)
                == Some(c)
        }),
{
    let c = numbered_entry3(a, b, d)->Some_0;
    let s = seq![a, b, d];
    assert(s.len() == 3);
    assert(s.last() == d);
    assert(s[0] == a);
    assert(s[1] == b);
    assert(is_digit_char(d));
    assert(s.take(0) =~= Seq::<char>::empty());
    assert(diacritic_form(Seq::<char>::empty()) == Seq::<char>::empty());
    assert(diacritic_form(s) =~= seq![c]);
    assert(seq![c].drop_last() =~= Seq::<char>::empty());
    assert(numbered_form(Seq::<char>::empty()) == Seq::<char>::empty());
    assert(numbered_form(seq![c]) =~= seq![
        (diacritic_entry(c)->Some_0).0,
        (diacritic_entry(c)->Some_0).1,
    ]);
}

/// Converts a batch of tokens from diacritic form to tone-number form,
/// keeping length and order.
pub fn diacritic_to_tone_plus_number(pinyins: &[&str]) -> (r: Vec<String>)
    ensures
        r@.len() == pinyins@.len(),
        forall|i: int| 0 <= i < pinyins@.len() ==> (#[trigger] r@[i])@ == numbered_form(
            pinyins@[i]@,
        ),
{
    let mut r: Vec<String> = Vec::new();
    let n = pinyins.len();
    let mut i: usize = 0;
    while i < n
        invariant
            n == pinyins@.len(),
            i <= n,
            r@.len() == i,
            forall|j: int| 0 <= j < i ==> (#[trigger] r@[j])@ == numbered_form(pinyins@[j]@),
        decreases n - i,
    {
        r.push(replace_diacritic(pinyins[i]));
        i += 1;
    }
    r
}

/// Converts a batch of tokens from tone-number form to diacritic form,
/// keeping length and order.
pub fn tone_plus_number_to_diacritic(pinyins: &[&str]) -> (r: Vec<String>)
    ensures
        r@.len() == pinyins@.len(),
        forall|i: int| 0 <= i < pinyins@.len() ==> (#[trigger] r@[i])@ == diacritic_form(
            pinyins@[i]@,
        ),
{
    let mut r: Vec<String> = Vec::new();
    let n = pinyins.len();
    let mut i: usize = 0;
    while i < n
        invariant
            n == pinyins@.len(),
            i <= n,
            r@.len() == i,
            forall|j: int| 0 <= j < i ==> (#[trigger] r@[j])@ == diacritic_form(pinyins@[j]@),
        decreases n - i,
    {
        r.push(replace_numbered_pinyin(pinyins[i]));
        i += 1;
    }
    r
}

} // verus!
