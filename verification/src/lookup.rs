//! Batch lookup over the mapping store, in three output shapes: a keyed map,
//! a positional list, or both at once.
//!
//! The positional shape keeps length, order and duplicates of the input batch.
//! The keyed shape holds one result per distinct requested key; for a key
//! requested twice the later occurrence wins, which for lookups of the same
//! immutable table is the same result.

use crate::store::lookup_entry;
use crate::store::MappingStore;
use crate::store::PinyinError;
use crate::text::str_to_chars;
use std::collections::HashMap;
use vstd::prelude::*;

verus! {

/// The positional result of a batch: one optional candidate list per key, in
/// input order.
pub open spec fn lookup_seq(t: Map<u32, Seq<Seq<char>>>, keys: Seq<u32>) -> Seq<
    Option<Seq<Seq<char>>>,
> {
    Seq::new(keys.len(), |i: int| lookup_entry(t, keys[i]))
}

/// The code points of a character batch, in order.
pub open spec fn char_codepoints(s: Seq<char>) -> Seq<u32> {
    Seq::new(s.len(), |i: int| s[i] as u32)
}

/// The keyed result of a batch: exactly the requested keys, each mapped to
/// its lookup result.
pub open spec fn keyed_result_ok(
    t: Map<u32, Seq<Seq<char>>>,
    keys: Seq<u32>,
    m: Map<u32, Option<Vec<String>>>,
) -> bool {
    &&& m.dom() == keys.to_set()
    &&& forall|k: u32| #[trigger] m.contains_key(k) ==> m[k].deep_view() == lookup_entry(t, k)
}

/// Both output shapes of one batch lookup.
#[derive(Debug)]
pub struct LookupResult {
    pub map: HashMap<u32, Option<Vec<String>>>,
    pub vec: Vec<Option<Vec<String>>>,
}

proof fn lemma_take_push_to_set(s: Seq<u32>, i: int)
    requires
        0 <= i < s.len(),
    ensures
        s.take(i + 1).to_set() == s.take(i).to_set().insert(s[i]),
{
    assert forall|x: u32| s.take(i + 1).to_set().contains(x) implies s.take(i).to_set().insert(
        s[i],
    ).contains(x) by {
        let j = choose|j: int| 0 <= j < s.take(i + 1).len() && #[trigger] s.take(i + 1)[j] == x;
        if j < i {
            assert(s.take(i)[j] == x);
            assert(s.take(i).contains(x));
        } else {
            assert(x == s[i]);
        }
    }
    assert forall|x: u32| s.take(i).to_set().insert(s[i]).contains(x) implies s.take(
        i + 1,
    ).to_set().contains(x) by {
        if x == s[i] {
            assert(s.take(i + 1)[i] == x);
            assert(s.take(i + 1).contains(x));
        } else {
            let j = choose|j: int| 0 <= j < s.take(i).len() && #[trigger] s.take(i)[j] == x;
            assert(s.take(i + 1)[j] == x);
            assert(s.take(i + 1).contains(x));
        }
    }
    assert(s.take(i + 1).to_set() =~= s.take(i).to_set().insert(s[i]));
}

/// One result per requested key: a keyed batch result holds exactly the
/// requested keys; a stored key yields its readings, an absent key `None`.
pub proof fn lemma_keyed_result_per_key(
    t: Map<u32, Seq<Seq<char>>>,
    keys: Seq<u32>,
    m: Map<u32, Option<Vec<String>>>,
    k: u32,
)
    requires
        keyed_result_ok(t, keys, m),
        keys.contains(k),
    ensures
        m.contains_key(k),
        m[k].deep_view() == lookup_entry(t, k),
        t.contains_key(k) ==> m[k].deep_view() == Some(t[k]),
        !t.contains_key(k) ==> m[k].deep_view() is None,
{
    assert(keys.to_set().contains(k));
}

/// The positional result has exactly one entry per input position, in input
/// order, duplicates preserved: position i holds the lookup of key i.
pub proof fn lemma_positional_result(t: Map<u32, Seq<Seq<char>>>, keys: Seq<u32>)
    ensures
        lookup_seq(t, keys).len() == keys.len(),
        forall|i: int| 0 <= i < keys.len() ==> #[trigger] lookup_seq(t, keys)[i] == lookup_entry(
            t,
            keys[i],
        ),
{
}

/// Looks up a batch of code points, keyed shape: one entry per distinct key.
pub fn lookup_unicodes_map(store: &MappingStore, keys: &[u32]) -> (r: Result<
    HashMap<u32, Option<Vec<String>>>,
    PinyinError,
>)
    ensures
        match r {
            Ok(m) => store.is_initialized() && keyed_result_ok(store.table(), keys@, m@),
            Err(e) => !store.is_initialized() && e == PinyinError::NotInitialized,
        },
{
    if !store.initialized() {
        return Err(PinyinError::NotInitialized);
    }
    let mut m: HashMap<u32, Option<Vec<String>>> = HashMap::new();
    let n = keys.len();
    let mut i: usize = 0;
    proof {
        assert(m@.dom() =~= keys@.take(0).to_set());
    }
    while i < n
        invariant
            n == keys@.len(),
            i <= n,
            store.is_initialized(),
            m@.dom() == keys@.take(i as int).to_set(),
            forall|k: u32| #[trigger] m@.contains_key(k) ==> m@[k].deep_view() == lookup_entry(
                store.table(),
                k,
            ),
        decreases n - i,
    {
        let key = keys[i];
        let got = store.get(key);
        m.insert(key, got);
        proof {
            lemma_take_push_to_set(keys@, i as int);
        }
        i += 1;
    }
    proof {
        assert(keys@.take(n as int) =~= keys@);
    }
    Ok(m)
}

/// Looks up a batch of code points, positional shape: one optional candidate
/// list per input position, duplicates and order preserved.
pub fn lookup_unicodes_vec(store: &MappingStore, keys: &[u32]) -> (r: Result<
    Vec<Option<Vec<String>>>,
    PinyinError,
>)
    ensures
        match r {
            Ok(v) => store.is_initialized() && v.deep_view() == lookup_seq(store.table(), keys@),
            Err(e) => !store.is_initialized() && e == PinyinError::NotInitialized,
        },
{
    if !store.initialized() {
        return Err(PinyinError::NotInitialized);
    }
    let mut out: Vec<Option<Vec<String>>> = Vec::new();
    let n = keys.len();
    let mut i: usize = 0;
    while i < n
        invariant
            n == keys@.len(),
            i <= n,
            store.is_initialized(),
            out.deep_view() == lookup_seq(store.table(), keys@.take(i as int)),
        decreases n - i,
    {
        let got = store.get(keys[i]);
        let ghost prev = out@;
        let ghost prev_dv = out.deep_view();
        out.push(got);
        proof {
            assert(prev_dv.len() == prev.len());
            assert(prev.len() == i as int);
            assert(out@ == prev.push(got));
            assert forall|j: int| 0 <= j < out@.len() implies out.deep_view()[j] == lookup_seq(
                store.table(),
                keys@.take(i + 1),
            )[j] by {
                if j < i {
                    assert(out@[j] == prev[j]);
                    assert(out.deep_view()[j] == prev_dv[j]);
                } else {
                    assert(out@[j] == got);
                }
            }
            assert(out.deep_view() =~= lookup_seq(store.table(), keys@.take(i + 1)));
        }
        i += 1;
    }
    proof {
        assert(keys@.take(n as int) =~= keys@);
    }
    Ok(out)
}

/// Looks up a batch of code points and returns both shapes from one pass.
pub fn lookup_unicodes(store: &MappingStore, keys: &[u32]) -> (r: Result<
    LookupResult,
    PinyinError,
>)
    ensures
        match r {
            Ok(b) => {
                &&& store.is_initialized()
                &&& keyed_result_ok(store.table(), keys@, b.map@)
                &&& b.vec.deep_view() == lookup_seq(store.table(), keys@)
            },
            Err(e) => !store.is_initialized() && e == PinyinError::NotInitialized,
        },
{
    if !store.initialized() {
        return Err(PinyinError::NotInitialized);
    }
    let mut m: HashMap<u32, Option<Vec<String>>> = HashMap::new();
    let mut out: Vec<Option<Vec<String>>> = Vec::new();
    let n = keys.len();
    let mut i: usize = 0;
    proof {
        assert(m@.dom() =~= keys@.take(0).to_set());
    }
    while i < n
        invariant
            n == keys@.len(),
            i <= n,
            store.is_initialized(),
            m@.dom() == keys@.take(i as int).to_set(),
            forall|k: u32| #[trigger] m@.contains_key(k) ==> m@[k].deep_view() == lookup_entry(
                store.table(),
                k,
            ),
            out.deep_view() == lookup_seq(store.table(), keys@.take(i as int)),
        decreases n - i,
    {
        let key = keys[i];
        m.insert(key, store.get(key));
        let got = store.get(key);
        let ghost prev = out@;
        let ghost prev_dv = out.deep_view();
        out.push(got);
        proof {
            assert(prev_dv.len() == prev.len());
            assert(prev.len() == i as int);
            lemma_take_push_to_set(keys@, i as int);
            assert(out@ == prev.push(got));
            assert forall|j: int| 0 <= j < out@.len() implies out.deep_view()[j] == lookup_seq(
                store.table(),
                keys@.take(i + 1),
            )[j] by {
                if j < i {
                    assert(out@[j] == prev[j]);
                    assert(out.deep_view()[j] == prev_dv[j]);
                } else {
                    assert(out@[j] == got);
                }
            }
            assert(out.deep_view() =~= lookup_seq(store.table(), keys@.take(i + 1)));
        }
        i += 1;
    }
    proof {
        assert(keys@.take(n as int) =~= keys@);
    }
    Ok(LookupResult { map: m, vec: out })
}

/// Converts a character batch to its code points, in order.
fn chars_to_codepoints(keys: &[char]) -> (v: Vec<u32>)
    ensures
        v@ == char_codepoints(keys@),
{
    let mut v: Vec<u32> = Vec::new();
    let n = keys.len();
    let mut i: usize = 0;
    while i < n
        invariant
            n == keys@.len(),
            i <= n,
            v@ == char_codepoints(keys@).take(i as int),
        decreases n - i,
    {
        v.push(keys[i] as u32);
        proof {
            assert(v@ =~= char_codepoints(keys@).take(i + 1));
        }
        i += 1;
    }
    proof {
        assert(char_codepoints(keys@).take(n as int) =~= char_codepoints(keys@));
    }
    v
}

/// Looks up a batch of characters, keyed shape; each key is the character's
/// code point.
pub fn lookup_chars_map(store: &MappingStore, keys: &[char]) -> (r: Result<
    HashMap<u32, Option<Vec<String>>>,
    PinyinError,
>)
    ensures
        match r {
            Ok(m) => store.is_initialized() && keyed_result_ok(
                store.table(),
                char_codepoints(keys@),
                m@,
            ),
            Err(e) => !store.is_initialized() && e == PinyinError::NotInitialized,
        },
{
    let cps = chars_to_codepoints(keys);
    lookup_unicodes_map(store, cps.as_slice())
}

/// Looks up a batch of characters, positional shape.
pub fn lookup_chars_vec(store: &MappingStore, keys: &[char]) -> (r: Result<
    Vec<Option<Vec<String>>>,
    PinyinError,
>)
    ensures
        match r {
            Ok(v) => store.is_initialized() && v.deep_view() == lookup_seq(
                store.table(),
                char_codepoints(keys@),
            ),
            Err(e) => !store.is_initialized() && e == PinyinError::NotInitialized,
        },
{
    let cps = chars_to_codepoints(keys);
    lookup_unicodes_vec(store, cps.as_slice())
}

/// Looks up a batch of characters and returns both shapes.
pub fn lookup_chars(store: &MappingStore, keys: &[char]) -> (r: Result<LookupResult, PinyinError>)
    ensures
        match r {
            Ok(b) => {
                &&& store.is_initialized()
                &&& keyed_result_ok(store.table(), char_codepoints(keys@), b.map@)
                &&& b.vec.deep_view() == lookup_seq(store.table(), char_codepoints(keys@))
            },
            Err(e) => !store.is_initialized() && e == PinyinError::NotInitialized,
        },
{
    let cps = chars_to_codepoints(keys);
    lookup_unicodes(store, cps.as_slice())
}

/// Looks up every character of a string, keyed shape.
pub fn lookup_chars_map_for_str(store: &MappingStore, s: &str) -> (r: Result<
    HashMap<u32, Option<Vec<String>>>,
    PinyinError,
>)
    ensures
        match r {
            Ok(m) => store.is_initialized() && keyed_result_ok(
                store.table(),
                char_codepoints(s@),
                m@,
            ),
            Err(e) => !store.is_initialized() && e == PinyinError::NotInitialized,
        },
{
    let keys = str_to_chars(s);
    lookup_chars_map(store, keys.as_slice())
}

/// Looks up every character of a string, positional shape.
pub fn lookup_chars_vec_for_str(store: &MappingStore, s: &str) -> (r: Result<
    Vec<Option<Vec<String>>>,
    PinyinError,
>)
    ensures
        match r {
            Ok(v) => store.is_initialized() && v.deep_view() == lookup_seq(
                store.table(),
                char_codepoints(s@),
            ),
            Err(e) => !store.is_initialized() && e == PinyinError::NotInitialized,
        },
{
    let keys = str_to_chars(s);
    lookup_chars_vec(store, keys.as_slice())
}

/// Looks up every character of a string and returns both shapes.
pub fn lookup_chars_for_str(store: &MappingStore, s: &str) -> (r: Result<
    LookupResult,
    PinyinError,
>)
    ensures
        match r {
            Ok(b) => {
                &&& store.is_initialized()
                &&& keyed_result_ok(store.table(), char_codepoints(s@), b.map@)
                &&& b.vec.deep_view() == lookup_seq(store.table(), char_codepoints(s@))
            },
            Err(e) => !store.is_initialized() && e == PinyinError::NotInitialized,
        },
{
    let keys = str_to_chars(s);
    lookup_chars(store, keys.as_slice())
}

} // verus!
