//! The write-once mapping store: a table from Unicode code point to an
//! ordered list of candidate pinyin readings.
//!
//! The store starts uninitialized, is populated exactly once from a list of
//! entries, and is read-only afterwards.  A second initialization attempt
//! fails and leaves the first table untouched.

use std::collections::HashMap;
use vstd::prelude::*;

verus! {

/// The largest Unicode scalar value; no stored key may lie above it.
pub const MAX_CODE_POINT: u32 = 0x10FFFF;

/// The error conditions of the library.
#[derive(Clone, Copy, Debug, PartialEq, Eq, Structural)]
pub enum PinyinError {
    /// A lookup or rendering call came before a successful initialization.
    NotInitialized,
    /// A second initialization attempt; the first table stays authoritative.
    AlreadyInitialized,
    /// The supplied entries hold a key above the Unicode range.
    MalformedResource,
    /// No entries were supplied where some are required.
    MissingSource,
}

/// The in-memory mapping from code point to candidate pinyin readings.
/// Order within a candidate list is significant: index 0 is the primary
/// reading.
#[derive(Debug)]
pub struct UnicodeMapping {
    pub mappings: HashMap<u32, Vec<String>>,
}

/// The mathematical content of a mapping: each stored code point with its
/// readings, every reading a sequence of characters.
pub open spec fn table_view(m: Map<u32, Vec<String>>) -> Map<u32, Seq<Seq<char>>> {
    Map::new(|k: u32| m.contains_key(k), |k: u32| m[k].deep_view())
}

/// Every key of the table is a Unicode scalar value.
pub open spec fn keys_in_range(t: Map<u32, Seq<Seq<char>>>) -> bool {
    forall|k: u32| #[trigger] t.contains_key(k) ==> k <= MAX_CODE_POINT
}

/// Every entry key is a Unicode scalar value.
pub open spec fn entries_in_range(s: Seq<(u32, Vec<String>)>) -> bool {
    forall|i: int| 0 <= i < s.len() ==> (#[trigger] s[i]).0 <= MAX_CODE_POINT
}

/// The table that a list of entries denotes: every key of the list is
/// present, and for a key listed twice the later entry wins.
pub open spec fn entries_table(s: Seq<(u32, Vec<String>)>) -> Map<u32, Seq<Seq<char>>>
    decreases s.len(),
{
    if s.len() == 0 {
        Map::empty()
    } else {
        let rest = entries_table(s.drop_first());
        if rest.contains_key(s[0].0) {
            rest
        } else {
            rest.insert(s[0].0, s[0].1.deep_view())
        }
    }
}

/// A key is in the table of a list exactly when some entry carries it.
pub proof fn lemma_entries_table_dom(s: Seq<(u32, Vec<String>)>)
    ensures
        forall|k: u32| #[trigger] entries_table(s).contains_key(k) <==> (exists|i: int|
            0 <= i < s.len() && (#[trigger] s[i]).0 == k),
    decreases s.len(),
{
    if s.len() > 0 {
        lemma_entries_table_dom(s.drop_first());
        assert forall|k: u32| #[trigger] entries_table(s).contains_key(k) implies (exists|i: int|
            0 <= i < s.len() && (#[trigger] s[i]).0 == k) by {
            if entries_table(s.drop_first()).contains_key(k) {
                let i = choose|i: int|
                    0 <= i < s.drop_first().len() && (#[trigger] s.drop_first()[i]).0 == k;
                assert(s[i + 1].0 == k);
            } else {
                assert(s[0].0 == k);
            }
        }
        assert forall|k: u32|
            (exists|i: int|
                0 <= i < s.len() && (#[trigger] s[i]).0 == k) implies #[trigger] entries_table(
            s,
        ).contains_key(k) by {
            let i = choose|i: int| 0 <= i < s.len() && (#[trigger] s[i]).0 == k;
            if i > 0 {
                assert(s.drop_first()[i - 1].0 == k);
                assert(entries_table(s.drop_first()).contains_key(k));
            } else {
                assert(s[0].0 == k);
            }
            assert(entries_table(s).contains_key(k));
        }
    }
}

/// What a lookup of one key yields: the stored readings, or `None` for an
/// absent key.  Absence is not an error.
pub open spec fn lookup_entry(t: Map<u32, Seq<Seq<char>>>, k: u32) -> Option<Seq<Seq<char>>> {
    if t.contains_key(k) {
        Some(t[k])
    } else {
        None
    }
}

impl UnicodeMapping {
    /// The table this mapping denotes.
    pub open spec fn table(&self) -> Map<u32, Seq<Seq<char>>> {
        table_view(self.mappings@)
    }
}

/// The write-once store: uninitialized until `init_map` succeeds, immutable
/// afterwards.
pub struct MappingStore {
    table: Option<UnicodeMapping>,
}

impl MappingStore {
    pub closed spec fn is_initialized(&self) -> bool {
        self.table is Some
    }

    /// The installed table; empty while uninitialized.
    pub closed spec fn table(&self) -> Map<u32, Seq<Seq<char>>> {
        match self.table {
            Some(m) => m.table(),
            None => Map::empty(),
        }
    }

    /// The store's invariant: an installed table only holds Unicode scalar
    /// values as keys.
    pub open spec fn wf(&self) -> bool {
        keys_in_range(self.table())
    }

    /// A fresh, uninitialized store.
    pub fn new() -> (s: Self)
        ensures
            !s.is_initialized(),
            s.wf(),
    {
        MappingStore { table: None }
    }

    /// Whether the store has been populated.
    pub fn initialized(&self) -> (b: bool)
        ensures
            b == self.is_initialized(),
    {
        self.table.is_some()
    }

    /// Reads the candidate list of one code point.  Never fails once the
    /// store is initialized; an absent key yields `None`.
    pub fn get(&self, codepoint: u32) -> (r: Option<Vec<String>>)
        requires
            self.is_initialized(),
        ensures
            r.deep_view() == lookup_entry(self.table(), codepoint),
    {
        match &self.table {
            Some(um) => {
                match um.mappings.get(&codepoint) {
                    Some(v) => {
                        let c = v.clone();
                        proof {
                            assert forall|i: int| 0 <= i < c@.len() implies c@[i] == v@[i] by {
                                assert(cloned::<String>(v@[i], c@[i]));
                            }
                            assert(c.deep_view() =~= v.deep_view());
                        }
                        Some(c)
                    },
                    None => None,
                }
            },
            None => {
                proof {
                    assert(false);
                }
                None
            },
        }
    }
}

/// Populates the store from a list of entries.  Exactly one call may
/// succeed: a later call fails with `AlreadyInitialized` and leaves the
/// installed table untouched.  A missing list fails with `MissingSource`;
/// a list holding a key above the Unicode range is rejected whole with
/// `MalformedResource`, installing nothing.  For a key listed twice the
/// later entry wins.
pub fn init_map(store: &mut MappingStore, data: Option<Vec<(u32, Vec<String>)>>) -> (r: Result<
    (),
    PinyinError,
>)
    ensures
        r is Ok <==> (data matches Some(entries) && entries_in_range(entries@) && !old(
            store,
        ).is_initialized()),
        match r {
            Ok(()) => {
                &&& data matches Some(entries) && entries_in_range(entries@)
                &&& !old(store).is_initialized()
                &&& final (store).is_initialized()
                &&& final (store).table() == entries_table((data->Some_0)@)
                &&& final (store).wf()
            },
            Err(e) => {
                &&& *final (store) == *old(store)
                &&& (e == PinyinError::MissingSource <==> data is None)
                &&& (e == PinyinError::MalformedResource <==> (data matches Some(entries)
                    && !entries_in_range(entries@)))
                &&& (e == PinyinError::AlreadyInitialized <==> (data matches Some(entries)
                    && entries_in_range(entries@) && old(store).is_initialized()))
            },
        },
{
    let ghost d0 = data;
    match data {
        None => Err(PinyinError::MissingSource),
        Some(given) => {
            proof {
                assert(d0 == Some(given));
            }
            let mut entries = given;
            let ghost s0 = entries@;
            let mut m: HashMap<u32, Vec<String>> = HashMap::new();
            proof {
                assert(table_view(m@) =~= entries_table(s0.skip(s0.len() as int)));
            }
            loop
                invariant
                    d0 == data,
                    d0 is Some && (d0->Some_0)@ == s0,
                    entries@ =~= s0.take(entries@.len() as int),
                    entries@.len() <= s0.len(),
                    table_view(m@) == entries_table(s0.skip(entries@.len() as int)),
                    forall|j: int|
                        entries@.len() <= j < s0.len() ==> (#[trigger] s0[j]).0 <= MAX_CODE_POINT,
                ensures
                    table_view(m@) == entries_table(s0),
                    entries_in_range(s0),
                decreases entries@.len(),
            {
                let ghost i = entries@.len() as int;
                match entries.pop() {
                    None => {
                        proof {
                            assert(s0.skip(0) =~= s0);
                        }
                        break ;
                    },
                    Some((k, v)) => {
                        proof {
                            assert((k, v) == s0[i - 1]);
                            assert(s0.take(i).drop_last() =~= s0.take(i - 1));
                            assert(s0.skip(i - 1).drop_first() =~= s0.skip(i));
                            assert(s0.skip(i - 1)[0] == s0[i - 1]);
                        }
                        if k > MAX_CODE_POINT {
                            proof {
                                assert(s0[i - 1].0 > MAX_CODE_POINT);
                                assert(!entries_in_range(s0));
                            }
                            return Err(PinyinError::MalformedResource);
                        }
                        if !m.contains_key(&k) {
                            let ghost before = m@;
                            m.insert(k, v);
                            proof {
                                assert(table_view(m@) =~= table_view(before).insert(
                                    k,
                                    v.deep_view(),
                                ));
                            }
                        }
                    },
                }
            }
            if store.initialized() {
                return Err(PinyinError::AlreadyInitialized);
            }
            let um = UnicodeMapping { mappings: m };
            proof {
                lemma_entries_table_dom(s0);
                assert forall|k: u32| #[trigger] entries_table(s0).contains_key(k) implies k
                    <= MAX_CODE_POINT by {
                    let i = choose|i: int| 0 <= i < s0.len() && (#[trigger] s0[i]).0 == k;
                }
            }
            store.table = Some(um);
            Ok(())
        },
    }
}

} // verus!
