//! One-shot sentence rendering: each character of the input is replaced by
//! its primary pinyin reading where the table has one, and kept verbatim
//! otherwise, with a caller-supplied separator between the units.

use crate::store::MappingStore;
use crate::store::PinyinError;
use crate::text::push_char;
use crate::text::push_str;
use crate::text::str_to_chars;
use vstd::prelude::*;

verus! {

/// One rendered unit: the primary (first) stored reading of the character,
/// or the character itself when it is absent or its candidate list is empty.
pub open spec fn render_unit(t: Map<u32, Seq<Seq<char>>>, c: char) -> Seq<char> {
    if t.contains_key(c as u32) && t[c as u32].len() > 0 {
        t[c as u32][0]
    } else {
        seq![c]
    }
}

/// A whole text rendered: the units of its characters in order, joined by
/// the separator, with no separator before the first or after the last unit.
pub open spec fn rendered(t: Map<u32, Seq<Seq<char>>>, s: Seq<char>, sep: Seq<char>) -> Seq<char>
    decreases s.len(),
{
    if s.len() == 0 {
        Seq::empty()
    } else if s.len() == 1 {
        render_unit(t, s[0])
    } else {
        rendered(t, s.drop_last(), sep) + sep + render_unit(t, s.last())
    }
}

/// Rendering an empty text yields the empty string, whatever the separator
/// and the table.
pub proof fn lemma_rendered_empty(t: Map<u32, Seq<Seq<char>>>, sep: Seq<char>)
    ensures
        rendered(t, Seq::empty(), sep) == Seq::<char>::empty(),
{
}

/// Renders a text to one pinyin string: per character the primary reading,
/// or the character itself, joined by the separator.
pub fn to_pinyin_string(store: &MappingStore, text: &str, separator: &str) -> (r: Result<
    String,
    PinyinError,
>)
    ensures
        match r {
            Ok(out) => store.is_initialized() && out@ == rendered(store.table(), text@, separator@),
            Err(e) => !store.is_initialized() && e == PinyinError::NotInitialized,
        },
{
    if !store.initialized() {
        return Err(PinyinError::NotInitialized);
    }
    let chars = str_to_chars(text);
    let mut out = String::new();
    let n = chars.len();
    let mut i: usize = 0;
    while i < n
        invariant
            n == chars@.len(),
            chars@ == text@,
            i <= n,
            store.is_initialized(),
            out@ == rendered(store.table(), text@.take(i as int), separator@),
        decreases n - i,
    {
        if i > 0 {
            push_str(&mut out, separator);
        }
        let c = chars[i];
        let ghost before = out@;
        match store.get(c as u32) {
            Some(list) => {
                if list.len() > 0 {
                    push_str(&mut out, list[0].as_str());
                    proof {
                        assert(list.deep_view()[0] == list@[0]@);
                        assert(out@ == before + render_unit(store.table(), c));
                    }
                } else {
                    push_char(&mut out, c);
                    proof {
                        assert(out@ =~= before + render_unit(store.table(), c));
                    }
                }
            },
            None => {
                push_char(&mut out, c);
                proof {
                    assert(out@ =~= before + render_unit(store.table(), c));
                }
            },
        }
        proof {
            let t = store.table();
            let sep = separator@;
            if i == 0 {
                assert(text@.take(1)[0] == text@[0]);
                assert(out@ =~= render_unit(t, text@[0]));
                assert(rendered(t, text@.take(1), sep) == render_unit(t, text@.take(1)[0]));
            } else {
                assert(text@.take(i + 1).drop_last() =~= text@.take(i as int));
                assert(text@.take(i + 1).last() == text@[i as int]);
            }
            assert(out@ == rendered(t, text@.take(i + 1), sep));
        }
        i += 1;
    }
    proof {
        assert(text@.take(n as int) =~= text@);
    }
    Ok(out)
}

} // verus!
