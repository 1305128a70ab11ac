//! The fixed bidirectional tone tables: a vowel carrying a tone mark on one
//! side, its ASCII letter plus tone digit on the other.
//!
//! The reverse direction is many-to-one: `ü1`, `yu1` and `v1` all decode to
//! `ǖ`, and `v` is the canonical spelling on the way back.

use vstd::prelude::*;

verus! {

/// The forward table: a diacritic vowel maps to its ASCII letter and tone
/// digit; every other character is absent.
pub open spec fn diacritic_entry(c: char) -> Option<(char, char)> {
    match c {
        'ā' => Some(('a', '1')),
        'á' => Some(('a', '2')),
        'ǎ' => Some(('a', '3')),
        'à' => Some(('a', '4')),
        'ē' => Some(('e', '1')),
        'é' => Some(('e', '2')),
        'ě' => Some(('e', '3')),
        'è' => Some(('e', '4')),
        'ī' => Some(('i', '1')),
        'í' => Some(('i', '2')),
        'ǐ' => Some(('i', '3')),
        'ì' => Some(('i', '4')),
        'ō' => Some(('o', '1')),
        'ó' => Some(('o', '2')),
        'ǒ' => Some(('o', '3')),
        'ò' => Some(('o', '4')),
        'ǖ' => Some(('v', '1')),
        'ǘ' => Some(('v', '2')),
        'ǚ' => Some(('v', '3')),
        'ǜ' => Some(('v', '4')),
        'ū' => Some(('u', '1')),
        'ú' => Some(('u', '2')),
        'ǔ' => Some(('u', '3')),
        'ù' => Some(('u', '4')),
        'ḿ' => Some(('m', '2')),
        'ń' => Some(('n', '2')),
        'ň' => Some(('n', '3')),
        'ǹ' => Some(('n', '4')),
        _ => None,
    }
}

/// The reverse table, two-character keys: one letter plus one tone digit maps
/// to the diacritic vowel; every other pair is absent.
pub open spec fn numbered_entry2(l: char, d: char) -> Option<char> {
    match (l, d) {
        ('a', '1') => Some('ā'),
        ('a', '2') => Some('á'),
        ('a', '3') => Some('ǎ'),
        ('a', '4') => Some('à'),
        ('e', '1') => Some('ē'),
        ('e', '2') => Some('é'),
        ('e', '3') => Some('ě'),
        ('e', '4') => Some('è'),
        ('i', '1') => Some('ī'),
        ('i', '2') => Some('í'),
        ('i', '3') => Some('ǐ'),
        ('i', '4') => Some('ì'),
        ('o', '1') => Some('ō'),
        ('o', '2') => Some('ó'),
        ('o', '3') => Some('ǒ'),
        ('o', '4') => Some('ò'),
        ('ü', '1') => Some('ǖ'),
        ('ü', '2') => Some('ǘ'),
        ('ü', '3') => Some('ǚ'),
        ('ü', '4') => Some('ǜ'),
        ('v', '1') => Some('ǖ'),
        ('v', '2') => Some('ǘ'),
        ('v', '3') => Some('ǚ'),
        ('v', '4') => Some('ǜ'),
        ('u', '1') => Some('ū'),
        ('u', '2') => Some('ú'),
        ('u', '3') => Some('ǔ'),
        ('u', '4') => Some('ù'),
        ('m', '2') => Some('ḿ'),
        ('n', '2') => Some('ń'),
        ('n', '3') => Some('ň'),
        ('n', '4') => Some('ǹ'),
        _ => None,
    }
}

/// The reverse table, three-character keys: only `yu` plus a tone digit, an
/// alternate spelling of the `ü` vowel.
pub open spec fn numbered_entry3(a: char, b: char, d: char) -> Option<char> {
    match (a, b, d) {
        ('y', 'u', '1') => Some('ǖ'),
        ('y', 'u', '2') => Some('ǘ'),
        ('y', 'u', '3') => Some('ǚ'),
        ('y', 'u', '4') => Some('ǜ'),
        _ => None,
    }
}

/// Forward table lookup: the letter and tone digit of a diacritic vowel.
pub fn lookup_diacritic(c: char) -> (r: Option<(char, char)>)
    ensures
        r == diacritic_entry(c),
{
    match c {
        'ā' => Some(('a', '1')),
        'á' => Some(('a', '2')),
        'ǎ' => Some(('a', '3')),
        'à' => Some(('a', '4')),
        'ē' => Some(('e', '1')),
        'é' => Some(('e', '2')),
        'ě' => Some(('e', '3')),
        'è' => Some(('e', '4')),
        'ī' => Some(('i', '1')),
        'í' => Some(('i', '2')),
        'ǐ' => Some(('i', '3')),
        'ì' => Some(('i', '4')),
        'ō' => Some(('o', '1')),
        'ó' => Some(('o', '2')),
        'ǒ' => Some(('o', '3')),
        'ò' => Some(('o', '4')),
        'ǖ' => Some(('v', '1')),
        'ǘ' => Some(('v', '2')),
        'ǚ' => Some(('v', '3')),
        'ǜ' => Some(('v', '4')),
        'ū' => Some(('u', '1')),
        'ú' => Some(('u', '2')),
        'ǔ' => Some(('u', '3')),
        'ù' => Some(('u', '4')),
        'ḿ' => Some(('m', '2')),
        'ń' => Some(('n', '2')),
        'ň' => Some(('n', '3')),
        'ǹ' => Some(('n', '4')),
        _ => None,
    }
}

/// Reverse table lookup on a two-character key: letter plus tone digit.
pub fn lookup_numbered2(l: char, d: char) -> (r: Option<char>)
    ensures
        r == numbered_entry2(l, d),
{
    match (l, d) {
        ('a', '1') => Some('ā'),
        ('a', '2') => Some('á'),
        ('a', '3') => Some('ǎ'),
        ('a', '4') => Some('à'),
        ('e', '1') => Some('ē'),
        ('e', '2') => Some('é'),
        ('e', '3') => Some('ě'),
        ('e', '4') => Some('è'),
        ('i', '1') => Some('ī'),
        ('i', '2') => Some('í'),
        ('i', '3') => Some('ǐ'),
        ('i', '4') => Some('ì'),
        ('o', '1') => Some('ō'),
        ('o', '2') => Some('ó'),
        ('o', '3') => Some('ǒ'),
        ('o', '4') => Some('ò'),
        ('ü', '1') => Some('ǖ'),
        ('ü', '2') => Some('ǘ'),
        ('ü', '3') => Some('ǚ'),
        ('ü', '4') => Some('ǜ'),
        ('v', '1') => Some('ǖ'),
        ('v', '2') => Some('ǘ'),
        ('v', '3') => Some('ǚ'),
        ('v', '4') => Some('ǜ'),
        ('u', '1') => Some('ū'),
        ('u', '2') => Some('ú'),
        ('u', '3') => Some('ǔ'),
        ('u', '4') => Some('ù'),
        ('m', '2') => Some('ḿ'),
        ('n', '2') => Some('ń'),
        ('n', '3') => Some('ň'),
        ('n', '4') => Some('ǹ'),
        _ => None,
    }
}

/// Reverse table lookup on a three-character key: two letters plus tone digit.
pub fn lookup_numbered3(a: char, b: char, d: char) -> (r: Option<char>)
    ensures
        r == numbered_entry3(a, b, d),
{
    match (a, b, d) {
        ('y', 'u', '1') => Some('ǖ'),
        ('y', 'u', '2') => Some('ǘ'),
        ('y', 'u', '3') => Some('ǚ'),
        ('y', 'u', '4') => Some('ǜ'),
        _ => None,
    }
}

} // verus!
