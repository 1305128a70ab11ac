//! Mandarin-to-pinyin conversion.
//!
//! The crate offers three services around a write-once mapping from Unicode
//! code points to candidate pinyin readings:
//! batch lookup in several output shapes, one-shot sentence rendering, and a
//! bidirectional transcoder between diacritic pinyin (`nǐ`) and tone-number
//! pinyin (`ni3`).

mod lookup;
mod render;
mod store;
mod tables;
mod text;
mod transcode;

pub use lookup::char_codepoints;
pub use lookup::keyed_result_ok;
pub use lookup::lemma_keyed_result_per_key;
pub use lookup::lemma_positional_result;
pub use lookup::lookup_chars;
pub use lookup::lookup_chars_for_str;
pub use lookup::lookup_chars_map;
pub use lookup::lookup_chars_map_for_str;
pub use lookup::lookup_chars_vec;
pub use lookup::lookup_chars_vec_for_str;
pub use lookup::lookup_seq;
pub use lookup::lookup_unicodes;
pub use lookup::lookup_unicodes_map;
pub use lookup::lookup_unicodes_vec;
pub use lookup::LookupResult;

pub use render::lemma_rendered_empty;
pub use render::render_unit;
pub use render::rendered;
pub use render::to_pinyin_string;

pub use store::entries_in_range;
pub use store::entries_table;
pub use store::init_map;
pub use store::keys_in_range;
pub use store::lemma_entries_table_dom;
pub use store::lookup_entry;
pub use store::table_view;
pub use store::MappingStore;
pub use store::PinyinError;
pub use store::UnicodeMapping;
pub use store::MAX_CODE_POINT;

pub use tables::diacritic_entry;
pub use tables::lookup_diacritic;
pub use tables::lookup_numbered2;
pub use tables::lookup_numbered3;
pub use tables::numbered_entry2;
pub use tables::numbered_entry3;

pub use text::chars_to_string;
pub use text::str_to_chars;

pub use transcode::diacritic_form;
pub use transcode::diacritic_to_tone_plus_number;
pub use transcode::is_digit_char;
pub use transcode::lemma_round_trip_three;
pub use transcode::lemma_round_trip_two;
pub use transcode::numbered_form;
pub use transcode::numbered_unit;
pub use transcode::replace_diacritic;
pub use transcode::replace_numbered_pinyin;
pub use transcode::tone_plus_number_to_diacritic;
