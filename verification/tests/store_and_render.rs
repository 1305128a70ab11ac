use mandarin_to_pinyin::init_map;
use mandarin_to_pinyin::to_pinyin_string;
use mandarin_to_pinyin::MappingStore;
use mandarin_to_pinyin::PinyinError;

fn sample_entries() -> Vec<(u32, Vec<String>)> {
    vec![
        ('你' as u32, vec!["nǐ".to_string()]),
        ('好' as u32, vec!["hǎo".to_string(), "hào".to_string()]),
        ('世' as u32, vec!["shì".to_string()]),
        ('界' as u32, vec!["jiè".to_string()]),
    ]
}

fn sample_store() -> MappingStore {
    let mut store = MappingStore::new();
    init_map(&mut store, Some(sample_entries())).unwrap();
    store
}

#[test]
fn test_to_pinyin_string() {
    let store = sample_store();
    // Normal sentence
    let input1 = "你好世界";
    let expected1 = "nǐ hǎo shì jiè";
    assert_eq!(to_pinyin_string(&store, input1, " ").unwrap(), expected1);

    // Sentence with non-Chinese characters
    let input2 = "Hello 你好, world";
    let expected2 = "H e l l o   nǐ hǎo ,   w o r l d";
    assert_eq!(to_pinyin_string(&store, input2, " ").unwrap(), expected2);

    // Empty string
    let input3 = "";
    let expected3 = "";
    assert_eq!(to_pinyin_string(&store, input3, " ").unwrap(), expected3);

    // Different separator
    let input4 = "你好";
    let expected4 = "nǐ-hǎo";
    assert_eq!(to_pinyin_string(&store, input4, "-").unwrap(), expected4);
}

#[test]
fn render_empty_text_any_separator() {
    let store = sample_store();
    for sep in ["", " ", "-", "abc"] {
        assert_eq!(to_pinyin_string(&store, "", sep).unwrap(), "");
    }
}

#[test]
fn render_before_init_fails() {
    let store = MappingStore::new();
    assert_eq!(
        to_pinyin_string(&store, "你好", " "),
        Err(PinyinError::NotInitialized)
    );
}

#[test]
fn render_empty_candidate_list_keeps_character() {
    let mut store = MappingStore::new();
    let entries = vec![('你' as u32, Vec::<String>::new())];
    init_map(&mut store, Some(entries)).unwrap();
    assert_eq!(to_pinyin_string(&store, "你", " ").unwrap(), "你");
}

#[test]
fn init_twice_fails_and_keeps_first_table() {
    let mut store = MappingStore::new();
    init_map(&mut store, Some(sample_entries())).unwrap();
    let other = vec![('你' as u32, vec!["xx".to_string()])];
    assert_eq!(
        init_map(&mut store, Some(other)),
        Err(PinyinError::AlreadyInitialized)
    );
    // The table from the first call is still authoritative.
    assert_eq!(to_pinyin_string(&store, "你", " ").unwrap(), "nǐ");
}

#[test]
fn init_without_data_fails() {
    let mut store = MappingStore::new();
    assert_eq!(init_map(&mut store, None), Err(PinyinError::MissingSource));
}

#[test]
fn init_rejects_out_of_range_key() {
    let mut store = MappingStore::new();
    let entries = vec![
        ('你' as u32, vec!["nǐ".to_string()]),
        (0x110000, vec!["bad".to_string()]),
    ];
    assert_eq!(
        init_map(&mut store, Some(entries)),
        Err(PinyinError::MalformedResource)
    );
    // Nothing was installed.
    assert_eq!(
        to_pinyin_string(&store, "你", " "),
        Err(PinyinError::NotInitialized)
    );
}

#[test]
fn init_duplicate_key_later_entry_wins() {
    let mut store = MappingStore::new();
    let entries = vec![
        ('你' as u32, vec!["first".to_string()]),
        ('你' as u32, vec!["second".to_string()]),
    ];
    init_map(&mut store, Some(entries)).unwrap();
    assert_eq!(to_pinyin_string(&store, "你", " ").unwrap(), "second");
}
