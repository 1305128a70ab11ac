use mandarin_to_pinyin::init_map;
use mandarin_to_pinyin::lookup_chars;
use mandarin_to_pinyin::lookup_chars_for_str;
use mandarin_to_pinyin::lookup_chars_map;
use mandarin_to_pinyin::lookup_chars_map_for_str;
use mandarin_to_pinyin::lookup_chars_vec;
use mandarin_to_pinyin::lookup_chars_vec_for_str;
use mandarin_to_pinyin::lookup_unicodes;
use mandarin_to_pinyin::lookup_unicodes_map;
use mandarin_to_pinyin::lookup_unicodes_vec;
use mandarin_to_pinyin::MappingStore;
use mandarin_to_pinyin::PinyinError;

fn sample_store() -> MappingStore {
    let mut store = MappingStore::new();
    let entries = vec![
        ('你' as u32, vec!["nǐ".to_string()]),
        ('好' as u32, vec!["hǎo".to_string(), "hào".to_string()]),
    ];
    init_map(&mut store, Some(entries)).unwrap();
    store
}

#[test]
fn lookup_map_present_and_absent_keys() {
    let store = sample_store();
    let keys = ['你' as u32, 'Q' as u32];
    let m = lookup_unicodes_map(&store, &keys).unwrap();
    // One result per requested key: absent keys are present with None.
    assert_eq!(m.len(), 2);
    assert_eq!(m[&('你' as u32)], Some(vec!["nǐ".to_string()]));
    assert_eq!(m[&('Q' as u32)], None);
}

#[test]
fn lookup_vec_keeps_length_order_duplicates() {
    let store = sample_store();
    let keys = ['你' as u32, 'Q' as u32, '你' as u32, '你' as u32];
    let v = lookup_unicodes_vec(&store, &keys).unwrap();
    assert_eq!(v.len(), 4);
    assert_eq!(v[0], Some(vec!["nǐ".to_string()]));
    assert_eq!(v[1], None);
    assert_eq!(v[2], Some(vec!["nǐ".to_string()]));
    assert_eq!(v[3], Some(vec!["nǐ".to_string()]));
}

#[test]
fn lookup_map_collapses_duplicates() {
    let store = sample_store();
    let keys = ['你' as u32, '你' as u32, '你' as u32];
    let m = lookup_unicodes_map(&store, &keys).unwrap();
    assert_eq!(m.len(), 1);
    assert_eq!(m[&('你' as u32)], Some(vec!["nǐ".to_string()]));
}

#[test]
fn lookup_both_shapes_agree() {
    let store = sample_store();
    let keys = ['好' as u32, '好' as u32, 'x' as u32];
    let both = lookup_unicodes(&store, &keys).unwrap();
    assert_eq!(both.vec.len(), 3);
    assert_eq!(
        both.vec[0],
        Some(vec!["hǎo".to_string(), "hào".to_string()])
    );
    assert_eq!(both.vec[2], None);
    assert_eq!(both.map.len(), 2);
    assert_eq!(
        both.map[&('好' as u32)],
        Some(vec!["hǎo".to_string(), "hào".to_string()])
    );
    assert_eq!(both.map[&('x' as u32)], None);
}

#[test]
fn lookup_chars_all_shapes() {
    let store = sample_store();
    let keys = ['你', 'Z'];
    let m = lookup_chars_map(&store, &keys).unwrap();
    assert_eq!(m.len(), 2);
    assert_eq!(m[&('你' as u32)], Some(vec!["nǐ".to_string()]));
    assert_eq!(m[&('Z' as u32)], None);
    let v = lookup_chars_vec(&store, &keys).unwrap();
    assert_eq!(v, vec![Some(vec!["nǐ".to_string()]), None]);
    let both = lookup_chars(&store, &keys).unwrap();
    assert_eq!(both.vec, v);
    assert_eq!(both.map.len(), 2);
}

#[test]
fn lookup_for_str_all_shapes() {
    let store = sample_store();
    let s = "你好你";
    let m = lookup_chars_map_for_str(&store, s).unwrap();
    assert_eq!(m.len(), 2);
    let v = lookup_chars_vec_for_str(&store, s).unwrap();
    assert_eq!(v.len(), 3);
    assert_eq!(v[0], Some(vec!["nǐ".to_string()]));
    assert_eq!(v[2], Some(vec!["nǐ".to_string()]));
    let both = lookup_chars_for_str(&store, s).unwrap();
    assert_eq!(both.vec, v);
    assert_eq!(both.map.len(), 2);
}

#[test]
fn lookup_before_init_fails() {
    let store = MappingStore::new();
    assert_eq!(
        lookup_unicodes_vec(&store, &[1, 2]),
        Err(PinyinError::NotInitialized)
    );
    assert!(matches!(
        lookup_unicodes_map(&store, &[1]),
        Err(PinyinError::NotInitialized)
    ));
    assert!(matches!(
        lookup_unicodes(&store, &[1]),
        Err(PinyinError::NotInitialized)
    ));
    assert!(matches!(
        lookup_chars_vec(&store, &['a']),
        Err(PinyinError::NotInitialized)
    ));
    assert!(matches!(
        lookup_chars_map_for_str(&store, "a"),
        Err(PinyinError::NotInitialized)
    ));
}

#[test]
fn lookup_empty_candidate_list_is_distinct_from_absent() {
    let mut store = MappingStore::new();
    let entries = vec![('你' as u32, Vec::<String>::new())];
    init_map(&mut store, Some(entries)).unwrap();
    let v = lookup_unicodes_vec(&store, &['你' as u32, 'x' as u32]).unwrap();
    assert_eq!(v[0], Some(Vec::<String>::new()));
    assert_eq!(v[1], None);
}
