use mandarin_to_pinyin::diacritic_to_tone_plus_number;
use mandarin_to_pinyin::tone_plus_number_to_diacritic;

#[test]
fn test_tone_plus_number_to_diacritic() {
    // Basic valid pinyin
    let input1 = vec!["ni3", "ha3o"];
    let expected1: Vec<&'static str> = vec!["nǐ", "hǎo"];
    assert_eq!(tone_plus_number_to_diacritic(&input1), expected1);

    // All tones and 'v' for 'ü'
    let input2 = vec!["ma1", "ma2", "ma3", "ma4", "nv3", "lv4"];
    let expected2 = vec!["mā", "má", "mǎ", "mà", "nǚ", "lǜ"];
    assert_eq!(tone_plus_number_to_diacritic(&input2), expected2);

    // Invalid pinyin passes through unchanged
    let input3 = vec!["pin1yin1", "test5", "a", "b0"];
    let expected3 = vec!["pin1yin1", "test5", "a", "b0"];
    assert_eq!(tone_plus_number_to_diacritic(&input3), expected3);

    // Mix of valid and invalid pinyin
    let input4 = vec!["wo3", "shi4", "xue2sheng", "ni2hao3"];
    let expected4 = vec!["wǒ", "shì", "xuésheng", "níhaǒ"];
    assert_eq!(tone_plus_number_to_diacritic(&input4), expected4);

    // Empty input
    let input5: Vec<&str> = vec![];
    let expected5: Vec<String> = vec![];
    assert_eq!(tone_plus_number_to_diacritic(&input5), expected5);

    // Empty strings in the input
    let input6 = vec!["", "hao3", ""];
    let expected6 = vec!["", "haǒ", ""];
    assert_eq!(tone_plus_number_to_diacritic(&input6), expected6);

    // A letter before the number that forms no key
    let input7 = vec!["x1", "z4"];
    let expected7 = vec!["x1", "z4"];
    assert_eq!(tone_plus_number_to_diacritic(&input7), expected7);

    // The "yu" keys, and the 3-char key taking priority over the 2-char one
    let input8 = vec!["yu1", "yu2", "yu3", "yu4", "abcyu4o", "abcu4o"];
    let expected8 = vec!["ǖ", "ǘ", "ǚ", "ǜ", "abcǜo", "abcùo"];
    assert_eq!(tone_plus_number_to_diacritic(&input8), expected8);
}

#[test]
fn diacritic_to_numbered_basic() {
    let input = vec!["xiāng", "zhǐ", "lǘ", "nǐ", "hǎo"];
    let expected = vec!["xia1ng", "zhi3", "lv2", "ni3", "ha3o"];
    assert_eq!(diacritic_to_tone_plus_number(&input), expected);
}

#[test]
fn diacritic_to_numbered_passthrough() {
    let input = vec!["hello", "", "123", "mā ma"];
    let expected = vec!["hello", "", "123", "ma1 ma"];
    assert_eq!(diacritic_to_tone_plus_number(&input), expected);
}

#[test]
fn round_trip_reverse_keys_canonicalize() {
    // Every spelling of the ü vowel decodes to the same diacritic, and the
    // way back yields the canonical "v" spelling.
    for key in ["yu1", "ü1", "v1"] {
        let dia = tone_plus_number_to_diacritic(&[key]);
        assert_eq!(dia, vec!["ǖ"]);
        let back = diacritic_to_tone_plus_number(&[dia[0].as_str()]);
        assert_eq!(back, vec!["v1"]);
    }
    // A plain vowel key round-trips to itself.
    for (key, dia_expect) in [("a3", "ǎ"), ("u4", "ù"), ("m2", "ḿ"), ("n4", "ǹ")] {
        let dia = tone_plus_number_to_diacritic(&[key]);
        assert_eq!(dia, vec![dia_expect]);
        let back = diacritic_to_tone_plus_number(&[dia[0].as_str()]);
        assert_eq!(back, vec![key]);
    }
}

#[test]
fn three_char_key_beats_two_char_key() {
    let out = tone_plus_number_to_diacritic(&["yu1", "abcyu4o", "abcu4o"]);
    assert_eq!(out, vec!["ǖ", "abcǜo", "abcùo"]);
}
