use furigana::equivalence::{
    check_kanji_accuracy, is_extension, kana_equivalent, rendaku_equivalent, sokuonbin_equivalent,
};
use furigana::furigana::KanjiAccuracy;
use furigana::utils::{
    digit_readings, is_alphabetic, is_fullwidth, is_halfwidth, is_hiragana, is_kana, is_kanji,
    is_katakana, is_numeric_fullwidth, is_numeric_west,
};

fn readings(list: &[&str]) -> Vec<String> {
    list.iter().map(|reading| reading.to_string()).collect()
}

#[test]
fn kana_equivalent_ignores_the_syllabary() {
    assert!(kana_equivalent("はなれる", "ハナレル"));
    assert!(kana_equivalent("ハナレル", "はなれる"));
    assert!(kana_equivalent("はナれル", "ハなレる"));
    assert!(kana_equivalent("かな", "かな"));
    assert!(kana_equivalent("", ""));
    assert!(kana_equivalent("日本", "日本"));
}

#[test]
fn kana_equivalent_wants_equal_lengths() {
    assert!(!kana_equivalent("はな", "はなれ"));
    assert!(!kana_equivalent("はなれ", "はな"));
    assert!(!kana_equivalent("", "は"));
}

#[test]
fn kana_equivalent_rejects_other_characters() {
    assert!(!kana_equivalent("はな", "はに"));
    assert!(!kana_equivalent("は", "ば"));
    assert!(!kana_equivalent("日", "に"));
    assert!(!kana_equivalent("に", "A"));
    assert!(!kana_equivalent("A", "に"));
    assert!(!kana_equivalent("a", "A"));
}

#[test]
fn lengthening_mark_matches_itself() {
    assert!(kana_equivalent("ビール", "びーる"));
    assert!(kana_equivalent("びーる", "ビール"));
    assert!(kana_equivalent("ー", "ー"));
}

#[test]
fn lengthening_mark_stands_for_the_vowel_of_the_family() {
    assert!(kana_equivalent("シー", "しい"));
    assert!(kana_equivalent("しい", "シー"));
    assert!(kana_equivalent("おかあさん", "オカーサン"));
    assert!(kana_equivalent("オカーサン", "おかあさん"));
    assert!(kana_equivalent("コーヒー", "こおひい"));
    assert!(kana_equivalent("カー", "かア"));
    assert!(kana_equivalent("すう", "スー"));
    assert!(kana_equivalent("ねえ", "ネー"));
}

#[test]
fn lengthening_mark_stands_for_no_other_character() {
    assert!(!kana_equivalent("シー", "しあ"));
    assert!(!kana_equivalent("しあ", "シー"));
    assert!(!kana_equivalent("コーヒー", "こうひい"));
    assert!(!kana_equivalent("かー", "かき"));
    assert!(!kana_equivalent("シー", "しイあ"));
}

#[test]
fn lengthening_mark_needs_a_character_of_the_family_before_the_vowel() {
    assert!(!kana_equivalent("ー", "あ"));
    assert!(!kana_equivalent("あ", "ー"));
    assert!(!kana_equivalent("ビール", "びいる"));
    assert!(!kana_equivalent("カー", "カア"));
    assert!(!kana_equivalent("らー", "らあ"));
}

#[test]
fn voicing_and_doubling_compare_the_rest_on_its_own() {
    assert!(rendaku_equivalent("かかあ", "がカー"));
    assert!(!rendaku_equivalent("かあ", "がー"));
    assert!(!rendaku_equivalent("こう", "ごー"));
    assert!(sokuonbin_equivalent("かあく", "カーっ"));
    assert!(!sokuonbin_equivalent("あく", "ーっ"));
}

#[test]
fn extension_follows_the_vowel_families() {
    assert!(is_extension('か', 'あ'));
    assert!(is_extension('か', 'ア'));
    assert!(is_extension('み', 'い'));
    assert!(is_extension('む', 'ウ'));
    assert!(is_extension('ね', 'え'));
    assert!(is_extension('も', 'オ'));
    assert!(!is_extension('か', 'い'));
    assert!(!is_extension('カ', 'あ'));
    assert!(!is_extension('あ', 'か'));
    assert!(!is_extension('ら', 'あ'));
}

#[test]
fn rendaku_voices_the_first_character_only() {
    assert!(rendaku_equivalent("ひ", "び"));
    assert!(rendaku_equivalent("ひ", "ぴ"));
    assert!(rendaku_equivalent("ヒ", "ビ"));
    assert!(rendaku_equivalent("ひ", "ビ"));
    assert!(rendaku_equivalent("かみ", "がみ"));
    assert!(rendaku_equivalent("かみ", "ガミ"));
    assert!(rendaku_equivalent("はな", "はな"));
    assert!(rendaku_equivalent("", ""));
    assert!(!rendaku_equivalent("", "が"));
    assert!(!rendaku_equivalent("か", ""));
    assert!(!rendaku_equivalent("び", "ひ"));
    assert!(!rendaku_equivalent("はは", "はば"));
    assert!(!rendaku_equivalent("か", "カ"));
    assert!(!rendaku_equivalent("な", "だ"));
}

#[test]
fn sokuonbin_doubles_the_last_character_only() {
    assert!(sokuonbin_equivalent("かく", "かっ"));
    assert!(sokuonbin_equivalent("いち", "いっ"));
    assert!(sokuonbin_equivalent("とつ", "とっ"));
    assert!(sokuonbin_equivalent("とつ", "トっ"));
    assert!(sokuonbin_equivalent("かく", "かく"));
    assert!(sokuonbin_equivalent("", ""));
    assert!(!sokuonbin_equivalent("", "っ"));
    assert!(!sokuonbin_equivalent("く", ""));
    assert!(!sokuonbin_equivalent("かき", "かっ"));
    assert!(!sokuonbin_equivalent("かく", "きっ"));
    assert!(!sokuonbin_equivalent("かっ", "かく"));
    assert!(!sokuonbin_equivalent("かく", "かッ"));
}

#[test]
fn grade_is_absent_without_an_entry() {
    assert_eq!(check_kanji_accuracy(None, "ひ", true, true), None);
    assert_eq!(check_kanji_accuracy(None, "", false, false), None);
}

#[test]
fn grade_takes_the_first_rule_that_holds() {
    let hi = readings(&["ひ", "か"]);
    assert_eq!(
        check_kanji_accuracy(Some(hi.as_slice()), "ヒ", true, true),
        Some(KanjiAccuracy::Accurate)
    );
    assert_eq!(
        check_kanji_accuracy(Some(hi.as_slice()), "か", false, false),
        Some(KanjiAccuracy::Accurate)
    );
    assert_eq!(
        check_kanji_accuracy(Some(hi.as_slice()), "び", true, true),
        Some(KanjiAccuracy::AccurateWithRendaku)
    );
    assert_eq!(
        check_kanji_accuracy(Some(hi.as_slice()), "び", false, true),
        Some(KanjiAccuracy::Inaccurate)
    );
    let kaku = readings(&["かく"]);
    assert_eq!(
        check_kanji_accuracy(Some(kaku.as_slice()), "かっ", true, true),
        Some(KanjiAccuracy::AccurateWithSokuonbin)
    );
    assert_eq!(
        check_kanji_accuracy(Some(kaku.as_slice()), "かっ", true, false),
        Some(KanjiAccuracy::Inaccurate)
    );
    assert_eq!(
        check_kanji_accuracy(Some(kaku.as_slice()), "がく", true, true),
        Some(KanjiAccuracy::AccurateWithRendaku)
    );
    assert_eq!(
        check_kanji_accuracy(Some(kaku.as_slice()), "がっ", true, true),
        Some(KanjiAccuracy::Inaccurate)
    );
    let both = readings(&["はつ", "ぱつ"]);
    assert_eq!(
        check_kanji_accuracy(Some(both.as_slice()), "ぱつ", true, true),
        Some(KanjiAccuracy::Accurate)
    );
    let none: Vec<String> = Vec::new();
    assert_eq!(
        check_kanji_accuracy(Some(none.as_slice()), "ひ", true, true),
        Some(KanjiAccuracy::Inaccurate)
    );
}

#[test]
fn digit_readings_of_the_ones() {
    assert_eq!(digit_readings('0', 0), ["ぜろ", "れい"]);
    assert_eq!(digit_readings('1', 0), ["いち", "ひと"]);
    assert_eq!(digit_readings('２', 0), ["に", "ふた"]);
    assert_eq!(digit_readings('3', 0), ["さん", "むっ"]);
    assert_eq!(digit_readings('4', 0), ["し", "よん", "よっ", "よ"]);
    assert_eq!(digit_readings('5', 0), ["ご", "いつ"]);
    assert_eq!(digit_readings('6', 0), ["ろく", "むっ"]);
    assert_eq!(digit_readings('７', 0), ["しち", "なな"]);
    assert_eq!(digit_readings('8', 0), ["はち", "やっ", "はっ"]);
    assert_eq!(digit_readings('9', 0), ["きゅう", "ここの"]);
}

#[test]
fn digit_readings_follow_the_place() {
    assert_eq!(digit_readings('1', 1), ["じゅう"]);
    assert_eq!(digit_readings('1', 2), ["ひゃく", "いっぴゃく"]);
    assert_eq!(digit_readings('1', 3), ["せん", "いっせん"]);
    assert_eq!(digit_readings('1', 4), ["まん", "いちまん"]);
    assert_eq!(digit_readings('1', 5), ["じゅう"]);
    assert_eq!(digit_readings('1', 8), ["おく", "いちおく"]);
    assert_eq!(digit_readings('1', 16), ["おく", "いちおく"]);
    assert_eq!(digit_readings('1', 12), ["まん", "いちまん"]);
    assert_eq!(digit_readings('3', 2), ["さんびゃく"]);
    assert_eq!(digit_readings('3', 3), ["さんぜん"]);
    assert_eq!(digit_readings('４', 1), ["しじゅう", "よんじゅう"]);
    assert_eq!(digit_readings('6', 2), ["ろっぴゃく"]);
    assert_eq!(digit_readings('7', 4), ["しちまん", "ななまん"]);
    assert_eq!(digit_readings('7', 8), ["ななおく"]);
    assert_eq!(digit_readings('8', 2), ["はっぴゃく"]);
    assert_eq!(digit_readings('8', 3), ["はっせん"]);
    assert_eq!(digit_readings('8', 8), ["はちまん"]);
    assert_eq!(digit_readings('9', 8), ["きゅうまん"]);
    assert_eq!(digit_readings('９', 1), ["きゅうじゅう"]);
    assert_eq!(digit_readings('0', 7), ["ぜろ", "れい"]);
}

#[test]
fn digit_readings_of_other_characters_are_empty() {
    assert!(digit_readings('a', 0).is_empty());
    assert!(digit_readings('一', 3).is_empty());
    assert!(digit_readings('①', 0).is_empty());
}

#[test]
fn character_classes() {
    assert!(is_hiragana('あ') && is_hiragana('ん') && !is_hiragana('ア') && !is_hiragana('a'));
    assert!(is_katakana('ア') && is_katakana('ー') && is_katakana('ヶ') && !is_katakana('あ'));
    assert!(is_kana('あ') && is_kana('ア') && !is_kana('日') && !is_kana('々'));
    assert!(is_kanji('日') && is_kanji('一') && !is_kanji('々') && !is_kanji('あ'));
    assert!(is_fullwidth('Ａ') && is_fullwidth('ｚ') && !is_fullwidth('A') && !is_fullwidth('０'));
    assert!(is_halfwidth('ｱ') && !is_halfwidth('ア'));
    assert!(is_alphabetic('a') && is_alphabetic('Z') && is_alphabetic('Ｑ') && is_alphabetic('ｱ'));
    assert!(!is_alphabetic('1') && !is_alphabetic('あ') && !is_alphabetic('@') && !is_alphabetic('['));
    assert!(is_numeric_fullwidth('０') && is_numeric_fullwidth('９') && !is_numeric_fullwidth('5'));
}

#[test]
fn numbers_are_what_unicode_counts_as_numbers() {
    assert!(is_numeric_west('7'));
    assert!(is_numeric_west('０'));
    assert!(is_numeric_west('①'));
    assert!(is_numeric_west('¾'));
    assert!(!is_numeric_west('K'));
    assert!(!is_numeric_west('三'));
    assert!(!is_numeric_west('あ'));
}
