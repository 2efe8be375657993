//! The rules by which two readings count as the same: across the two syllabaries and with a
//! lengthening mark for a long vowel, under sequential voicing, and under consonant doubling;
//! and the grading of a reading against the readings that a dictionary lists.

use vstd::prelude::*;
use crate::chars::{chars_of, skip_chars, take_chars};
use crate::furigana::KanjiAccuracy;

verus! {

/// How far apart a hiragana and the katakana of the same sound lie in Unicode.
pub const KANA_TABLE_DISTANCE: u32 = 96;

/// The mark that lengthens the vowel before it.
pub open spec fn lengthening_mark() -> char {
    'ー'
}

/// Whether `next` is the vowel that lengthens `previous`: `previous` belongs to the family of
/// one of the five vowels and `next` is that vowel, in either syllabary.
pub open spec fn extends_vowel(previous: char, next: char) -> bool {
    match (previous, next) {
        ('あ' | 'か' | 'さ' | 'た' | 'な' | 'は' | 'ま', 'あ' | 'ア') => true,
        ('い' | 'き' | 'し' | 'ち' | 'に' | 'ひ' | 'み', 'い' | 'イ') => true,
        ('う' | 'く' | 'す' | 'つ' | 'ぬ' | 'ふ' | 'む', 'う' | 'ウ') => true,
        ('え' | 'け' | 'せ' | 'て' | 'ね' | 'へ' | 'め', 'え' | 'エ') => true,
        ('お' | 'こ' | 'そ' | 'と' | 'の' | 'ほ' | 'も', 'お' | 'オ') => true,
        _ => false,
    }
}

/// Checks if the next char can be an "extension" of the previous char the same way the
/// lengthening mark is used for katakana.
#[verifier::when_used_as_spec(extends_vowel)]
pub fn is_extension(previous: char, next: char) -> (extension: bool)
    ensures
        extension == extends_vowel(previous, next),
{
    match (previous, next) {
        ('あ' | 'か' | 'さ' | 'た' | 'な' | 'は' | 'ま', 'あ' | 'ア') => true,
        ('い' | 'き' | 'し' | 'ち' | 'に' | 'ひ' | 'み', 'い' | 'イ') => true,
        ('う' | 'く' | 'す' | 'つ' | 'ぬ' | 'ふ' | 'む', 'う' | 'ウ') => true,
        ('え' | 'け' | 'せ' | 'て' | 'ね' | 'へ' | 'め', 'え' | 'エ') => true,
        ('お' | 'こ' | 'そ' | 'と' | 'の' | 'ほ' | 'も', 'お' | 'オ') => true,
        _ => false,
    }
}

/// Whether two characters are the same or lie exactly one syllabary apart.
pub open spec fn same_sound(left: char, right: char) -> bool {
    left as int == right as int || left as int == right as int + KANA_TABLE_DISTANCE
        || left as int == right as int - KANA_TABLE_DISTANCE
}

/// Checks whether two characters are the same or lie exactly one syllabary apart.
fn is_same_sound(left: char, right: char) -> (same: bool)
    ensures
        same == same_sound(left, right),
{
    let left_code: u32 = left as u32;
    let right_code: u32 = right as u32;
    left_code == right_code || left_code == right_code + KANA_TABLE_DISTANCE || (right_code
        >= KANA_TABLE_DISTANCE && left_code == right_code - KANA_TABLE_DISTANCE)
}

/// Whether the characters at position `i` of two readings agree. Where exactly one of them is
/// the lengthening mark, the other must be the vowel that lengthens the character before it on
/// its own side. Everywhere else the two must be the same or one syllabary apart.
pub open spec fn agree_at(left: Seq<char>, right: Seq<char>, i: int) -> bool {
    if left[i] == lengthening_mark() && right[i] != lengthening_mark() {
        i > 0 && extends_vowel(right[i - 1], right[i])
    } else if right[i] == lengthening_mark() && left[i] != lengthening_mark() {
        i > 0 && extends_vowel(left[i - 1], left[i])
    } else {
        same_sound(left[i], right[i])
    }
}

/// Two readings are kana-equivalent when they have the same length and agree at every position.
pub open spec fn kana_equivalent_spec(left: Seq<char>, right: Seq<char>) -> bool {
    &&& left.len() == right.len()
    &&& forall|i: int| 0 <= i < left.len() ==> agree_at(left, right, i)
}

/// Checks whether two readings are equivalent when the difference between hiragana and
/// katakana is ignored, and a lengthening mark may stand for the vowel it lengthens.
pub fn kana_equivalent_chars(left: &[char], right: &[char]) -> (equivalent: bool)
    ensures
        equivalent == kana_equivalent_spec(left@, right@),
{
    if left.len() != right.len() {
        return false;
    }
    let mut i: usize = 0;
    while i < left.len()
        invariant
            left.len() == right.len(),
            i <= left.len(),
            forall|j: int| 0 <= j < i ==> agree_at(left@, right@, j),
        decreases left.len() - i,
    {
        let l = left[i];
        let r = right[i];
        let agree = if l == 'ー' && r != 'ー' {
            i > 0 && is_extension(right[i - 1], r)
        } else if r == 'ー' && l != 'ー' {
            i > 0 && is_extension(left[i - 1], l)
        } else {
            is_same_sound(l, r)
        };
        assert(agree == agree_at(left@, right@, i as int));
        if !agree {
            return false;
        }
        i += 1;
    }
    true
}

/// Checks whether the strings are equivalent if ignoring the difference between hiragana and
/// katakana; a lengthening mark may stand for the vowel that lengthens the kana before it.
pub fn kana_equivalent(left: &str, right: &str) -> (equivalent: bool)
    ensures
        equivalent == kana_equivalent_spec(left@, right@),
{
    let left_chars = chars_of(left);
    let right_chars = chars_of(right);
    kana_equivalent_chars(left_chars.as_slice(), right_chars.as_slice())
}

/// Whether `actual` is `ideal` itself or the voiced or half-voiced kana of the same row.
pub open spec fn voiced_from(ideal: char, actual: char) -> bool {
    ideal == actual || match (ideal, actual) {
        ('か' | 'カ', 'が' | 'ガ') => true,
        ('き' | 'キ', 'ぎ' | 'ギ') => true,
        ('く' | 'ク', 'ぐ' | 'グ') => true,
        ('け' | 'ケ', 'げ' | 'ゲ') => true,
        ('こ' | 'コ', 'ご' | 'ゴ') => true,
        ('さ' | 'サ', 'ざ' | 'ザ') => true,
        ('し' | 'シ', 'じ' | 'ジ') => true,
        ('す' | 'ス', 'ず' | 'ズ') => true,
        ('せ' | 'セ', 'ぜ' | 'ゼ') => true,
        ('そ' | 'ソ', 'ぞ' | 'ゾ') => true,
        ('た' | 'タ', 'だ' | 'ダ') => true,
        ('ち' | 'チ', 'ぢ' | 'ヂ') => true,
        ('つ' | 'ツ', 'づ' | 'ヅ') => true,
        ('て' | 'テ', 'で' | 'デ') => true,
        ('と' | 'ト', 'ど' | 'ド') => true,
        ('は' | 'ハ', 'ば' | 'ぱ' | 'バ' | 'パ') => true,
        ('ひ' | 'ヒ', 'び' | 'ぴ' | 'ビ' | 'ピ') => true,
        ('ふ' | 'フ', 'ぶ' | 'ぷ' | 'ブ' | 'プ') => true,
        ('へ' | 'ヘ', 'べ' | 'ぺ' | 'ベ' | 'ペ') => true,
        ('ほ' | 'ホ', 'ぼ' | 'ぽ' | 'ボ' | 'ポ') => true,
        _ => false,
    }
}

/// A reading is the ideal reading under sequential voicing when its first character is the
/// ideal one or a voiced form of it, and the rest is kana-equivalent. Two empty readings match.
pub open spec fn rendaku_equivalent_spec(ideal: Seq<char>, actual: Seq<char>) -> bool {
    if ideal.len() == 0 {
        actual.len() == 0
    } else if actual.len() == 0 {
        false
    } else {
        voiced_from(ideal[0], actual[0]) && kana_equivalent_spec(ideal.skip(1), actual.skip(1))
    }
}

/// Checks if the actual reading could be the ideal reading with its first consonant voiced.
pub fn rendaku_equivalent_chars(ideal: &[char], actual: &[char]) -> (equivalent: bool)
    ensures
        equivalent == rendaku_equivalent_spec(ideal@, actual@),
{
    if ideal.len() == 0 {
        return actual.len() == 0;
    }
    if actual.len() == 0 {
        return false;
    }
    let ideal_char = ideal[0];
    let actual_char = actual[0];
    let first_chars_rendaku_accurate = ideal_char == actual_char || match (ideal_char, actual_char) {
        ('か' | 'カ', 'が' | 'ガ') => true,
        ('き' | 'キ', 'ぎ' | 'ギ') => true,
        ('く' | 'ク', 'ぐ' | 'グ') => true,
        ('け' | 'ケ', 'げ' | 'ゲ') => true,
        ('こ' | 'コ', 'ご' | 'ゴ') => true,
        ('さ' | 'サ', 'ざ' | 'ザ') => true,
        ('し' | 'シ', 'じ' | 'ジ') => true,
        ('す' | 'ス', 'ず' | 'ズ') => true,
        ('せ' | 'セ', 'ぜ' | 'ゼ') => true,
        ('そ' | 'ソ', 'ぞ' | 'ゾ') => true,
        ('た' | 'タ', 'だ' | 'ダ') => true,
        ('ち' | 'チ', 'ぢ' | 'ヂ') => true,
        ('つ' | 'ツ', 'づ' | 'ヅ') => true,
        ('て' | 'テ', 'で' | 'デ') => true,
        ('と' | 'ト', 'ど' | 'ド') => true,
        ('は' | 'ハ', 'ば' | 'ぱ' | 'バ' | 'パ') => true,
        ('ひ' | 'ヒ', 'び' | 'ぴ' | 'ビ' | 'ピ') => true,
        ('ふ' | 'フ', 'ぶ' | 'ぷ' | 'ブ' | 'プ') => true,
        ('へ' | 'ヘ', 'べ' | 'ぺ' | 'ベ' | 'ペ') => true,
        ('ほ' | 'ホ', 'ぼ' | 'ぽ' | 'ボ' | 'ポ') => true,
        _ => false,
    };
    first_chars_rendaku_accurate && kana_equivalent_chars(
        skip_chars(ideal, 1),
        skip_chars(actual, 1),
    )
}

/// Checks if the actual reading could be the "ideal" reading (according to kanji reading info)
/// with rendaku.
pub fn rendaku_equivalent(ideal_reading: &str, actual_reading: &str) -> (equivalent: bool)
    ensures
        equivalent == rendaku_equivalent_spec(ideal_reading@, actual_reading@),
{
    let ideal = chars_of(ideal_reading);
    let actual = chars_of(actual_reading);
    rendaku_equivalent_chars(ideal.as_slice(), actual.as_slice())
}

/// Whether `actual` is `ideal` itself, or the small tsu standing for a final ku, chi or tsu.
pub open spec fn doubled_from(ideal: char, actual: char) -> bool {
    ideal == actual || ((ideal == 'く' || ideal == 'ち' || ideal == 'つ') && actual == 'っ')
}

/// A reading is the ideal reading under consonant doubling when its last character is the
/// ideal one or the small tsu that replaces it, and what comes before is kana-equivalent. Two
/// empty readings match.
pub open spec fn sokuonbin_equivalent_spec(ideal: Seq<char>, actual: Seq<char>) -> bool {
    if ideal.len() == 0 {
        actual.len() == 0
    } else if actual.len() == 0 {
        false
    } else {
        doubled_from(ideal.last(), actual.last()) && kana_equivalent_spec(
            ideal.drop_last(),
            actual.drop_last(),
        )
    }
}

/// Checks if the actual reading could be the ideal reading with its last consonant doubled.
pub fn sokuonbin_equivalent_chars(ideal: &[char], actual: &[char]) -> (equivalent: bool)
    ensures
        equivalent == sokuonbin_equivalent_spec(ideal@, actual@),
{
    if ideal.len() == 0 {
        return actual.len() == 0;
    }
    if actual.len() == 0 {
        return false;
    }
    let ideal_char = ideal[ideal.len() - 1];
    let actual_char = actual[actual.len() - 1];
    let last_chars_sokuonbin_accurate = if ideal_char == actual_char {
        true
    } else {
        (ideal_char == 'く' || ideal_char == 'ち' || ideal_char == 'つ') && actual_char == 'っ'
    };
    last_chars_sokuonbin_accurate && kana_equivalent_chars(
        take_chars(ideal, ideal.len() - 1),
        take_chars(actual, actual.len() - 1),
    )
}

/// Checks if the actual reading could be the "ideal" reading (according to kanji reading info)
/// with "sokuonbin" (consonant doubling).
pub fn sokuonbin_equivalent(ideal_reading: &str, actual_reading: &str) -> (equivalent: bool)
    ensures
        equivalent == sokuonbin_equivalent_spec(ideal_reading@, actual_reading@),
{
    let ideal = chars_of(ideal_reading);
    let actual = chars_of(actual_reading);
    sokuonbin_equivalent_chars(ideal.as_slice(), actual.as_slice())
}

/// The texts of a list of readings.
pub open spec fn reading_list(readings: Seq<String>) -> Seq<Seq<char>> {
    readings.map_values(|reading: String| reading@)
}

/// Whether one of `readings` is kana-equivalent to `candidate`.
pub open spec fn any_kana_equivalent(readings: Seq<Seq<char>>, candidate: Seq<char>) -> bool {
    exists|i: int| 0 <= i < readings.len() && kana_equivalent_spec(#[trigger] readings[i], candidate)
}

/// Whether `candidate` is one of `readings` under sequential voicing.
pub open spec fn any_rendaku_equivalent(readings: Seq<Seq<char>>, candidate: Seq<char>) -> bool {
    exists|i: int|
        0 <= i < readings.len() && rendaku_equivalent_spec(#[trigger] readings[i], candidate)
}

/// Whether `candidate` is one of `readings` under consonant doubling.
pub open spec fn any_sokuonbin_equivalent(readings: Seq<Seq<char>>, candidate: Seq<char>) -> bool {
    exists|i: int|
        0 <= i < readings.len() && sokuonbin_equivalent_spec(#[trigger] readings[i], candidate)
}

/// The grade of `candidate` against the readings that a dictionary lists. Without an entry there
/// is no grade. With one, the first of these that holds decides: some reading is
/// kana-equivalent; voicing is possible and explains some reading; doubling is possible and
/// explains some reading; none of them.
pub open spec fn grade(
    readings: Option<Seq<Seq<char>>>,
    candidate: Seq<char>,
    can_be_rendaku: bool,
    can_be_sokuonbin: bool,
) -> Option<KanjiAccuracy> {
    match readings {
        None => None,
        Some(readings) => Some(
            if any_kana_equivalent(readings, candidate) {
                KanjiAccuracy::Accurate
            } else if can_be_rendaku && any_rendaku_equivalent(readings, candidate) {
                KanjiAccuracy::AccurateWithRendaku
            } else if can_be_sokuonbin && any_sokuonbin_equivalent(readings, candidate) {
                KanjiAccuracy::AccurateWithSokuonbin
            } else {
                KanjiAccuracy::Inaccurate
            },
        ),
    }
}

/// Which of the three rules to apply.
#[derive(Debug, Clone, Copy, PartialEq, Eq, Structural)]
pub enum Rule {
    Kana,
    Rendaku,
    Sokuonbin,
}

/// Whether `candidate` matches `ideal` under `rule`.
pub open spec fn rule_holds(rule: Rule, ideal: Seq<char>, candidate: Seq<char>) -> bool {
    match rule {
        Rule::Kana => kana_equivalent_spec(ideal, candidate),
        Rule::Rendaku => rendaku_equivalent_spec(ideal, candidate),
        Rule::Sokuonbin => sokuonbin_equivalent_spec(ideal, candidate),
    }
}

/// Whether one of the listed readings matches the candidate under the given rule.
pub fn any_reading_matches(rule: Rule, readings: &[String], candidate: &[char]) -> (found: bool)
    ensures
        found == exists|i: int|
            0 <= i < readings@.len() && rule_holds(rule, #[trigger] reading_list(readings@)[i], candidate@),
{
    let mut i: usize = 0;
    while i < readings.len()
        invariant
            i <= readings.len(),
            forall|j: int|
                0 <= j < i ==> !rule_holds(rule, #[trigger] reading_list(readings@)[j], candidate@),
        decreases readings.len() - i,
    {
        let ideal = chars_of(readings[i].as_str());
        assert(ideal@ == reading_list(readings@)[i as int]);
        let matches = match rule {
            Rule::Kana => kana_equivalent_chars(ideal.as_slice(), candidate),
            Rule::Rendaku => rendaku_equivalent_chars(ideal.as_slice(), candidate),
            Rule::Sokuonbin => sokuonbin_equivalent_chars(ideal.as_slice(), candidate),
        };
        if matches {
            return true;
        }
        i += 1;
    }
    false
}

/// Checks if the kanji reading is accurate according to the possible kanji readings.
pub fn check_kanji_accuracy(
    kanji_readings: Option<&[String]>,
    kanji_reading: &str,
    can_be_rendaku: bool,
    can_be_sokuonbin: bool,
) -> (accuracy: Option<KanjiAccuracy>)
    ensures
        accuracy == grade(
            match kanji_readings {
                Some(readings) => Some(reading_list(readings@)),
                None => None,
            },
            kanji_reading@,
            can_be_rendaku,
            can_be_sokuonbin,
        ),
{
    let readings = match kanji_readings {
        Some(readings) => readings,
        None => {
            return None;
        },
    };
    let candidate = chars_of(kanji_reading);
    if any_reading_matches(Rule::Kana, readings, candidate.as_slice()) {
        return Some(KanjiAccuracy::Accurate);
    }
    if can_be_rendaku && any_reading_matches(Rule::Rendaku, readings, candidate.as_slice()) {
        return Some(KanjiAccuracy::AccurateWithRendaku);
    }
    if can_be_sokuonbin && any_reading_matches(Rule::Sokuonbin, readings, candidate.as_slice()) {
        return Some(KanjiAccuracy::AccurateWithSokuonbin);
    }
    Some(KanjiAccuracy::Inaccurate)
}

} // verus!
