//! Character classes of Japanese text and the readings of decimal digits.

use vstd::prelude::*;

verus! {

/// Whether Unicode puts `c` in one of its general categories for numbers (decimal digits,
/// letter-like numerals and other numerals).
pub uninterp spec fn unicode_numeric(c: char) -> bool;

/// Asks `char::is_numeric` of the standard library. Its answer is read off the Unicode tables
/// that the standard library carries, so the contract only gives that answer its name.
#[verifier::external_body]
fn char_is_numeric(c: char) -> (numeric: bool)
    ensures
        numeric == unicode_numeric(c),
{
    c.is_numeric()
}

/// The digits `０` to `９` of the full-width forms.
pub open spec fn numeric_fullwidth(c: char) -> bool {
    0xFF10 <= c as u32 <= 0xFF19
}

/// The full-width Latin letters `Ａ` to `Ｚ` and `ａ` to `ｚ`.
pub open spec fn fullwidth(c: char) -> bool {
    0xFF21 <= c as u32 <= 0xFF3A || 0xFF41 <= c as u32 <= 0xFF5A
}

/// The half-width forms block.
pub open spec fn halfwidth(c: char) -> bool {
    0xFF61 <= c as u32 <= 0xFF9F
}

/// The ASCII letters.
pub open spec fn ascii_alphabetic(c: char) -> bool {
    0x41 <= c as u32 <= 0x5A || 0x61 <= c as u32 <= 0x7A
}

/// Everything that is read letter by letter: ASCII letters, full-width letters, half-width forms.
pub open spec fn alphabetic(c: char) -> bool {
    ascii_alphabetic(c) || fullwidth(c) || halfwidth(c)
}

/// The hiragana block.
pub open spec fn hiragana(c: char) -> bool {
    0x3040 <= c as u32 <= 0x309F
}

/// The katakana block.
pub open spec fn katakana(c: char) -> bool {
    0x30A0 <= c as u32 <= 0x30FF
}

/// Either syllabary.
pub open spec fn kana(c: char) -> bool {
    hiragana(c) || katakana(c)
}

/// The block of unified ideographs.
pub open spec fn kanji(c: char) -> bool {
    0x4E00 <= c as u32 <= 0x9FFF
}

/// Whether every character of `text` is kana; true of the empty text.
pub open spec fn all_kana(text: Seq<char>) -> bool {
    forall|i: int| 0 <= i < text.len() ==> kana(#[trigger] text[i])
}

/// Checks whether Unicode counts the character as a number.
#[verifier::when_used_as_spec(unicode_numeric)]
pub fn is_numeric_west(c: char) -> (numeric: bool)
    ensures
        numeric == unicode_numeric(c),
{
    char_is_numeric(c)
}

/// Checks whether the character is a full-width digit.
#[verifier::when_used_as_spec(numeric_fullwidth)]
pub fn is_numeric_fullwidth(c: char) -> (numeric: bool)
    ensures
        numeric == numeric_fullwidth(c),
{
    let code: u32 = c as u32;
    0xFF10 <= code && code <= 0xFF19
}

/// Checks whether the character is read letter by letter.
#[verifier::when_used_as_spec(alphabetic)]
pub fn is_alphabetic(c: char) -> (letter: bool)
    ensures
        letter == alphabetic(c),
{
    let code: u32 = c as u32;
    (0x41 <= code && code <= 0x5A) || (0x61 <= code && code <= 0x7A) || is_fullwidth(c)
        || is_halfwidth(c)
}

/// Checks whether the character is a full-width Latin letter.
#[verifier::when_used_as_spec(fullwidth)]
pub fn is_fullwidth(c: char) -> (wide: bool)
    ensures
        wide == fullwidth(c),
{
    let code: u32 = c as u32;
    (0xFF21 <= code && code <= 0xFF3A) || (0xFF41 <= code && code <= 0xFF5A)
}

/// Checks whether the character is a half-width form.
#[verifier::when_used_as_spec(halfwidth)]
pub fn is_halfwidth(c: char) -> (narrow: bool)
    ensures
        narrow == halfwidth(c),
{
    let code: u32 = c as u32;
    0xFF61 <= code && code <= 0xFF9F
}

/// Checks whether the character is a hiragana.
#[verifier::when_used_as_spec(hiragana)]
pub fn is_hiragana(c: char) -> (found: bool)
    ensures
        found == hiragana(c),
{
    let code: u32 = c as u32;
    0x3040 <= code && code <= 0x309F
}

/// Checks whether the character is a katakana.
#[verifier::when_used_as_spec(katakana)]
pub fn is_katakana(c: char) -> (found: bool)
    ensures
        found == katakana(c),
{
    let code: u32 = c as u32;
    0x30A0 <= code && code <= 0x30FF
}

/// Checks whether the character is a kana of either syllabary.
#[verifier::when_used_as_spec(kana)]
pub fn is_kana(c: char) -> (found: bool)
    ensures
        found == kana(c),
{
    is_hiragana(c) || is_katakana(c)
}

/// Checks whether the character is a kanji.
#[verifier::when_used_as_spec(kanji)]
pub fn is_kanji(c: char) -> (found: bool)
    ensures
        found == kanji(c),
{
    let code: u32 = c as u32;
    0x4E00 <= code && code <= 0x9FFF
}

/// Checks whether a text is written in kana throughout.
pub fn is_all_kana(text: &[char]) -> (found: bool)
    ensures
        found == all_kana(text@),
{
    let mut i: usize = 0;
    while i < text.len()
        invariant
            i <= text.len(),
            forall|j: int| 0 <= j < i ==> kana(#[trigger] text@[j]),
        decreases text.len() - i,
    {
        if !is_kana(text[i]) {
            return false;
        }
        i += 1;
    }
    true
}

/// The decimal place of a digit, counted in the myriad system: after ten thousand the four
/// small places repeat, and every eighth place is a hundred million.
#[derive(Debug, Clone, Copy, PartialEq, Eq, Structural)]
pub enum Place {
    Ones,
    Tens,
    Hundreds,
    Thousands,
    TenThousands,
    HundredMillions,
}

/// The place of a digit that has `numbers_left` digits to its right.
pub open spec fn place_of(numbers_left: nat) -> Place {
    if numbers_left == 0 {
        Place::Ones
    } else if numbers_left % 8 == 0 {
        Place::HundredMillions
    } else if numbers_left % 4 == 1 {
        Place::Tens
    } else if numbers_left % 4 == 2 {
        Place::Hundreds
    } else if numbers_left % 4 == 3 {
        Place::Thousands
    } else {
        Place::TenThousands
    }
}

/// The value of a decimal digit, half-width or full-width.
pub open spec fn digit_value(digit: char) -> Option<u8> {
    if 0x30 <= digit as u32 <= 0x39 {
        Some((digit as u32 - 0x30) as u8)
    } else if 0xFF10 <= digit as u32 <= 0xFF19 {
        Some((digit as u32 - 0xFF10) as u8)
    } else {
        None
    }
}

/// Whether `digit` is a zero, half-width or full-width.
pub open spec fn is_zero_digit(digit: char) -> bool {
    digit == '0' || digit == '０'
}

/// The readings that a digit of the given value can take at the given place, in the order in
/// which they are tried. Eight and nine are read at a hundred million as at ten thousand.
pub open spec fn place_readings(value: u8, place: Place) -> Seq<Seq<char>> {
    match (value, place) {
        (0, _) => seq!["ぜろ"@, "れい"@],
        (1, Place::Ones) => seq!["いち"@, "ひと"@],
        (1, Place::Tens) => seq!["じゅう"@],
        (1, Place::Hundreds) => seq!["ひゃく"@, "いっぴゃく"@],
        (1, Place::Thousands) => seq!["せん"@, "いっせん"@],
        (1, Place::TenThousands) => seq!["まん"@, "いちまん"@],
        (1, Place::HundredMillions) => seq!["おく"@, "いちおく"@],
        (2, Place::Ones) => seq!["に"@, "ふた"@],
        (2, Place::Tens) => seq!["にじゅう"@],
        (2, Place::Hundreds) => seq!["にひゃく"@],
        (2, Place::Thousands) => seq!["にせん"@],
        (2, Place::TenThousands) => seq!["にまん"@],
        (2, Place::HundredMillions) => seq!["におく"@],
        (3, Place::Ones) => seq!["さん"@, "むっ"@],
        (3, Place::Tens) => seq!["さんじゅう"@],
        (3, Place::Hundreds) => seq!["さんびゃく"@],
        (3, Place::Thousands) => seq!["さんぜん"@],
        (3, Place::TenThousands) => seq!["さんまん"@],
        (3, Place::HundredMillions) => seq!["さんおく"@],
        (4, Place::Ones) => seq!["し"@, "よん"@, "よっ"@, "よ"@],
        (4, Place::Tens) => seq!["しじゅう"@, "よんじゅう"@],
        (4, Place::Hundreds) => seq!["しひゃく"@, "よんひゃく"@],
        (4, Place::Thousands) => seq!["しせん"@, "よんせん"@],
        (4, Place::TenThousands) => seq!["しまん"@, "よんまん"@],
        (4, Place::HundredMillions) => seq!["よんおく"@],
        (5, Place::Ones) => seq!["ご"@, "いつ"@],
        (5, Place::Tens) => seq!["ごじゅう"@],
        (5, Place::Hundreds) => seq!["ごひゃく"@],
        (5, Place::Thousands) => seq!["ごせん"@],
        (5, Place::TenThousands) => seq!["ごまん"@],
        (5, Place::HundredMillions) => seq!["ごおく"@],
        (6, Place::Ones) => seq!["ろく"@, "むっ"@],
        (6, Place::Tens) => seq!["ろくじゅう"@],
        (6, Place::Hundreds) => seq!["ろっぴゃく"@],
        (6, Place::Thousands) => seq!["ろくせん"@],
        (6, Place::TenThousands) => seq!["ろくまん"@],
        (6, Place::HundredMillions) => seq!["ろくおく"@],
        (7, Place::Ones) => seq!["しち"@, "なな"@],
        (7, Place::Tens) => seq!["しちじゅう"@, "ななじゅう"@],
        (7, Place::Hundreds) => seq!["しちひゃく"@, "ななひゃく"@],
        (7, Place::Thousands) => seq!["しちせん"@, "ななせん"@],
        (7, Place::TenThousands) => seq!["しちまん"@, "ななまん"@],
        (7, Place::HundredMillions) => seq!["ななおく"@],
        (8, Place::Ones) => seq!["はち"@, "やっ"@, "はっ"@],
        (8, Place::Tens) => seq!["はちじゅう"@],
        (8, Place::Hundreds) => seq!["はっぴゃく"@],
        (8, Place::Thousands) => seq!["はっせん"@],
        (8, Place::TenThousands) => seq!["はちまん"@],
        (8, Place::HundredMillions) => seq!["はちまん"@],
        (9, Place::Ones) => seq!["きゅう"@, "ここの"@],
        (9, Place::Tens) => seq!["きゅうじゅう"@],
        (9, Place::Hundreds) => seq!["きゅうひゃく"@],
        (9, Place::Thousands) => seq!["きゅうせん"@],
        (9, Place::TenThousands) => seq!["きゅうまん"@],
        (9, Place::HundredMillions) => seq!["きゅうまん"@],
        _ => seq![],
    }
}

/// The readings of `digit` when `numbers_left` digits follow it; none for any other character.
pub open spec fn digit_readings_of(digit: char, numbers_left: nat) -> Seq<Seq<char>> {
    match digit_value(digit) {
        Some(value) => place_readings(value, place_of(numbers_left)),
        None => seq![],
    }
}

/// The texts of a table of readings.
pub open spec fn reading_texts(table: Seq<&'static str>) -> Seq<Seq<char>> {
    table.map_values(|reading: &'static str| reading@)
}

/// Gets the readings that a digit can take, from the digit itself and from the number of
/// digits that follow it in the number.
pub fn digit_readings(digit: char, numbers_left: usize) -> (table: &'static [&'static str])
    ensures
        reading_texts(table@) == digit_readings_of(digit, numbers_left as nat),
{
    let table: &'static [&'static str] = match digit {
        '0' | '０' => &["ぜろ", "れい"],
        '1' | '１' => {
            if numbers_left == 0 {
                &["いち", "ひと"]
            } else if numbers_left % 8 == 0 {
                &["おく", "いちおく"]
            } else if (numbers_left - 1) % 4 == 3 {
                &["まん", "いちまん"]
            } else if (numbers_left - 1) % 4 == 2 {
                &["せん", "いっせん"]
            } else if (numbers_left - 1) % 4 == 1 {
                &["ひゃく", "いっぴゃく"]
            } else {
                &["じゅう"]
            }
        },
        '2' | '２' => {
            if numbers_left == 0 {
                &["に", "ふた"]
            } else if numbers_left % 8 == 0 {
                &["におく"]
            } else if (numbers_left - 1) % 4 == 3 {
                &["にまん"]
            } else if (numbers_left - 1) % 4 == 2 {
                &["にせん"]
            } else if (numbers_left - 1) % 4 == 1 {
                &["にひゃく"]
            } else {
                &["にじゅう"]
            }
        },
        '3' | '３' => {
            if numbers_left == 0 {
                &["さん", "むっ"]
            } else if numbers_left % 8 == 0 {
                &["さんおく"]
            } else if (numbers_left - 1) % 4 == 3 {
                &["さんまん"]
            } else if (numbers_left - 1) % 4 == 2 {
                &["さんぜん"]
            } else if (numbers_left - 1) % 4 == 1 {
                &["さんびゃく"]
            } else {
                &["さんじゅう"]
            }
        },
        '4' | '４' => {
            if numbers_left == 0 {
                &["し", "よん", "よっ", "よ"]
            } else if numbers_left % 8 == 0 {
                &["よんおく"]
            } else if (numbers_left - 1) % 4 == 3 {
                &["しまん", "よんまん"]
            } else if (numbers_left - 1) % 4 == 2 {
                &["しせん", "よんせん"]
            } else if (numbers_left - 1) % 4 == 1 {
                &["しひゃく", "よんひゃく"]
            } else {
                &["しじゅう", "よんじゅう"]
            }
        },
        '5' | '５' => {
            if numbers_left == 0 {
                &["ご", "いつ"]
            } else if numbers_left % 8 == 0 {
                &["ごおく"]
            } else if (numbers_left - 1) % 4 == 3 {
                &["ごまん"]
            } else if (numbers_left - 1) % 4 == 2 {
                &["ごせん"]
            } else if (numbers_left - 1) % 4 == 1 {
                &["ごひゃく"]
            } else {
                &["ごじゅう"]
            }
        },
        '6' | '６' => {
            if numbers_left == 0 {
                &["ろく", "むっ"]
            } else if numbers_left % 8 == 0 {
                &["ろくおく"]
            } else if (numbers_left - 1) % 4 == 3 {
                &["ろくまん"]
            } else if (numbers_left - 1) % 4 == 2 {
                &["ろくせん"]
            } else if (numbers_left - 1) % 4 == 1 {
                &["ろっぴゃく"]
            } else {
                &["ろくじゅう"]
            }
        },
        '7' | '７' => {
            if numbers_left == 0 {
                &["しち", "なな"]
            } else if numbers_left % 8 == 0 {
                &["ななおく"]
            } else if (numbers_left - 1) % 4 == 3 {
                &["しちまん", "ななまん"]
            } else if (numbers_left - 1) % 4 == 2 {
                &["しちせん", "ななせん"]
            } else if (numbers_left - 1) % 4 == 1 {
                &["しちひゃく", "ななひゃく"]
            } else {
                &["しちじゅう", "ななじゅう"]
            }
        },
        '8' | '８' => {
            if numbers_left == 0 {
                &["はち", "やっ", "はっ"]
            } else if (numbers_left - 1) % 4 == 3 {
                &["はちまん"]
            } else if (numbers_left - 1) % 4 == 2 {
                &["はっせん"]
            } else if (numbers_left - 1) % 4 == 1 {
                &["はっぴゃく"]
            } else {
                &["はちじゅう"]
            }
        },
        '9' | '９' => {
            if numbers_left == 0 {
                &["きゅう", "ここの"]
            } else if (numbers_left - 1) % 4 == 3 {
                &["きゅうまん"]
            } else if (numbers_left - 1) % 4 == 2 {
                &["きゅうせん"]
            } else if (numbers_left - 1) % 4 == 1 {
                &["きゅうひゃく"]
            } else {
                &["きゅうじゅう"]
            }
        },
        _ => &[],
    };
    assert(reading_texts(table@) =~= digit_readings_of(digit, numbers_left as nat));
    table
}

} // verus!
