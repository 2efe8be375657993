//! The matcher: every way to hand the characters of a reading out over the segments of a word.

use std::collections::HashMap;
use vstd::prelude::*;
use vstd::slice::slice_subrange;
use vstd::string::StrSliceExecFns;
use crate::chars::{chars_of, skip_chars, starts_with, take_chars};
use crate::equivalence::{
    check_kanji_accuracy, grade, kana_equivalent_chars, kana_equivalent_spec, reading_list,
};
use crate::furigana::{forest_view, lemma_extensions_view, FuriganaNode, KanjiAccuracy, NodeView};
use crate::segmentation::{segment_views, Segment, SegmentKind, SegmentView};
use crate::utils::{digit_readings, digit_readings_of, is_zero_digit, reading_texts};

verus! {

/// Known readings: from a kanji to the readings that a dictionary lists for it.
pub type Dictionary = Map<Seq<char>, Seq<Seq<char>>>;

/// What a table of known readings holds, if there is one.
pub open spec fn dictionary_view(
    kanji_to_readings: Option<&HashMap<String, Vec<String>>>,
) -> Option<Dictionary> {
    match kanji_to_readings {
        Some(table) => Some(table.deep_view()),
        None => None,
    }
}

/// The text of a kanji, if there is one.
pub open spec fn kanji_text(kanji: Option<&str>) -> Option<Seq<char>> {
    match kanji {
        Some(kanji) => Some(kanji@),
        None => None,
    }
}

/// The readings that the dictionary lists for a kanji; none without a dictionary, a kanji or
/// an entry.
pub open spec fn listed_readings(dictionary: Option<Dictionary>, kanji: Option<Seq<char>>) -> Option<
    Seq<Seq<char>>,
> {
    match (dictionary, kanji) {
        (Some(dictionary), Some(kanji)) => if dictionary.contains_key(kanji) {
            Some(dictionary[kanji])
        } else {
            None
        },
        _ => None,
    }
}

/// The first kanji of the word that is read as a whole.
pub open spec fn idiom_head() -> Seq<char> {
    seq!['大']
}

/// The second kanji of the word that is read as a whole.
pub open spec fn idiom_tail() -> Seq<char> {
    seq!['人']
}

/// The word that is read as a whole.
pub open spec fn idiom() -> Seq<char> {
    seq!['大', '人']
}

/// How the word that is read as a whole is read.
pub open spec fn idiom_reading() -> Seq<char> {
    seq!['お', 'と', 'な']
}

/// Ten, in half-width digits.
pub open spec fn ten_halfwidth() -> Seq<char> {
    seq!['1', '0']
}

/// Ten, in full-width digits.
pub open spec fn ten_fullwidth() -> Seq<char> {
    seq!['１', '０']
}

/// The native reading of ten.
pub open spec fn ten_reading() -> Seq<char> {
    seq!['と', 'お']
}

/// The one reading of the counter mark.
pub open spec fn counter_reading() -> char {
    'か'
}

/// How a letter is spelled out, whatever its case and width.
pub open spec fn letter_spelling(letter: char) -> Option<Seq<char>> {
    match letter {
        'A' | 'a' | 'Ａ' | 'ａ' => Some("エー"@),
        'B' | 'b' | 'Ｂ' | 'ｂ' => Some("ビー"@),
        'C' | 'c' | 'Ｃ' | 'ｃ' => Some("シー"@),
        'D' | 'd' | 'Ｄ' | 'ｄ' => Some("ディー"@),
        'E' | 'e' | 'Ｅ' | 'ｅ' => Some("イー"@),
        'F' | 'f' | 'Ｆ' | 'ｆ' => Some("エフ"@),
        'G' | 'g' | 'Ｇ' | 'ｇ' => Some("ギー"@),
        'H' | 'h' | 'Ｈ' | 'ｈ' => Some("エイチ"@),
        'I' | 'i' | 'Ｉ' | 'ｉ' => Some("アイ"@),
        'J' | 'j' | 'Ｊ' | 'ｊ' => Some("ジェー"@),
        'K' | 'k' | 'Ｋ' | 'ｋ' => Some("ケー"@),
        'L' | 'l' | 'Ｌ' | 'ｌ' => Some("エル"@),
        'M' | 'm' | 'Ｍ' | 'ｍ' => Some("エム"@),
        'N' | 'n' | 'Ｎ' | 'ｎ' => Some("エヌ"@),
        'O' | 'o' | 'Ｏ' | 'ｏ' => Some("オー"@),
        'P' | 'p' | 'Ｐ' | 'ｐ' => Some("ピー"@),
        'Q' | 'q' | 'Ｑ' | 'ｑ' => Some("キュー"@),
        'R' | 'r' | 'Ｒ' | 'ｒ' => Some("アール"@),
        'S' | 's' | 'Ｓ' | 'ｓ' => Some("エス"@),
        'T' | 't' | 'Ｔ' | 'ｔ' => Some("ティー"@),
        'U' | 'u' | 'Ｕ' | 'ｕ' => Some("ユー"@),
        'V' | 'v' | 'Ｖ' | 'ｖ' => Some("ブイ"@),
        'W' | 'w' | 'Ｗ' | 'ｗ' => Some("ダブルユー"@),
        'X' | 'x' | 'Ｘ' | 'ｘ' => Some("エックス"@),
        'Y' | 'y' | 'Ｙ' | 'ｙ' => Some("ワイ"@),
        'Z' | 'z' | 'Ｚ' | 'ｚ' => Some("ゼット"@),
        _ => None,
    }
}

/// Every spelling of a letter has at least one character.
pub proof fn lemma_letter_spelling_not_empty(letter: char)
    ensures
        letter_spelling(letter) matches Some(spelling) ==> spelling.len() > 0,
{
    reveal_strlit("エー");
    reveal_strlit("ビー");
    reveal_strlit("シー");
    reveal_strlit("ディー");
    reveal_strlit("イー");
    reveal_strlit("エフ");
    reveal_strlit("ギー");
    reveal_strlit("エイチ");
    reveal_strlit("アイ");
    reveal_strlit("ジェー");
    reveal_strlit("ケー");
    reveal_strlit("エル");
    reveal_strlit("エム");
    reveal_strlit("エヌ");
    reveal_strlit("オー");
    reveal_strlit("ピー");
    reveal_strlit("キュー");
    reveal_strlit("アール");
    reveal_strlit("エス");
    reveal_strlit("ティー");
    reveal_strlit("ユー");
    reveal_strlit("ブイ");
    reveal_strlit("ダブルユー");
    reveal_strlit("エックス");
    reveal_strlit("ワイ");
    reveal_strlit("ゼット");
}

/// The lengths `1` to `count`, in rising order.
pub open spec fn prefix_lengths(count: nat) -> Seq<int> {
    Seq::new(count, |i: int| i + 1)
}

/// For each of `readings` that `text` begins with, in order, `base` plus its length.
pub open spec fn matching_lengths(readings: Seq<Seq<char>>, text: Seq<char>, base: int) -> Seq<int>
    decreases readings.len(),
{
    if readings.len() == 0 {
        Seq::empty()
    } else {
        let earlier = matching_lengths(readings.drop_last(), text, base);
        if readings.last().is_prefix_of(text) {
            earlier.push(base + readings.last().len())
        } else {
            earlier
        }
    }
}

/// The ways to go on from a candidate that covers `candidate` characters of `reading`, over a
/// digit with the given readings: each reading that comes next; or, where none does, the
/// candidate itself if the digit is a zero, which may stay silent.
pub open spec fn extend_candidate(
    candidate: int,
    digit: char,
    readings: Seq<Seq<char>>,
    reading: Seq<char>,
) -> Seq<int> {
    let found = matching_lengths(readings, reading.skip(candidate), candidate);
    if found.len() > 0 {
        found
    } else if is_zero_digit(digit) {
        seq![candidate]
    } else {
        Seq::empty()
    }
}

/// The ways to go on from each of `candidates`, in order.
pub open spec fn extend_candidates(
    candidates: Seq<int>,
    digit: char,
    readings: Seq<Seq<char>>,
    reading: Seq<char>,
) -> Seq<int>
    decreases candidates.len(),
{
    if candidates.len() == 0 {
        Seq::empty()
    } else {
        extend_candidates(candidates.drop_last(), digit, readings, reading) + extend_candidate(
            candidates.last(),
            digit,
            readings,
            reading,
        )
    }
}

/// How many characters of `reading` the first `digits` digits of `number` can be read with:
/// every candidate, in the order in which the digits' readings produce them. Before the first
/// digit the one candidate is to have read nothing; each digit then extends every candidate.
pub open spec fn number_candidates(number: Seq<char>, reading: Seq<char>, digits: nat) -> Seq<int>
    decreases digits,
{
    if digits == 0 {
        seq![0int]
    } else if digits > number.len() {
        Seq::empty()
    } else {
        extend_candidates(
            number_candidates(number, reading, (digits - 1) as nat),
            number[digits - 1],
            digit_readings_of(number[digits - 1], (number.len() - digits) as nat),
            reading,
        )
    }
}

/// The one alignment that gives `reading` to `segment` and goes on as `continuation` says;
/// none where nothing can follow.
pub open spec fn single(
    segment: SegmentView,
    reading: Seq<char>,
    kanji_accurate: Option<KanjiAccuracy>,
    continuation: Option<Seq<NodeView>>,
) -> Option<Seq<NodeView>> {
    match continuation {
        Some(extensions) => Some(seq![NodeView { segment, reading, extensions, kanji_accurate }]),
        None => None,
    }
}

/// A list of alignments, or none where the list is empty.
pub open spec fn nonempty(nodes: Seq<NodeView>) -> Option<Seq<NodeView>> {
    if nodes.len() == 0 {
        None
    } else {
        Some(nodes)
    }
}

/// The alignments that give the first segment one of the first `upto` of `lengths` as the
/// number of characters it takes from the reading: those after which the rest of the segments
/// can be aligned with the rest of the reading, in the order of `lengths`. A segment takes at
/// least one character. With a `kanji`, the reading taken is graded against that kanji's listed
/// readings, and the kanji is handed on as the one before what follows; without one there is
/// no grade.
pub open spec fn candidate_nodes(
    segments: Seq<SegmentView>,
    reading: Seq<char>,
    dictionary: Option<Dictionary>,
    lengths: Seq<int>,
    upto: nat,
    kanji: Option<Seq<char>>,
    can_be_rendaku: bool,
) -> Seq<NodeView>
    decreases segments.len(), 0nat, upto,
{
    if upto == 0 || upto > lengths.len() || segments.len() == 0 {
        Seq::empty()
    } else {
        let earlier = candidate_nodes(
            segments,
            reading,
            dictionary,
            lengths,
            (upto - 1) as nat,
            kanji,
            can_be_rendaku,
        );
        let count = lengths[upto - 1];
        if 1 <= count <= reading.len() {
            match alignments(segments.skip(1), reading.skip(count), dictionary, kanji, kanji is Some) {
                Some(extensions) => earlier.push(
                    NodeView {
                        segment: segments[0],
                        reading: reading.take(count),
                        extensions,
                        kanji_accurate: grade(
                            listed_readings(dictionary, kanji),
                            reading.take(count),
                            can_be_rendaku,
                            segments.len() > 1,
                        ),
                    },
                ),
                None => earlier,
            }
        } else {
            earlier
        }
    }
}

/// Every way to align `segments` with `reading`, as a list of alternatives for the first
/// segment, each with its own alternatives for what follows; none where there is no way.
///
/// `previous_kanji` is the kanji that a repeat mark would repeat; `can_be_rendaku` says
/// whether the first consonant of the next kanji may be voiced.
pub open spec fn alignments(
    segments: Seq<SegmentView>,
    reading: Seq<char>,
    dictionary: Option<Dictionary>,
    previous_kanji: Option<Seq<char>>,
    can_be_rendaku: bool,
) -> Option<Seq<NodeView>>
    decreases segments.len(), 1nat, 0nat,
{
    if segments.len() == 0 {
        // out of segments: the reading must be used up too
        if reading.len() == 0 {
            Some(Seq::empty())
        } else {
            None
        }
    } else {
        let segment = segments[0];
        let rest = segments.skip(1);
        match segment.kind {
            SegmentKind::Kana => {
                let count = segment.text.len() as int;
                if count <= reading.len() && kana_equivalent_spec(reading.take(count), segment.text) {
                    single(
                        segment,
                        reading.take(count),
                        None,
                        alignments(rest, reading.skip(count), dictionary, None, true),
                    )
                } else {
                    None
                }
            },
            SegmentKind::Kanji => {
                if segment.text == idiom_head() && idiom_reading().is_prefix_of(reading) {
                    if rest.len() > 0 && rest[0].kind == SegmentKind::Kanji && rest[0].text
                        == idiom_tail() {
                        single(
                            SegmentView { kind: SegmentKind::Kanji, text: idiom() },
                            reading.take(idiom_reading().len() as int),
                            Some(KanjiAccuracy::Accurate),
                            alignments(
                                rest.skip(1),
                                reading.skip(idiom_reading().len() as int),
                                dictionary,
                                None,
                                true,
                            ),
                        )
                    } else {
                        None
                    }
                } else {
                    nonempty(
                        candidate_nodes(
                            segments,
                            reading,
                            dictionary,
                            prefix_lengths(reading.len()),
                            reading.len(),
                            Some(segment.text),
                            can_be_rendaku,
                        ),
                    )
                }
            },
            SegmentKind::Alphabetic => {
                if segment.text.len() == 1 && letter_spelling(segment.text[0]) is Some {
                    let spelling = letter_spelling(segment.text[0])->0;
                    let count = spelling.len() as int;
                    if count <= reading.len() && kana_equivalent_spec(reading.take(count), spelling) {
                        single(
                            segment,
                            reading.take(count),
                            None,
                            alignments(rest, reading.skip(count), dictionary, None, true),
                        )
                    } else {
                        None
                    }
                } else {
                    None
                }
            },
            SegmentKind::Numeric => {
                if (segment.text == ten_halfwidth() || segment.text == ten_fullwidth())
                    && ten_reading().is_prefix_of(reading) {
                    single(
                        segment,
                        reading.take(ten_reading().len() as int),
                        Some(KanjiAccuracy::Accurate),
                        alignments(
                            rest,
                            reading.skip(ten_reading().len() as int),
                            dictionary,
                            None,
                            false,
                        ),
                    )
                } else {
                    let lengths = number_candidates(segment.text, reading, segment.text.len());
                    nonempty(
                        candidate_nodes(
                            segments,
                            reading,
                            dictionary,
                            lengths,
                            lengths.len(),
                            None,
                            false,
                        ),
                    )
                }
            },
            SegmentKind::Exception => {
                if segment.text == seq![crate::segmentation::counter_mark()] && reading.len() >= 1
                    && reading[0] == counter_reading() {
                    single(
                        segment,
                        reading.take(1),
                        None,
                        alignments(rest, reading.skip(1), dictionary, previous_kanji, can_be_rendaku),
                    )
                } else {
                    None
                }
            },
            SegmentKind::Other => {
                if segment.text == seq![crate::segmentation::repeat_mark()] && previous_kanji is Some {
                    nonempty(
                        candidate_nodes(
                            segments,
                            reading,
                            dictionary,
                            prefix_lengths(reading.len()),
                            reading.len(),
                            previous_kanji,
                            can_be_rendaku,
                        ),
                    )
                } else {
                    None
                }
            },
        }
    }
}

/// The view of what the matcher hands back.
pub open spec fn outcome_view(nodes: Option<Vec<FuriganaNode>>) -> Option<Seq<NodeView>> {
    match nodes {
        Some(nodes) => Some(forest_view(nodes@)),
        None => None,
    }
}

/// The candidate lengths that a list of machine integers stands for.
pub open spec fn lengths_view(lengths: Seq<usize>) -> Seq<int> {
    lengths.map_values(|length: usize| length as int)
}

/// Looks a kanji up with `HashMap::get` of the standard library. The contract reads the table
/// as a map from texts to lists of texts: an entry comes back exactly when the table holds the
/// kanji, and it is the entry stored under it.
#[verifier::external_body]
fn lookup_readings<'m>(table: &'m HashMap<String, Vec<String>>, kanji: &str) -> (entry: Option<
    &'m Vec<String>,
>)
    ensures
        match entry {
            Some(readings) => table.deep_view().contains_key(kanji@) && table.deep_view()[kanji@]
                == readings.deep_view(),
            None => !table.deep_view().contains_key(kanji@),
        },
{
    table.get(kanji)
}

/// The texts of an entry of the table, if there is one.
pub open spec fn entry_view(entry: Option<&[String]>) -> Option<Seq<Seq<char>>> {
    match entry {
        Some(readings) => Some(reading_list(readings@)),
        None => None,
    }
}

/// Gets the valid readings for a kanji, if a table was provided and lists the kanji.
pub fn kanji_readings<'m>(
    kanji_to_readings: Option<&'m HashMap<String, Vec<String>>>,
    kanji: Option<&str>,
) -> (entry: Option<&'m [String]>)
    ensures
        entry_view(entry) == listed_readings(dictionary_view(kanji_to_readings), kanji_text(kanji)),
{
    match (kanji_to_readings, kanji) {
        (Some(table), Some(kanji)) => match lookup_readings(table, kanji) {
            Some(readings) => {
                assert(readings.deep_view() =~= reading_list(readings@));
                Some(readings.as_slice())
            },
            None => None,
        },
        _ => None,
    }
}

/// The text of a spelling, if there is one.
pub open spec fn spelling_view(spelling: Option<&'static str>) -> Option<Seq<char>> {
    match spelling {
        Some(spelling) => Some(spelling@),
        None => None,
    }
}

/// Gets the one approved spelling of a letter.
pub fn letter_reading(letter: char) -> (spelling: Option<&'static str>)
    ensures
        spelling_view(spelling) == letter_spelling(letter),
{
    match letter {
        'A' | 'a' | 'Ａ' | 'ａ' => Some("エー"),
        'B' | 'b' | 'Ｂ' | 'ｂ' => Some("ビー"),
        'C' | 'c' | 'Ｃ' | 'ｃ' => Some("シー"),
        'D' | 'd' | 'Ｄ' | 'ｄ' => Some("ディー"),
        'E' | 'e' | 'Ｅ' | 'ｅ' => Some("イー"),
        'F' | 'f' | 'Ｆ' | 'ｆ' => Some("エフ"),
        'G' | 'g' | 'Ｇ' | 'ｇ' => Some("ギー"),
        'H' | 'h' | 'Ｈ' | 'ｈ' => Some("エイチ"),
        'I' | 'i' | 'Ｉ' | 'ｉ' => Some("アイ"),
        'J' | 'j' | 'Ｊ' | 'ｊ' => Some("ジェー"),
        'K' | 'k' | 'Ｋ' | 'ｋ' => Some("ケー"),
        'L' | 'l' | 'Ｌ' | 'ｌ' => Some("エル"),
        'M' | 'm' | 'Ｍ' | 'ｍ' => Some("エム"),
        'N' | 'n' | 'Ｎ' | 'ｎ' => Some("エヌ"),
        'O' | 'o' | 'Ｏ' | 'ｏ' => Some("オー"),
        'P' | 'p' | 'Ｐ' | 'ｐ' => Some("ピー"),
        'Q' | 'q' | 'Ｑ' | 'ｑ' => Some("キュー"),
        'R' | 'r' | 'Ｒ' | 'ｒ' => Some("アール"),
        'S' | 's' | 'Ｓ' | 'ｓ' => Some("エス"),
        'T' | 't' | 'Ｔ' | 'ｔ' => Some("ティー"),
        'U' | 'u' | 'Ｕ' | 'ｕ' => Some("ユー"),
        'V' | 'v' | 'Ｖ' | 'ｖ' => Some("ブイ"),
        'W' | 'w' | 'Ｗ' | 'ｗ' => Some("ダブルユー"),
        'X' | 'x' | 'Ｘ' | 'ｘ' => Some("エックス"),
        'Y' | 'y' | 'Ｙ' | 'ｙ' => Some("ワイ"),
        'Z' | 'z' | 'Ｚ' | 'ｚ' => Some("ゼット"),
        _ => None,
    }
}

/// Finds the readings of a digit that come next in the reading after `base` characters.
pub fn find_matching_lengths(readings: &[&'static str], reading: &[char], base: usize) -> (found: Vec<
    usize,
>)
    requires
        base <= reading@.len(),
    ensures
        lengths_view(found@) == matching_lengths(
            reading_texts(readings@),
            reading@.skip(base as int),
            base as int,
        ),
        forall|i: int| 0 <= i < found@.len() ==> found@[i] <= reading@.len(),
{
    let text = skip_chars(reading, base);
    let total: usize = reading.len();
    let ghost texts = reading_texts(readings@);
    let mut found: Vec<usize> = Vec::new();
    let mut i: usize = 0;
    while i < readings.len()
        invariant
            i <= readings.len(),
            base <= reading@.len(),
            total == reading@.len(),
            text@ == reading@.skip(base as int),
            texts == reading_texts(readings@),
            lengths_view(found@) == matching_lengths(texts.take(i as int), text@, base as int),
            forall|j: int| 0 <= j < found@.len() ==> found@[j] <= reading@.len(),
        decreases readings.len() - i,
    {
        let spelled = chars_of(readings[i]);
        proof {
            assert(texts.take(i + 1).drop_last() =~= texts.take(i as int));
            assert(texts.take(i + 1).last() == spelled@);
        }
        if starts_with(text, spelled.as_slice()) {
            assert(spelled@.len() <= text@.len());
            let length: usize = base + spelled.len();
            assert(lengths_view(found@.push(length)) =~= lengths_view(found@).push(length as int));
            found.push(length);
        }
        i += 1;
    }
    assert(texts.take(readings.len() as int) =~= texts);
    found
}

/// Tacks each reading of a digit that comes next onto each candidate so far.
pub fn extend_all_candidates(
    candidates: &Vec<usize>,
    digit: char,
    readings: &[&'static str],
    reading: &[char],
) -> (extended: Vec<usize>)
    requires
        forall|i: int| 0 <= i < candidates@.len() ==> candidates@[i] <= reading@.len(),
    ensures
        lengths_view(extended@) == extend_candidates(
            lengths_view(candidates@),
            digit,
            reading_texts(readings@),
            reading@,
        ),
        forall|i: int| 0 <= i < extended@.len() ==> extended@[i] <= reading@.len(),
{
    let ghost before = lengths_view(candidates@);
    let ghost texts = reading_texts(readings@);
    let mut extended: Vec<usize> = Vec::new();
    let mut i: usize = 0;
    while i < candidates.len()
        invariant
            i <= candidates.len(),
            before == lengths_view(candidates@),
            texts == reading_texts(readings@),
            forall|j: int| 0 <= j < candidates@.len() ==> candidates@[j] <= reading@.len(),
            lengths_view(extended@) == extend_candidates(before.take(i as int), digit, texts, reading@),
            forall|j: int| 0 <= j < extended@.len() ==> extended@[j] <= reading@.len(),
        decreases candidates.len() - i,
    {
        let candidate: usize = candidates[i];
        let mut found = find_matching_lengths(readings, reading, candidate);
        proof {
            assert(before.take(i + 1).drop_last() =~= before.take(i as int));
            assert(before.take(i + 1).last() == candidate as int);
        }
        if found.len() > 0 {
            assert(lengths_view(extended@ + found@) =~= lengths_view(extended@) + lengths_view(
                found@,
            ));
            extended.append(&mut found);
        } else if digit == '0' || digit == '０' {
            // having no reading for zero is okay
            assert(lengths_view(extended@.push(candidate)) =~= lengths_view(extended@) + seq![
                candidate as int,
            ]);
            extended.push(candidate);
        } else {
            // else, this reading branch is invalid
            assert(lengths_view(extended@) + Seq::<int>::empty() =~= lengths_view(extended@));
        }
        i += 1;
    }
    assert(before.take(candidates.len() as int) =~= before);
    extended
}

/// Finds every way to read a number at the start of the reading, as the number of characters
/// that the reading of the number takes up.
pub fn find_number_candidates(number: &[char], reading: &[char]) -> (candidates: Vec<usize>)
    ensures
        lengths_view(candidates@) == number_candidates(number@, reading@, number@.len()),
        forall|i: int| 0 <= i < candidates@.len() ==> candidates@[i] <= reading@.len(),
{
    let mut candidates: Vec<usize> = Vec::new();
    candidates.push(0);
    let mut i: usize = 0;
    assert(lengths_view(candidates@) =~= number_candidates(number@, reading@, 0));
    while i < number.len()
        invariant
            i <= number.len(),
            lengths_view(candidates@) == number_candidates(number@, reading@, i as nat),
            forall|j: int| 0 <= j < candidates@.len() ==> candidates@[j] <= reading@.len(),
        decreases number.len() - i,
    {
        let digit = number[i];
        let numbers_left: usize = number.len() - 1 - i;
        let digit_readings = digit_readings(digit, numbers_left);
        // tack each potential reading for this digit onto each potential reading for the
        // preceding digit sequence
        candidates = extend_all_candidates(&candidates, digit, digit_readings, reading);
        i += 1;
    }
    candidates
}

/// Wraps the one alignment of a segment whose reading is settled.
pub fn single_node<'a>(
    segment: Segment<'a>,
    reading: &'a str,
    kanji_accurate: Option<KanjiAccuracy>,
    continuation: Option<Vec<FuriganaNode<'a>>>,
) -> (nodes: Option<Vec<FuriganaNode<'a>>>)
    ensures
        outcome_view(nodes) == single(segment@, reading@, kanji_accurate, outcome_view(continuation)),
{
    match continuation {
        Some(extensions) => {
            let node = FuriganaNode { segment, reading, extensions, kanji_accurate };
            proof {
                lemma_extensions_view(node);
            }
            let mut nodes: Vec<FuriganaNode<'a>> = Vec::new();
            nodes.push(node);
            assert(forest_view(nodes@) =~= seq![node@]);
            Some(nodes)
        },
        None => None,
    }
}

/// Tries each candidate length for the first segment and keeps those after which the rest can
/// be mapped.
pub fn collect_candidates<'a>(
    segments: &[Segment<'a>],
    reading: &'a str,
    kanji_to_readings: Option<&HashMap<String, Vec<String>>>,
    lengths: &Vec<usize>,
    kanji: Option<&'a str>,
    can_be_rendaku: bool,
) -> (nodes: Vec<FuriganaNode<'a>>)
    requires
        segments@.len() > 0,
        forall|i: int| 0 <= i < lengths@.len() ==> lengths@[i] <= reading@.len(),
    ensures
        forest_view(nodes@) == candidate_nodes(
            segment_views(segments@),
            reading@,
            dictionary_view(kanji_to_readings),
            lengths_view(lengths@),
            lengths@.len(),
            kanji_text(kanji),
            can_be_rendaku,
        ),
    decreases segments@.len(), 0nat,
{
    let segment = segments[0];
    let segments_rest = slice_subrange(segments, 1, segments.len());
    let can_be_sokuonbin = segments_rest.len() > 0;
    let readings = kanji_readings(kanji_to_readings, kanji);
    let total: usize = reading.unicode_len();
    let ghost views = segment_views(segments@);
    let ghost dictionary = dictionary_view(kanji_to_readings);
    let ghost all = lengths_view(lengths@);
    proof {
        assert(segment_views(segments_rest@) =~= views.skip(1));
    }
    let mut nodes: Vec<FuriganaNode<'a>> = Vec::new();
    let mut i: usize = 0;
    while i < lengths.len()
        invariant
            i <= lengths.len(),
            segments@.len() > 0,
            segments_rest@.len() + 1 == segments@.len(),
            can_be_sokuonbin == (segments@.len() > 1),
            total == reading@.len(),
            views == segment_views(segments@),
            segment_views(segments_rest@) == views.skip(1),
            segment == segments@[0],
            dictionary == dictionary_view(kanji_to_readings),
            all == lengths_view(lengths@),
            entry_view(readings) == listed_readings(dictionary, kanji_text(kanji)),
            forall|j: int| 0 <= j < lengths@.len() ==> lengths@[j] <= reading@.len(),
            forest_view(nodes@) == candidate_nodes(
                views,
                reading@,
                dictionary,
                all,
                i as nat,
                kanji_text(kanji),
                can_be_rendaku,
            ),
        decreases lengths.len() - i,
    {
        let count: usize = lengths[i];
        assert(all[i as int] == count as int);
        if count >= 1 {
            let taken = reading.substring_char(0, count);
            let remaining = reading.substring_char(count, total);
            // keep recursing with the remaining segments and reading
            match map_inner(segments_rest, remaining, kanji_to_readings, kanji, kanji.is_some()) {
                Some(extensions) => {
                    let kanji_accurate = check_kanji_accuracy(
                        readings,
                        taken,
                        can_be_rendaku,
                        can_be_sokuonbin,
                    );
                    let node = FuriganaNode { segment, reading: taken, extensions, kanji_accurate };
                    proof {
                        lemma_extensions_view(node);
                        assert(forest_view(nodes@.push(node)) =~= forest_view(nodes@).push(node@));
                    }
                    nodes.push(node);
                },
                None => {},
            }
        }
        i += 1;
    }
    nodes
}

/// A list of nodes, or `None` where no valid continuation was found.
pub fn some_if_nonempty<'a>(nodes: Vec<FuriganaNode<'a>>) -> (outcome: Option<Vec<FuriganaNode<'a>>>)
    ensures
        outcome_view(outcome) == nonempty(forest_view(nodes@)),
{
    if nodes.len() == 0 {
        None
    } else {
        Some(nodes)
    }
}

/// The lengths `1` to `count`.
pub fn all_prefix_lengths(count: usize) -> (lengths: Vec<usize>)
    ensures
        lengths_view(lengths@) == prefix_lengths(count as nat),
        forall|i: int| 0 <= i < lengths@.len() ==> lengths@[i] <= count,
{
    let mut lengths: Vec<usize> = Vec::new();
    let mut i: usize = 0;
    while i < count
        invariant
            i <= count,
            lengths@.len() == i,
            forall|j: int| 0 <= j < i ==> lengths@[j] == j + 1,
        decreases count - i,
    {
        lengths.push(i + 1);
        i += 1;
    }
    assert(lengths_view(lengths@) =~= prefix_lengths(count as nat));
    lengths
}

/// Recursive function that explores different branches of ways to assign the reading to the
/// text. Short-circuits by returning `None` on invalid mappings.
pub fn map_inner<'a>(
    // the remaining segments
    segments_rest: &[Segment<'a>],
    // the remaining reading
    reading_rest: &'a str,
    // mapping from kanji to its valid readings
    kanji_to_readings: Option<&HashMap<String, Vec<String>>>,
    // the previous kanji character, if any
    previous_kanji: Option<&'a str>,
    // indicates that if the next segment is a kanji,
    // its reading may be affected by rendaku
    // this is true when the previous segment is kana or kanji
    can_be_rendaku: bool,
) -> (nodes: Option<Vec<FuriganaNode<'a>>>)
    ensures
        outcome_view(nodes) == alignments(
            segment_views(segments_rest@),
            reading_rest@,
            dictionary_view(kanji_to_readings),
            kanji_text(previous_kanji),
            can_be_rendaku,
        ),
    decreases segments_rest@.len(), 1nat,
{
    let reading = chars_of(reading_rest);
    let total: usize = reading.len();
    if segments_rest.len() == 0 {
        // out of segments
        if total == 0 {
            // valid: out of input
            let nodes: Vec<FuriganaNode<'a>> = Vec::new();
            assert(forest_view(nodes@) =~= Seq::<NodeView>::empty());
            return Some(nodes);
        } else {
            // invalid: remaining readings can't be mapped to anything
            return None;
        }
    }
    let segment = segments_rest[0];
    let rest = slice_subrange(segments_rest, 1, segments_rest.len());
    let ghost views = segment_views(segments_rest@);
    proof {
        assert(segment_views(rest@) =~= views.skip(1));
        assert(views[0] == segment@);
    }
    match segment {
        Segment::Kana(kana) => {
            let kana_chars = chars_of(kana);
            let count: usize = kana_chars.len();
            // try to get matching kana from reading
            if count > total {
                return None;
            }
            if !kana_equivalent_chars(take_chars(reading.as_slice(), count), kana_chars.as_slice()) {
                // invalid mapping: segment and reading don't match
                return None;
            }
            let taken = reading_rest.substring_char(0, count);
            let remaining = reading_rest.substring_char(count, total);
            let extensions = map_inner(rest, remaining, kanji_to_readings, None, true);
            single_node(segment, taken, None, extensions)
        },
        Segment::Kanji(kanji) => {
            let kanji_chars = chars_of(kanji);
            // special casing...
            let idiom_reading: &[char] = &['お', 'と', 'な'];
            assert(idiom_reading@ =~= crate::matcher::idiom_reading());
            if is_single(kanji_chars.as_slice(), '大') && starts_with(reading.as_slice(), idiom_reading) {
                if rest.len() > 0 {
                    if let Segment::Kanji(next) = rest[0] {
                        let next_chars = chars_of(next);
                        if is_single(next_chars.as_slice(), '人') {
                            let after = slice_subrange(rest, 1, rest.len());
                            proof {
                                assert(segment_views(after@) =~= views.skip(1).skip(1));
                                reveal_strlit("大人");
                                assert("大人"@ =~= idiom());
                            }
                            let taken = reading_rest.substring_char(0, 3);
                            let remaining = reading_rest.substring_char(3, total);
                            let extensions = map_inner(
                                after,
                                remaining,
                                kanji_to_readings,
                                None,
                                true,
                            );
                            return single_node(
                                Segment::Kanji("大人"),
                                taken,
                                Some(KanjiAccuracy::Accurate),
                                extensions,
                            );
                        }
                    }
                }
                return None;
            }
            // try to use up varying lengths of the remaining reading
            let lengths = all_prefix_lengths(total);
            let nodes = collect_candidates(
                segments_rest,
                reading_rest,
                kanji_to_readings,
                &lengths,
                Some(kanji),
                can_be_rendaku,
            );
            some_if_nonempty(nodes)
        },
        Segment::Alphabetic(alpha) => {
            let alpha_chars = chars_of(alpha);
            if alpha_chars.len() != 1 {
                return None;
            }
            let alpha_reading = match letter_reading(alpha_chars[0]) {
                Some(spelling) => spelling,
                None => {
                    return None;
                },
            };
            let spelled = chars_of(alpha_reading);
            let count: usize = spelled.len();
            // check if the letter's reading and the next section of the reading are kana
            // equivalent
            if count > total {
                return None;
            }
            if kana_equivalent_chars(take_chars(reading.as_slice(), count), spelled.as_slice()) {
                let taken = reading_rest.substring_char(0, count);
                let remaining = reading_rest.substring_char(count, total);
                let extensions = map_inner(rest, remaining, kanji_to_readings, None, true);
                return single_node(segment, taken, None, extensions);
            }
            None
        },
        Segment::Numeric(number) => {
            let number_chars = chars_of(number);
            let ten_reading: &[char] = &['と', 'お'];
            assert(ten_reading@ =~= crate::matcher::ten_reading());
            if (is_pair(number_chars.as_slice(), '1', '0') || is_pair(
                number_chars.as_slice(),
                '１',
                '０',
            )) && starts_with(reading.as_slice(), ten_reading) {
                // special casing とお for １０
                let taken = reading_rest.substring_char(0, 2);
                let remaining = reading_rest.substring_char(2, total);
                let extensions = map_inner(rest, remaining, kanji_to_readings, None, false);
                return single_node(segment, taken, Some(KanjiAccuracy::Accurate), extensions);
            }
            let lengths = find_number_candidates(number_chars.as_slice(), reading.as_slice());
            // for all the readings we found, recurse
            let nodes = collect_candidates(
                segments_rest,
                reading_rest,
                kanji_to_readings,
                &lengths,
                None,
                false,
            );
            some_if_nonempty(nodes)
        },
        Segment::Exception(exception) => {
            let exception_chars = chars_of(exception);
            // ヶ is a special case that is always read as か
            if is_single(exception_chars.as_slice(), 'ヶ') && total >= 1 && reading[0] == 'か' {
                let taken = reading_rest.substring_char(0, 1);
                let remaining = reading_rest.substring_char(1, total);
                let extensions = map_inner(
                    rest,
                    remaining,
                    kanji_to_readings,
                    previous_kanji,
                    can_be_rendaku,
                );
                single_node(segment, taken, None, extensions)
            } else {
                None
            }
        },
        Segment::Other(other) => {
            let other_chars = chars_of(other);
            if !is_single(other_chars.as_slice(), '々') {
                return None;
            }
            match previous_kanji {
                Some(kanji) => {
                    // try matching different lengths of the reading to the word
                    let lengths = all_prefix_lengths(total);
                    let nodes = collect_candidates(
                        segments_rest,
                        reading_rest,
                        kanji_to_readings,
                        &lengths,
                        Some(kanji),
                        can_be_rendaku,
                    );
                    some_if_nonempty(nodes)
                },
                None => None,
            }
        },
    }
}

/// Whether a text is the one character `c`.
pub fn is_single(text: &[char], c: char) -> (single: bool)
    ensures
        single == (text@ == seq![c]),
{
    if text.len() == 1 && text[0] == c {
        assert(text@ =~= seq![c]);
        true
    } else {
        false
    }
}

/// Whether a text is the two characters `first` and `second`.
pub fn is_pair(text: &[char], first: char, second: char) -> (pair: bool)
    ensures
        pair == (text@ == seq![first, second]),
{
    if text.len() == 2 && text[0] == first && text[1] == second {
        assert(text@ =~= seq![first, second]);
        true
    } else {
        false
    }
}

} // verus!
