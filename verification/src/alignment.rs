//! What an alignment is, rule by rule: each piece of a mapping takes from the reading what the
//! rule for its segment allows.

use vstd::prelude::*;
use crate::equivalence::{grade, kana_equivalent_spec};
use crate::furigana::{score, FuriganaSegmentView, KanjiAccuracy};
use crate::matcher::{
    counter_reading, idiom, idiom_head, idiom_reading, idiom_tail, letter_spelling,
    listed_readings, number_candidates, ten_fullwidth, ten_halfwidth, ten_reading, Dictionary,
};
use crate::segmentation::{counter_mark, repeat_mark, SegmentKind, SegmentView};

verus! {

/// One step of an alignment: what the first piece covers and what it hands on to the rest.
pub ghost struct Step {
    /// How many segments the piece covers.
    pub covered: nat,
    /// The text of the piece.
    pub text: Seq<char>,
    /// The grade of the reading that the piece takes.
    pub kanji_accurate: Option<KanjiAccuracy>,
    /// The kanji that a repeat mark after the piece would repeat.
    pub previous_kanji: Option<Seq<char>>,
    /// Whether a kanji after the piece may have its first consonant voiced.
    pub can_be_rendaku: bool,
}

/// The step that gives the first `count` characters of `reading` to the first of `segments`,
/// where the rule for the segment allows it.
///
/// Kana take as many characters as they have, kana-equivalent to them. A kanji takes any
/// number of characters, from one on, and is graded; but the first kanji of the idiom, before
/// the idiom's reading, takes that reading together with the second kanji or nothing at all. A
/// letter takes what is kana-equivalent to its spelling. A number takes the native reading of
/// ten if it is ten and that reading comes next; else what its digits can be read with, but not
/// nothing. The counter mark takes its one reading and hands on what it was handed. The
/// repeat mark takes what a kanji may take, graded as the kanji before it. Nothing else can be
/// read.
pub open spec fn step(
    segments: Seq<SegmentView>,
    reading: Seq<char>,
    dictionary: Option<Dictionary>,
    previous_kanji: Option<Seq<char>>,
    can_be_rendaku: bool,
    count: int,
) -> Option<Step>
    recommends
        segments.len() > 0,
{
    let segment = segments[0];
    let taken = reading.take(count);
    let plain = Step {
        covered: 1,
        text: segment.text,
        kanji_accurate: None,
        previous_kanji: None,
        can_be_rendaku: true,
    };
    if !(0 <= count <= reading.len()) {
        None
    } else {
        match segment.kind {
            SegmentKind::Kana => if count == segment.text.len() && kana_equivalent_spec(
                taken,
                segment.text,
            ) {
                Some(plain)
            } else {
                None
            },
            SegmentKind::Kanji => if segment.text == idiom_head() && idiom_reading().is_prefix_of(
                reading,
            ) {
                if segments.len() > 1 && segments[1].kind == SegmentKind::Kanji && segments[1].text
                    == idiom_tail() && count == idiom_reading().len() {
                    Some(
                        Step {
                            covered: 2,
                            text: idiom(),
                            kanji_accurate: Some(KanjiAccuracy::Accurate),
                            previous_kanji: None,
                            can_be_rendaku: true,
                        },
                    )
                } else {
                    None
                }
            } else if count >= 1 {
                Some(
                    Step {
                        covered: 1,
                        text: segment.text,
                        kanji_accurate: grade(
                            listed_readings(dictionary, Some(segment.text)),
                            taken,
                            can_be_rendaku,
                            segments.len() > 1,
                        ),
                        previous_kanji: Some(segment.text),
                        can_be_rendaku: true,
                    },
                )
            } else {
                None
            },
            SegmentKind::Alphabetic => if segment.text.len() == 1 && letter_spelling(segment.text[0])
                is Some && count == letter_spelling(segment.text[0])->0.len() && kana_equivalent_spec(
                taken,
                letter_spelling(segment.text[0])->0,
            ) {
                Some(plain)
            } else {
                None
            },
            SegmentKind::Numeric => if (segment.text == ten_halfwidth() || segment.text
                == ten_fullwidth()) && ten_reading().is_prefix_of(reading) {
                if count == ten_reading().len() {
                    Some(
                        Step {
                            covered: 1,
                            text: segment.text,
                            kanji_accurate: Some(KanjiAccuracy::Accurate),
                            previous_kanji: None,
                            can_be_rendaku: false,
                        },
                    )
                } else {
                    None
                }
            } else if count >= 1 && number_candidates(
                segment.text,
                reading,
                segment.text.len(),
            ).contains(count) {
                Some(
                    Step {
                        covered: 1,
                        text: segment.text,
                        kanji_accurate: None,
                        previous_kanji: None,
                        can_be_rendaku: false,
                    },
                )
            } else {
                None
            },
            SegmentKind::Exception => if segment.text == seq![counter_mark()] && count == 1
                && reading[0] == counter_reading() {
                Some(
                    Step {
                        covered: 1,
                        text: segment.text,
                        kanji_accurate: None,
                        previous_kanji,
                        can_be_rendaku,
                    },
                )
            } else {
                None
            },
            SegmentKind::Other => if segment.text == seq![repeat_mark()] && previous_kanji is Some
                && count >= 1 {
                Some(
                    Step {
                        covered: 1,
                        text: segment.text,
                        kanji_accurate: grade(
                            listed_readings(dictionary, previous_kanji),
                            taken,
                            can_be_rendaku,
                            segments.len() > 1,
                        ),
                        previous_kanji,
                        can_be_rendaku: true,
                    },
                )
            } else {
                None
            },
        }
    }
}

/// The piece that stands for `text` read as `taken`: the reading is written over the text
/// unless the text already is that reading in kana.
pub open spec fn piece_for(text: Seq<char>, taken: Seq<char>) -> FuriganaSegmentView {
    FuriganaSegmentView {
        segment: text,
        furigana: if kana_equivalent_spec(text, taken) {
            None
        } else {
            Some(taken)
        },
    }
}

/// How many characters of the reading a piece stands for: those written over it, or as many
/// as it has itself.
pub open spec fn taken_by(piece: FuriganaSegmentView) -> int {
    match piece.furigana {
        Some(written) => written.len() as int,
        None => piece.segment.len() as int,
    }
}

/// Whether `pieces`, with the score `accuracy`, align `segments` with `reading`: piece by
/// piece, each takes from the reading what the rule for its segment allows and adds the score
/// of its grade; and segments, reading and score are used up together.
pub open spec fn aligned(
    pieces: Seq<FuriganaSegmentView>,
    accuracy: int,
    segments: Seq<SegmentView>,
    reading: Seq<char>,
    dictionary: Option<Dictionary>,
    previous_kanji: Option<Seq<char>>,
    can_be_rendaku: bool,
) -> bool
    decreases segments.len(),
{
    if segments.len() == 0 {
        pieces.len() == 0 && reading.len() == 0 && accuracy == 0
    } else if pieces.len() == 0 {
        false
    } else {
        let count = taken_by(pieces[0]);
        match step(segments, reading, dictionary, previous_kanji, can_be_rendaku, count) {
            Some(taken) => {
                &&& 1 <= taken.covered <= segments.len()
                &&& pieces[0] == piece_for(taken.text, reading.take(count))
                &&& aligned(
                    pieces.skip(1),
                    accuracy - score(taken.kanji_accurate),
                    segments.skip(taken.covered as int),
                    reading.skip(count),
                    dictionary,
                    taken.previous_kanji,
                    taken.can_be_rendaku,
                )
            },
            None => false,
        }
    }
}

} // verus!
