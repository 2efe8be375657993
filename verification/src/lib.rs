//! Maps a reading onto the characters of a Japanese text: every way to hand the reading out
//! over the text, each with a score that says how well it fits what is known of the kanji.
//!
//! `map_naive` needs nothing but the text and its reading; `map` also takes the readings that
//! a dictionary lists for each kanji and grades every mapping by them. What the two hand back
//! is stated by `mappings`; `laws` says what holds of it.

use std::collections::HashMap;
use vstd::prelude::*;
use vstd::string::StrSliceExecFns;

pub mod alignment;
pub mod chars;
pub mod completeness;
pub mod coverage;
pub mod equivalence;
pub mod furigana;
pub mod laws;
pub mod matcher;
pub mod segmentation;
pub mod soundness;
pub mod utils;

pub use crate::furigana::{Furigana, FuriganaNode, FuriganaSegment};

use crate::chars::chars_of;
use crate::soundness::lemma_alignments_shape;
use crate::furigana::{
    flatten, furigana_views, FuriganaSegmentView, FuriganaTree, FuriganaView, NodeView, MAX_HEIGHT,
};
use crate::matcher::{alignments, dictionary_view, map_inner, Dictionary};
use crate::segmentation::{
    lemma_segments_count, segments_of, CoarseSegmentation, FineSegmentation, Segment,
};
use crate::utils::{all_kana, is_all_kana};

verus! {

/// The one mapping that leaves `text` as it is, or writes `reading` over all of it.
pub open spec fn whole(text: Seq<char>, reading: Option<Seq<char>>) -> Seq<FuriganaView> {
    seq![
        FuriganaView {
            furigana: seq![FuriganaSegmentView { segment: text, furigana: reading }],
            accuracy: 1,
        },
    ]
}

/// The alternatives that were found, or none.
pub open spec fn found(outcome: Option<Seq<NodeView>>) -> Seq<NodeView> {
    match outcome {
        Some(forest) => forest,
        None => Seq::empty(),
    }
}

/// Every mapping of `reading` onto `text`. A text in kana needs no reading. A text of one
/// character takes the whole reading. Any other text is cut into segments, with each kanji on
/// its own where there is a dictionary to grade it, and every alignment of the segments with
/// the reading gives one mapping.
pub open spec fn mappings(text: Seq<char>, reading: Seq<char>, dictionary: Option<Dictionary>) -> Seq<
    FuriganaView,
> {
    if all_kana(text) {
        whole(text, None)
    } else if text.len() == 1 {
        whole(text, Some(reading))
    } else {
        flatten(
            found(alignments(segments_of(text, dictionary is Some), reading, dictionary, None, false)),
        )
    }
}

/// Returns a list of all possible ways to map the reading to the text, matching the kana in
/// the reading to the ones in the word.
/// Returns an empty list if the segments and readings are impossible to match.
///
/// The text may have up to `MAX_HEIGHT` characters, so that the scores are sure to fit.
pub fn map_naive<'a>(text: &'a str, reading: &'a str) -> (list: Vec<Furigana<'a>>)
    requires
        text@.len() <= MAX_HEIGHT,
    ensures
        furigana_views(list@) == mappings(text@, reading@, None),
{
    // without kanji information there is nothing to grade single kanji by, so use coarse
    // segmentation here
    map_segments(text, reading, None)
}

/// Returns a list of all possible ways to map the reading to the text, matching the kana in
/// the reading to the ones in the text.
/// Uses the information in `kanji_to_readings` to approximate the accuracy of each mapping.
/// Returns an empty list if the segments and readings are impossible to match.
///
/// The word may have up to `MAX_HEIGHT` characters, so that the scores are sure to fit.
pub fn map<'a>(
    word: &'a str,
    reading: &'a str,
    kanji_to_readings: &HashMap<String, Vec<String>>,
) -> (list: Vec<Furigana<'a>>)
    requires
        word@.len() <= MAX_HEIGHT,
    ensures
        furigana_views(list@) == mappings(word@, reading@, Some(kanji_to_readings.deep_view())),
{
    // trying to assign a reading to each individual kanji, so use fine segmentation
    map_segments(word, reading, Some(kanji_to_readings))
}

/// Maps the reading to the text as `map_naive` does, for a text of any length: `None` is
/// handed back for a text so long that the score of a mapping might not fit its type.
pub fn try_map_naive<'a>(text: &'a str, reading: &'a str) -> (list: Option<Vec<Furigana<'a>>>)
    ensures
        match list {
            Some(list) => text@.len() <= MAX_HEIGHT && furigana_views(list@) == mappings(
                text@,
                reading@,
                None,
            ),
            None => text@.len() > MAX_HEIGHT,
        },
{
    if text.unicode_len() <= MAX_HEIGHT {
        Some(map_naive(text, reading))
    } else {
        None
    }
}

/// Maps the reading to the word as `map` does, for a word of any length: `None` is handed
/// back for a word so long that the score of a mapping might not fit its type.
pub fn try_map<'a>(
    word: &'a str,
    reading: &'a str,
    kanji_to_readings: &HashMap<String, Vec<String>>,
) -> (list: Option<Vec<Furigana<'a>>>)
    ensures
        match list {
            Some(list) => word@.len() <= MAX_HEIGHT && furigana_views(list@) == mappings(
                word@,
                reading@,
                Some(kanji_to_readings.deep_view()),
            ),
            None => word@.len() > MAX_HEIGHT,
        },
{
    if word.unicode_len() <= MAX_HEIGHT {
        Some(map(word, reading, kanji_to_readings))
    } else {
        None
    }
}

/// Makes the one mapping that covers the whole text.
fn whole_text<'a>(text: &'a str, reading: Option<&'a str>) -> (list: Vec<Furigana<'a>>)
    ensures
        furigana_views(list@) == whole(
            text@,
            match reading {
                Some(reading) => Some(reading@),
                None => None,
            },
        ),
{
    let mut pieces: Vec<FuriganaSegment<'a>> = Vec::new();
    pieces.push(FuriganaSegment { segment: text, furigana: reading });
    let mapping = Furigana { accuracy: 1, furigana: pieces };
    let mut list: Vec<Furigana<'a>> = Vec::new();
    list.push(mapping);
    assert(mapping@.furigana =~= seq![pieces@[0]@]);
    assert(furigana_views(list@) =~= seq![mapping@]);
    list
}

/// Maps the reading to the text, with the table of kanji readings if there is one.
fn map_segments<'a>(
    text: &'a str,
    reading: &'a str,
    kanji_to_readings: Option<&HashMap<String, Vec<String>>>,
) -> (list: Vec<Furigana<'a>>)
    requires
        text@.len() <= MAX_HEIGHT,
    ensures
        furigana_views(list@) == mappings(text@, reading@, dictionary_view(kanji_to_readings)),
{
    let chars = chars_of(text);
    // no need to do work for kana words
    if is_all_kana(chars.as_slice()) {
        return whole_text(text, None);
    }
    // no need to do work for single character words
    if chars.len() == 1 {
        return whole_text(text, Some(reading));
    }
    let segments: Vec<Segment<'a>> = if kanji_to_readings.is_some() {
        FineSegmentation::new(text).collect()
    } else {
        CoarseSegmentation::new(text).collect()
    };
    // recurse with map_inner
    let nodes = match map_inner(segments.as_slice(), reading, kanji_to_readings, None, false) {
        Some(nodes) => nodes,
        None => Vec::new(),
    };
    proof {
        let fine = dictionary_view(kanji_to_readings) is Some;
        lemma_segments_count(text@, fine);
        lemma_alignments_shape(
            segments_of(text@, fine),
            reading@,
            dictionary_view(kanji_to_readings),
            None,
            false,
        );
    }
    let tree = FuriganaTree { text, reading, nodes };
    Furigana::from_tree(&tree)
}

} // verus!
