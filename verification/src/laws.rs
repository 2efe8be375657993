//! What holds of every list of mappings that the library hands out.

use vstd::prelude::*;
use crate::alignment::aligned;
use crate::completeness::lemma_aligned_found;
use crate::coverage::{
    lemma_aligned_covers, lemma_aligned_needs_reading, lemma_read_out_sounds_alike,
    lemma_written_in_full, read_out, reads_as, spelled, written,
};
use crate::equivalence::{
    agree_at, extends_vowel, kana_equivalent_spec, lengthening_mark, same_sound,
};
use crate::furigana::{
    flatten, lemma_flatten_nonempty, lemma_score_bounds, FuriganaSegmentView, FuriganaView,
    NodeView,
};
use crate::matcher::{alignments, Dictionary};
use crate::soundness::{lemma_alignments_aligned, lemma_alignments_shape};
use crate::segmentation::{
    joined_text, lemma_segments_cover, lemma_segments_count, lemma_segments_nonempty, segments_of,
    SegmentView,
};
use crate::utils::all_kana;
use crate::{found, mappings, whole};

verus! {

/// Against another character, the lengthening mark stands for the vowel that lengthens the
/// character before it, and for nothing else: the two agree exactly when the other character
/// is that vowel. At the start of a reading no character comes before, and they never agree.
pub proof fn law_mark_stands_for_lengthening_vowel(left: Seq<char>, right: Seq<char>, i: int)
    requires
        0 <= i < left.len(),
        0 <= i < right.len(),
        left[i] == lengthening_mark(),
        right[i] != lengthening_mark(),
    ensures
        agree_at(left, right, i) <==> i > 0 && extends_vowel(right[i - 1], right[i]),
        agree_at(right, left, i) <==> i > 0 && extends_vowel(right[i - 1], right[i]),
{
}

/// Where neither character is the lengthening mark, or both are, they agree exactly when they
/// are the same or one syllabary apart.
pub proof fn law_kana_agree_by_sound(left: Seq<char>, right: Seq<char>, i: int)
    requires
        0 <= i < left.len(),
        0 <= i < right.len(),
        (left[i] == lengthening_mark()) == (right[i] == lengthening_mark()),
    ensures
        agree_at(left, right, i) <==> same_sound(left[i], right[i]),
{
}

/// Kana-equivalent readings have the same number of characters.
pub proof fn law_kana_equivalent_readings_are_as_long(left: Seq<char>, right: Seq<char>)
    requires
        kana_equivalent_spec(left, right),
    ensures
        left.len() == right.len(),
{
}

/// Every reading is kana-equivalent to itself.
pub proof fn law_kana_equivalence_is_reflexive(reading: Seq<char>)
    ensures
        kana_equivalent_spec(reading, reading),
{
}

/// Kana-equivalence does not depend on the side a reading stands on.
pub proof fn law_kana_equivalence_is_symmetric(left: Seq<char>, right: Seq<char>)
    ensures
        kana_equivalent_spec(left, right) == kana_equivalent_spec(right, left),
{
    if kana_equivalent_spec(left, right) {
        assert forall|i: int| 0 <= i < right.len() implies agree_at(right, left, i) by {
            assert(agree_at(left, right, i));
        }
    }
    if kana_equivalent_spec(right, left) {
        assert forall|i: int| 0 <= i < left.len() implies agree_at(left, right, i) by {
            assert(agree_at(right, left, i));
        }
    }
}

/// Readings that are joined from kana-equivalent parts are kana-equivalent.
pub proof fn law_kana_equivalence_joins(
    left: Seq<char>,
    right: Seq<char>,
    more_left: Seq<char>,
    more_right: Seq<char>,
)
    requires
        kana_equivalent_spec(left, right),
        kana_equivalent_spec(more_left, more_right),
    ensures
        kana_equivalent_spec(left + more_left, right + more_right),
{
    let all_left = left + more_left;
    let all_right = right + more_right;
    assert forall|i: int| 0 <= i < all_left.len() implies agree_at(all_left, all_right, i) by {
        if i < left.len() {
            assert(agree_at(left, right, i));
        } else {
            let j = i - left.len();
            assert(agree_at(more_left, more_right, j));
            assert(all_left[i] == more_left[j] && all_right[i] == more_right[j]);
            if j > 0 {
                assert(all_left[i - 1] == more_left[j - 1] && all_right[i - 1] == more_right[j - 1]);
            }
        }
    }
}

/// The segments of a text cover it: joined in order, their texts give the text back.
pub proof fn law_segments_cover_text(text: Seq<char>, fine: bool)
    ensures
        joined_text(segments_of(text, fine)) == text,
{
    lemma_segments_cover(text, fine);
}

/// No segment is empty, so a text has no more segments than characters.
pub proof fn law_segments_are_not_empty(text: Seq<char>, fine: bool)
    ensures
        segments_of(text, fine).len() <= text.len(),
        forall|i: int|
            0 <= i < segments_of(text, fine).len() ==> (#[trigger] segments_of(text, fine)[i]).text.len()
                > 0,
{
    lemma_segments_count(text, fine);
    assert forall|i: int| 0 <= i < segments_of(text, fine).len() implies (#[trigger] segments_of(
        text,
        fine,
    )[i]).text.len() > 0 by {
        lemma_segments_nonempty(text, fine, i);
    }
}

/// Every mapping of a text that is cut into segments takes, piece by piece, what the rules
/// for the segments allow.
proof fn lemma_mapping_is_aligned(
    text: Seq<char>,
    reading: Seq<char>,
    dictionary: Option<Dictionary>,
    i: int,
)
    requires
        !all_kana(text),
        text.len() != 1,
        0 <= i < mappings(text, reading, dictionary).len(),
    ensures
        aligned(
            mappings(text, reading, dictionary)[i].furigana,
            mappings(text, reading, dictionary)[i].accuracy,
            segments_of(text, dictionary is Some),
            reading,
            dictionary,
            None,
            false,
        ),
{
    assert(flatten(Seq::<NodeView>::empty()).len() == 0);
    lemma_alignments_aligned(segments_of(text, dictionary is Some), reading, dictionary, None, false);
}

/// Every mapping spells the text: the texts of its pieces, joined in order, give the text back.
pub proof fn law_mapping_spells_text(
    text: Seq<char>,
    reading: Seq<char>,
    dictionary: Option<Dictionary>,
    i: int,
)
    requires
        0 <= i < mappings(text, reading, dictionary).len(),
    ensures
        spelled(mappings(text, reading, dictionary)[i].furigana) == text,
{
    let list = mappings(text, reading, dictionary);
    if all_kana(text) || text.len() == 1 {
        let pieces = list[0].furigana;
        assert(spelled(pieces.skip(1)) =~= Seq::<char>::empty());
        assert(pieces[0].segment + Seq::<char>::empty() =~= text);
    } else {
        lemma_segments_cover(text, dictionary is Some);
        lemma_mapping_is_aligned(text, reading, dictionary, i);
        lemma_aligned_covers(
            list[i].furigana,
            list[i].accuracy,
            segments_of(text, dictionary is Some),
            reading,
            dictionary,
            None,
            false,
        );
    }
}

/// Every mapping reads as the reading: piece by piece, the reading written over a piece is
/// what comes next in the reading, and a piece with nothing written over it is itself
/// kana-equivalent to what comes next. A text in kana is handed back without a look at the
/// reading, so this is stated of a text in kana only where it is kana-equivalent to the reading.
pub proof fn law_mapping_reads_as_reading(
    text: Seq<char>,
    reading: Seq<char>,
    dictionary: Option<Dictionary>,
    i: int,
)
    requires
        0 <= i < mappings(text, reading, dictionary).len(),
        all_kana(text) ==> kana_equivalent_spec(text, reading),
    ensures
        reads_as(mappings(text, reading, dictionary)[i].furigana, reading),
{
    let list = mappings(text, reading, dictionary);
    if all_kana(text) {
        let pieces = list[0].furigana;
        assert(reading.take(text.len() as int) =~= reading);
        assert(reads_as(pieces.skip(1), reading.skip(text.len() as int)));
    } else if text.len() == 1 {
        let pieces = list[0].furigana;
        assert(reading.is_prefix_of(reading));
        assert(reads_as(pieces.skip(1), reading.skip(reading.len() as int)));
    } else {
        lemma_mapping_is_aligned(text, reading, dictionary, i);
        lemma_aligned_covers(
            list[i].furigana,
            list[i].accuracy,
            segments_of(text, dictionary is Some),
            reading,
            dictionary,
            None,
            false,
        );
    }
}

/// Every mapping sounds like the reading: read out piece by piece, with the piece itself where
/// nothing is written over it, it is kana-equivalent to the reading. A text in kana is handed
/// back without a look at the reading, so this is stated of a text in kana only where it is
/// kana-equivalent to the reading.
pub proof fn law_mapping_sounds_like_reading(
    text: Seq<char>,
    reading: Seq<char>,
    dictionary: Option<Dictionary>,
    i: int,
)
    requires
        0 <= i < mappings(text, reading, dictionary).len(),
        all_kana(text) ==> kana_equivalent_spec(text, reading),
    ensures
        kana_equivalent_spec(read_out(mappings(text, reading, dictionary)[i].furigana), reading),
{
    law_mapping_reads_as_reading(text, reading, dictionary, i);
    lemma_read_out_sounds_alike(mappings(text, reading, dictionary)[i].furigana, reading);
}

/// In a mapping that leaves no piece of the text without a reading written over it, the
/// readings written, joined in order, give the reading back exactly. A text in kana is handed
/// back without a look at the reading, so this is stated of a text in kana only where it is
/// kana-equivalent to the reading.
pub proof fn law_written_readings_give_reading(
    text: Seq<char>,
    reading: Seq<char>,
    dictionary: Option<Dictionary>,
    i: int,
)
    requires
        0 <= i < mappings(text, reading, dictionary).len(),
        all_kana(text) ==> kana_equivalent_spec(text, reading),
        forall|j: int|
            0 <= j < mappings(text, reading, dictionary)[i].furigana.len() ==> {
                let piece = #[trigger] mappings(text, reading, dictionary)[i].furigana[j];
                piece.furigana is None ==> piece.segment.len() == 0
            },
    ensures
        written(mappings(text, reading, dictionary)[i].furigana) == reading,
{
    let pieces = mappings(text, reading, dictionary)[i].furigana;
    law_mapping_reads_as_reading(text, reading, dictionary, i);
    lemma_written_in_full(pieces, reading);
}

/// For a text that is cut into segments, one that is neither in kana nor a single character,
/// the list holds the alignments of the segments with the reading and nothing else: a mapping
/// is in the list exactly when it takes, piece by piece, what the rules for the segments allow.
pub proof fn law_mappings_are_the_alignments(
    text: Seq<char>,
    reading: Seq<char>,
    dictionary: Option<Dictionary>,
    mapping: FuriganaView,
)
    requires
        !all_kana(text),
        text.len() != 1,
    ensures
        mappings(text, reading, dictionary).contains(mapping) <==> aligned(
            mapping.furigana,
            mapping.accuracy,
            segments_of(text, dictionary is Some),
            reading,
            dictionary,
            None,
            false,
        ),
{
    let segments = segments_of(text, dictionary is Some);
    let list = mappings(text, reading, dictionary);
    assert(segments.len() > 0) by {
        if text.len() == 0 {
            assert(all_kana(text));
        }
    }
    if list.contains(mapping) {
        let i = choose|i: int| 0 <= i < list.len() && list[i] == mapping;
        assert(flatten(Seq::<NodeView>::empty()).len() == 0);
        lemma_alignments_aligned(segments, reading, dictionary, None, false);
    }
    if aligned(mapping.furigana, mapping.accuracy, segments, reading, dictionary, None, false) {
        lemma_aligned_found(
            mapping.furigana,
            mapping.accuracy,
            segments,
            reading,
            dictionary,
            None,
            false,
        );
    }
}

/// Where no mapping takes, piece by piece, what the rules for the segments allow, the list of
/// mappings is empty. This is stated of texts that are cut into segments, which a text in kana
/// and a text of one character are not.
pub proof fn law_no_alignment_no_mapping(
    text: Seq<char>,
    reading: Seq<char>,
    dictionary: Option<Dictionary>,
)
    requires
        !all_kana(text),
        text.len() != 1,
        forall|mapping: FuriganaView|
            !aligned(
                mapping.furigana,
                mapping.accuracy,
                segments_of(text, dictionary is Some),
                reading,
                dictionary,
                None,
                false,
            ),
    ensures
        mappings(text, reading, dictionary).len() == 0,
{
    let list = mappings(text, reading, dictionary);
    if list.len() > 0 {
        assert(list.contains(list[0]));
        law_mappings_are_the_alignments(text, reading, dictionary, list[0]);
    }
}

/// A reading with fewer characters than the text has segments cannot be mapped onto it: the
/// list of mappings is empty. This is stated of texts that are cut into segments at all, which
/// a text in kana and a text of one character are not.
pub proof fn law_short_reading_maps_nothing(
    text: Seq<char>,
    reading: Seq<char>,
    dictionary: Option<Dictionary>,
)
    requires
        !all_kana(text),
        text.len() != 1,
        reading.len() < segments_of(text, dictionary is Some).len(),
    ensures
        mappings(text, reading, dictionary).len() == 0,
{
    let segments = segments_of(text, dictionary is Some);
    let list = mappings(text, reading, dictionary);
    if list.len() > 0 {
        assert forall|i: int| 0 <= i < segments.len() implies (#[trigger] segments[i]).text.len()
            > 0 by {
            lemma_segments_nonempty(text, dictionary is Some, i);
        }
        lemma_mapping_is_aligned(text, reading, dictionary, 0);
        lemma_aligned_needs_reading(
            list[0].furigana,
            list[0].accuracy,
            segments,
            reading,
            dictionary,
            None,
            false,
        );
    }
}

/// Nothing maps the empty reading onto a text that is cut into segments: for a text that is
/// neither in kana nor a single character, every segment needs a character of the reading.
pub proof fn law_empty_reading_maps_nothing(
    text: Seq<char>,
    reading: Seq<char>,
    dictionary: Option<Dictionary>,
)
    requires
        !all_kana(text),
        text.len() != 1,
        reading.len() == 0,
    ensures
        mappings(text, reading, dictionary).len() == 0,
{
    assert(text.len() > 0) by {
        if text.len() == 0 {
            assert(all_kana(text));
        }
    }
    assert(segments_of(text, dictionary is Some).len() > 0);
    law_short_reading_maps_nothing(text, reading, dictionary);
}

/// For a text that is neither in kana nor a single character, the list of mappings is empty
/// exactly when the segments of the text cannot be aligned with the reading.
pub proof fn law_empty_iff_no_alignment(
    text: Seq<char>,
    reading: Seq<char>,
    dictionary: Option<Dictionary>,
)
    requires
        !all_kana(text),
        text.len() != 1,
    ensures
        mappings(text, reading, dictionary).len() == 0 <==> alignments(
            segments_of(text, dictionary is Some),
            reading,
            dictionary,
            None,
            false,
        ) is None,
{
    let segments = segments_of(text, dictionary is Some);
    if let Some(forest) = alignments(segments, reading, dictionary, None, false) {
        lemma_alignments_shape(segments, reading, dictionary, None, false);
        assert(text.len() > 0) by {
            if text.len() == 0 {
                assert(all_kana(text));
            }
        }
        assert(segments.len() > 0);
        lemma_flatten_nonempty(forest);
    }
}

/// The list of alternatives is empty only where nothing is left to align: the matcher hands
/// back an empty list exactly when both the segments and the reading are used up.
pub proof fn law_leaf_iff_used_up(
    segments: Seq<SegmentView>,
    reading: Seq<char>,
    dictionary: Option<Dictionary>,
    previous_kanji: Option<Seq<char>>,
    can_be_rendaku: bool,
)
    ensures
        alignments(segments, reading, dictionary, previous_kanji, can_be_rendaku) == Some(
            Seq::<NodeView>::empty(),
        ) <==> segments.len() == 0 && reading.len() == 0,
{
    lemma_alignments_shape(segments, reading, dictionary, previous_kanji, can_be_rendaku);
    if let Some(forest) = alignments(segments, reading, dictionary, previous_kanji, can_be_rendaku) {
        if forest.len() == 0 {
            assert(forest =~= Seq::<NodeView>::empty());
        }
    }
}

/// A text in kana has exactly one mapping: the text as it is, with nothing written over it,
/// and the score 1. This holds whatever the reading is.
pub proof fn law_kana_needs_no_reading(
    text: Seq<char>,
    reading: Seq<char>,
    dictionary: Option<Dictionary>,
)
    requires
        all_kana(text),
    ensures
        mappings(text, reading, dictionary).len() == 1,
        mappings(text, reading, dictionary)[0].accuracy == 1,
        mappings(text, reading, dictionary)[0].furigana == seq![
            FuriganaSegmentView { segment: text, furigana: None },
        ],
{
}

/// A text of one character that is not kana has exactly one mapping: the whole reading
/// written over it, with the score 1.
pub proof fn law_single_character_takes_reading(
    text: Seq<char>,
    reading: Seq<char>,
    dictionary: Option<Dictionary>,
)
    requires
        text.len() == 1,
        !all_kana(text),
    ensures
        mappings(text, reading, dictionary) == whole(text, Some(reading)),
{
}

/// The list of mappings depends on the text, the reading and the dictionary alone: two lists
/// that were handed out for the same three are equal.
pub proof fn law_same_arguments_same_list(
    first: Seq<FuriganaView>,
    second: Seq<FuriganaView>,
    text: Seq<char>,
    reading: Seq<char>,
    dictionary: Option<Dictionary>,
)
    requires
        first == mappings(text, reading, dictionary),
        second == mappings(text, reading, dictionary),
    ensures
        first == second,
{
}

/// No mapping is deeper than the text has characters, so every score lies within two points a
/// character of zero.
pub proof fn law_score_within_bounds(
    text: Seq<char>,
    reading: Seq<char>,
    dictionary: Option<Dictionary>,
    i: int,
)
    requires
        0 <= i < mappings(text, reading, dictionary).len(),
        text.len() != 1,
        !all_kana(text),
    ensures
        -2 * text.len() <= mappings(text, reading, dictionary)[i].accuracy <= 2 * text.len(),
{
    let fine = dictionary is Some;
    let segments = segments_of(text, fine);
    lemma_segments_count(text, fine);
    lemma_alignments_shape(segments, reading, dictionary, None, false);
    let forest = found(alignments(segments, reading, dictionary, None, false));
    lemma_score_bounds(forest, i);
}

} // verus!
