//! Every alignment that the matcher finds follows the rules, and none is deeper than there are
//! segments.

use vstd::prelude::*;
use crate::alignment::{aligned, step, taken_by, piece_for, Step};
use crate::equivalence::{grade, kana_equivalent_spec};
use crate::furigana::{
    annotation, flatten, flatten_node, height, lemma_flatten_push, lemma_flatten_single, prepend,
    score, FuriganaSegmentView, NodeView,
};
use crate::matcher::{
    alignments, candidate_nodes, counter_reading, idiom, idiom_head, idiom_reading, idiom_tail,
    letter_spelling, listed_readings, number_candidates, prefix_lengths, single, ten_fullwidth,
    ten_halfwidth, ten_reading, Dictionary,
};
use crate::segmentation::{counter_mark, repeat_mark, SegmentKind, SegmentView};

verus! {

/// Whether every mapping that a list of alternatives flattens to aligns `segments` with
/// `reading`.
pub open spec fn all_aligned(
    forest: Seq<NodeView>,
    segments: Seq<SegmentView>,
    reading: Seq<char>,
    dictionary: Option<Dictionary>,
    previous_kanji: Option<Seq<char>>,
    can_be_rendaku: bool,
) -> bool {
    forall|i: int|
        0 <= i < flatten(forest).len() ==> aligned(
            (#[trigger] flatten(forest)[i]).furigana,
            flatten(forest)[i].accuracy,
            segments,
            reading,
            dictionary,
            previous_kanji,
            can_be_rendaku,
        )
}

/// A node that takes a step, and whose continuations align the rest, aligns the whole.
proof fn lemma_node_aligned(
    node: NodeView,
    segments: Seq<SegmentView>,
    reading: Seq<char>,
    dictionary: Option<Dictionary>,
    previous_kanji: Option<Seq<char>>,
    can_be_rendaku: bool,
    count: int,
    taken: Step,
)
    requires
        segments.len() > 0,
        step(segments, reading, dictionary, previous_kanji, can_be_rendaku, count) == Some(taken),
        1 <= taken.covered <= segments.len(),
        node.segment.text == taken.text,
        node.reading == reading.take(count),
        node.kanji_accurate == taken.kanji_accurate,
        node.extensions.len() == 0 ==> segments.len() == taken.covered && reading.len() == count,
        node.extensions.len() > 0 ==> all_aligned(
            node.extensions,
            segments.skip(taken.covered as int),
            reading.skip(count),
            dictionary,
            taken.previous_kanji,
            taken.can_be_rendaku,
        ),
    ensures
        all_aligned(seq![node], segments, reading, dictionary, previous_kanji, can_be_rendaku),
{
    lemma_flatten_single(node);
    let head = annotation(node);
    assert(head == piece_for(taken.text, reading.take(count)));
    assert(reading.take(count).len() == count);
    assert(taken_by(head) == count) by {
        if head.furigana is None {
            assert(kana_equivalent_spec(node.segment.text, node.reading));
        }
    }
    assert forall|i: int| 0 <= i < flatten(seq![node]).len() implies aligned(
        (#[trigger] flatten(seq![node])[i]).furigana,
        flatten(seq![node])[i].accuracy,
        segments,
        reading,
        dictionary,
        previous_kanji,
        can_be_rendaku,
    ) by {
        let mapping = flatten_node(node)[i];
        let pieces = mapping.furigana;
        let rest_segments = segments.skip(taken.covered as int);
        let rest_reading = reading.skip(count);
        if node.extensions.len() == 0 {
            assert(pieces =~= seq![head]);
            assert(pieces.skip(1) =~= Seq::<FuriganaSegmentView>::empty());
            assert(rest_segments.len() == 0);
            assert(rest_reading.len() == 0);
            assert(aligned(
                pieces.skip(1),
                mapping.accuracy - score(taken.kanji_accurate),
                rest_segments,
                rest_reading,
                dictionary,
                taken.previous_kanji,
                taken.can_be_rendaku,
            ));
        } else {
            let tail = flatten(node.extensions)[i];
            assert(mapping == prepend(head, score(node.kanji_accurate), tail));
            assert(pieces.skip(1) =~= tail.furigana);
            assert(aligned(
                tail.furigana,
                tail.accuracy,
                rest_segments,
                rest_reading,
                dictionary,
                taken.previous_kanji,
                taken.can_be_rendaku,
            ));
        }
        assert(pieces[0] == head);
    }
}

/// A list of alternatives that all align stays so with one more alternative that aligns.
proof fn lemma_push_aligned(
    earlier: Seq<NodeView>,
    node: NodeView,
    segments: Seq<SegmentView>,
    reading: Seq<char>,
    dictionary: Option<Dictionary>,
    previous_kanji: Option<Seq<char>>,
    can_be_rendaku: bool,
)
    requires
        all_aligned(earlier, segments, reading, dictionary, previous_kanji, can_be_rendaku),
        all_aligned(seq![node], segments, reading, dictionary, previous_kanji, can_be_rendaku),
    ensures
        all_aligned(earlier.push(node), segments, reading, dictionary, previous_kanji, can_be_rendaku),
{
    lemma_flatten_push(earlier, node);
    lemma_flatten_single(node);
    let all = flatten(earlier.push(node));
    assert forall|i: int| 0 <= i < all.len() implies aligned(
        (#[trigger] all[i]).furigana,
        all[i].accuracy,
        segments,
        reading,
        dictionary,
        previous_kanji,
        can_be_rendaku,
    ) by {
        if i < flatten(earlier).len() {
            assert(all[i] == flatten(earlier)[i]);
        } else {
            assert(all[i] == flatten(seq![node])[i - flatten(earlier).len()]);
        }
    }
}

/// No alignment that the matcher finds is deeper than there are segments; and the matcher
/// finds the empty list of alternatives only where segments and reading are both used up.
pub proof fn lemma_alignments_shape(
    segments: Seq<SegmentView>,
    reading: Seq<char>,
    dictionary: Option<Dictionary>,
    previous_kanji: Option<Seq<char>>,
    can_be_rendaku: bool,
)
    ensures
        alignments(segments, reading, dictionary, previous_kanji, can_be_rendaku) matches Some(forest)
            ==> height(forest) <= segments.len() && (forest.len() == 0 ==> segments.len() == 0
            && reading.len() == 0),
    decreases segments.len(), 1nat, 0nat,
{
    if segments.len() > 0 {
        let segment = segments[0];
        let rest = segments.skip(1);
        if let Some(forest) = alignments(
            segments,
            reading,
            dictionary,
            previous_kanji,
            can_be_rendaku,
        ) {
            match segment.kind {
                SegmentKind::Kana => {
                    let count = segment.text.len() as int;
                    lemma_alignments_shape(rest, reading.skip(count), dictionary, None, true);
                    lemma_flatten_single(forest[0]);
                },
                SegmentKind::Kanji => {
                    if segment.text == idiom_head() && idiom_reading().is_prefix_of(reading) {
                        lemma_alignments_shape(rest.skip(1), reading.skip(3), dictionary, None, true);
                        lemma_flatten_single(forest[0]);
                    } else {
                        lemma_candidates_shape(
                            segments,
                            reading,
                            dictionary,
                            prefix_lengths(reading.len()),
                            reading.len(),
                            Some(segment.text),
                            can_be_rendaku,
                        );
                    }
                },
                SegmentKind::Alphabetic => {
                    let count = letter_spelling(segment.text[0])->0.len() as int;
                    lemma_alignments_shape(rest, reading.skip(count), dictionary, None, true);
                    lemma_flatten_single(forest[0]);
                },
                SegmentKind::Numeric => {
                    if (segment.text == ten_halfwidth() || segment.text == ten_fullwidth())
                        && ten_reading().is_prefix_of(reading) {
                        lemma_alignments_shape(rest, reading.skip(2), dictionary, None, false);
                        lemma_flatten_single(forest[0]);
                    } else {
                        let lengths = number_candidates(segment.text, reading, segment.text.len());
                        lemma_candidates_shape(
                            segments,
                            reading,
                            dictionary,
                            lengths,
                            lengths.len(),
                            None,
                            false,
                        );
                    }
                },
                SegmentKind::Exception => {
                    lemma_alignments_shape(
                        rest,
                        reading.skip(1),
                        dictionary,
                        previous_kanji,
                        can_be_rendaku,
                    );
                    lemma_flatten_single(forest[0]);
                },
                SegmentKind::Other => {
                    lemma_candidates_shape(
                        segments,
                        reading,
                        dictionary,
                        prefix_lengths(reading.len()),
                        reading.len(),
                        previous_kanji,
                        can_be_rendaku,
                    );
                },
            }
        }
    }
}

/// The alternatives that candidate lengths give are no deeper than there are segments.
proof fn lemma_candidates_shape(
    segments: Seq<SegmentView>,
    reading: Seq<char>,
    dictionary: Option<Dictionary>,
    lengths: Seq<int>,
    upto: nat,
    kanji: Option<Seq<char>>,
    graded_rendaku: bool,
)
    requires
        segments.len() > 0,
    ensures
        height(candidate_nodes(segments, reading, dictionary, lengths, upto, kanji, graded_rendaku))
            <= segments.len(),
    decreases segments.len(), 0nat, upto,
{
    if upto == 0 || upto > lengths.len() {
    } else {
        let earlier = candidate_nodes(
            segments,
            reading,
            dictionary,
            lengths,
            (upto - 1) as nat,
            kanji,
            graded_rendaku,
        );
        lemma_candidates_shape(
            segments,
            reading,
            dictionary,
            lengths,
            (upto - 1) as nat,
            kanji,
            graded_rendaku,
        );
        let count = lengths[upto - 1];
        if 1 <= count <= reading.len() {
            lemma_alignments_shape(
                segments.skip(1),
                reading.skip(count),
                dictionary,
                kanji,
                kanji is Some,
            );
            let all = candidate_nodes(
                segments,
                reading,
                dictionary,
                lengths,
                upto,
                kanji,
                graded_rendaku,
            );
            if all.len() > earlier.len() {
                lemma_flatten_push(earlier, all.last());
            }
        }
    }
}

/// The alignment that `single` wraps aligns the whole when the node takes a step and what
/// follows it aligns the rest.
proof fn lemma_single_aligned(
    node_segment: SegmentView,
    count: int,
    taken: Step,
    segments: Seq<SegmentView>,
    reading: Seq<char>,
    dictionary: Option<Dictionary>,
    previous_kanji: Option<Seq<char>>,
    can_be_rendaku: bool,
)
    requires
        segments.len() > 0,
        step(segments, reading, dictionary, previous_kanji, can_be_rendaku, count) == Some(taken),
        1 <= taken.covered <= segments.len(),
        node_segment.text == taken.text,
        alignments(
            segments.skip(taken.covered as int),
            reading.skip(count),
            dictionary,
            taken.previous_kanji,
            taken.can_be_rendaku,
        ) matches Some(extensions) ==> all_aligned(
            extensions,
            segments.skip(taken.covered as int),
            reading.skip(count),
            dictionary,
            taken.previous_kanji,
            taken.can_be_rendaku,
        ),
    ensures
        single(
            node_segment,
            reading.take(count),
            taken.kanji_accurate,
            alignments(
                segments.skip(taken.covered as int),
                reading.skip(count),
                dictionary,
                taken.previous_kanji,
                taken.can_be_rendaku,
            ),
        ) matches Some(forest) ==> all_aligned(
            forest,
            segments,
            reading,
            dictionary,
            previous_kanji,
            can_be_rendaku,
        ),
{
    let rest = segments.skip(taken.covered as int);
    let continuation = alignments(
        rest,
        reading.skip(count),
        dictionary,
        taken.previous_kanji,
        taken.can_be_rendaku,
    );
    if let Some(extensions) = continuation {
        lemma_alignments_shape(
            rest,
            reading.skip(count),
            dictionary,
            taken.previous_kanji,
            taken.can_be_rendaku,
        );
        let node = NodeView {
            segment: node_segment,
            reading: reading.take(count),
            extensions,
            kanji_accurate: taken.kanji_accurate,
        };
        lemma_node_aligned(
            node,
            segments,
            reading,
            dictionary,
            previous_kanji,
            can_be_rendaku,
            count,
            taken,
        );
    }
}

/// The step that a candidate length stands for.
pub open spec fn candidate_step(
    segments: Seq<SegmentView>,
    reading: Seq<char>,
    dictionary: Option<Dictionary>,
    count: int,
    kanji: Option<Seq<char>>,
    can_be_rendaku: bool,
) -> Step {
    Step {
        covered: 1,
        text: segments[0].text,
        kanji_accurate: grade(
            listed_readings(dictionary, kanji),
            reading.take(count),
            can_be_rendaku,
            segments.len() > 1,
        ),
        previous_kanji: kanji,
        can_be_rendaku: kanji is Some,
    }
}

/// Whether each of `lengths` that lies within the reading is a step that the rule for the
/// first segment allows.
pub open spec fn lengths_are_steps(
    segments: Seq<SegmentView>,
    reading: Seq<char>,
    dictionary: Option<Dictionary>,
    previous_kanji: Option<Seq<char>>,
    can_be_rendaku: bool,
    lengths: Seq<int>,
    kanji: Option<Seq<char>>,
    graded_rendaku: bool,
) -> bool {
    forall|j: int|
        0 <= j < lengths.len() && 1 <= #[trigger] lengths[j] <= reading.len() ==> step(
            segments,
            reading,
            dictionary,
            previous_kanji,
            can_be_rendaku,
            lengths[j],
        ) == Some(candidate_step(segments, reading, dictionary, lengths[j], kanji, graded_rendaku))
}

/// Every alignment that the matcher finds takes, piece by piece, what the rules allow.
pub proof fn lemma_alignments_aligned(
    segments: Seq<SegmentView>,
    reading: Seq<char>,
    dictionary: Option<Dictionary>,
    previous_kanji: Option<Seq<char>>,
    can_be_rendaku: bool,
)
    ensures
        alignments(segments, reading, dictionary, previous_kanji, can_be_rendaku) matches Some(forest)
            ==> all_aligned(forest, segments, reading, dictionary, previous_kanji, can_be_rendaku),
    decreases segments.len(), 1nat, 0nat,
{
    if segments.len() == 0 {
        assert(flatten(Seq::<NodeView>::empty()).len() == 0);
    } else {
        let segment = segments[0];
        let rest = segments.skip(1);
        match segment.kind {
            SegmentKind::Kana => {
                let count = segment.text.len() as int;
                if count <= reading.len() && kana_equivalent_spec(reading.take(count), segment.text) {
                    let taken = step(
                        segments,
                        reading,
                        dictionary,
                        previous_kanji,
                        can_be_rendaku,
                        count,
                    )->0;
                    lemma_alignments_aligned(rest, reading.skip(count), dictionary, None, true);
                    lemma_single_aligned(
                        segment,
                        count,
                        taken,
                        segments,
                        reading,
                        dictionary,
                        previous_kanji,
                        can_be_rendaku,
                    );
                }
            },
            SegmentKind::Kanji => {
                if segment.text == idiom_head() && idiom_reading().is_prefix_of(reading) {
                    if rest.len() > 0 && rest[0].kind == SegmentKind::Kanji && rest[0].text
                        == idiom_tail() {
                        let taken = step(
                            segments,
                            reading,
                            dictionary,
                            previous_kanji,
                            can_be_rendaku,
                            3,
                        )->0;
                        assert(rest.skip(1) =~= segments.skip(2));
                        lemma_alignments_aligned(
                            segments.skip(2),
                            reading.skip(3),
                            dictionary,
                            None,
                            true,
                        );
                        lemma_single_aligned(
                            SegmentView { kind: SegmentKind::Kanji, text: idiom() },
                            3,
                            taken,
                            segments,
                            reading,
                            dictionary,
                            previous_kanji,
                            can_be_rendaku,
                        );
                    }
                } else {
                    lemma_candidates_aligned(
                        segments,
                        reading,
                        dictionary,
                        previous_kanji,
                        can_be_rendaku,
                        prefix_lengths(reading.len()),
                        reading.len(),
                        Some(segment.text),
                        can_be_rendaku,
                    );
                }
            },
            SegmentKind::Alphabetic => {
                if segment.text.len() == 1 && letter_spelling(segment.text[0]) is Some {
                    let spelling = letter_spelling(segment.text[0])->0;
                    let count = spelling.len() as int;
                    if count <= reading.len() && kana_equivalent_spec(reading.take(count), spelling) {
                        let taken = step(
                            segments,
                            reading,
                            dictionary,
                            previous_kanji,
                            can_be_rendaku,
                            count,
                        )->0;
                        lemma_alignments_aligned(rest, reading.skip(count), dictionary, None, true);
                        lemma_single_aligned(
                            segment,
                            count,
                            taken,
                            segments,
                            reading,
                            dictionary,
                            previous_kanji,
                            can_be_rendaku,
                        );
                    }
                }
            },
            SegmentKind::Numeric => {
                if (segment.text == ten_halfwidth() || segment.text == ten_fullwidth())
                    && ten_reading().is_prefix_of(reading) {
                    let taken = step(
                        segments,
                        reading,
                        dictionary,
                        previous_kanji,
                        can_be_rendaku,
                        2,
                    )->0;
                    lemma_alignments_aligned(rest, reading.skip(2), dictionary, None, false);
                    lemma_single_aligned(
                        segment,
                        2,
                        taken,
                        segments,
                        reading,
                        dictionary,
                        previous_kanji,
                        can_be_rendaku,
                    );
                } else {
                    let lengths = number_candidates(segment.text, reading, segment.text.len());
                    assert forall|j: int|
                        0 <= j < lengths.len() && 1 <= #[trigger] lengths[j]
                            <= reading.len() implies lengths.contains(lengths[j]) by {}
                    lemma_candidates_aligned(
                        segments,
                        reading,
                        dictionary,
                        previous_kanji,
                        can_be_rendaku,
                        lengths,
                        lengths.len(),
                        None,
                        false,
                    );
                }
            },
            SegmentKind::Exception => {
                if segment.text == seq![counter_mark()] && reading.len() >= 1 && reading[0]
                    == counter_reading() {
                    let taken = step(
                        segments,
                        reading,
                        dictionary,
                        previous_kanji,
                        can_be_rendaku,
                        1,
                    )->0;
                    lemma_alignments_aligned(
                        rest,
                        reading.skip(1),
                        dictionary,
                        previous_kanji,
                        can_be_rendaku,
                    );
                    lemma_single_aligned(
                        segment,
                        1,
                        taken,
                        segments,
                        reading,
                        dictionary,
                        previous_kanji,
                        can_be_rendaku,
                    );
                }
            },
            SegmentKind::Other => {
                if segment.text == seq![repeat_mark()] && previous_kanji is Some {
                    lemma_candidates_aligned(
                        segments,
                        reading,
                        dictionary,
                        previous_kanji,
                        can_be_rendaku,
                        prefix_lengths(reading.len()),
                        reading.len(),
                        previous_kanji,
                        can_be_rendaku,
                    );
                }
            },
        }
    }
}

/// The alternatives that candidate lengths give take what the rules allow, where each length
/// is a step.
proof fn lemma_candidates_aligned(
    segments: Seq<SegmentView>,
    reading: Seq<char>,
    dictionary: Option<Dictionary>,
    previous_kanji: Option<Seq<char>>,
    can_be_rendaku: bool,
    lengths: Seq<int>,
    upto: nat,
    kanji: Option<Seq<char>>,
    graded_rendaku: bool,
)
    requires
        segments.len() > 0,
        lengths_are_steps(
            segments,
            reading,
            dictionary,
            previous_kanji,
            can_be_rendaku,
            lengths,
            kanji,
            graded_rendaku,
        ),
    ensures
        all_aligned(
            candidate_nodes(segments, reading, dictionary, lengths, upto, kanji, graded_rendaku),
            segments,
            reading,
            dictionary,
            previous_kanji,
            can_be_rendaku,
        ),
    decreases segments.len(), 0nat, upto,
{
    if upto == 0 || upto > lengths.len() {
        assert(flatten(Seq::<NodeView>::empty()).len() == 0);
    } else {
        let earlier = candidate_nodes(
            segments,
            reading,
            dictionary,
            lengths,
            (upto - 1) as nat,
            kanji,
            graded_rendaku,
        );
        lemma_candidates_aligned(
            segments,
            reading,
            dictionary,
            previous_kanji,
            can_be_rendaku,
            lengths,
            (upto - 1) as nat,
            kanji,
            graded_rendaku,
        );
        let count = lengths[upto - 1];
        if 1 <= count <= reading.len() {
            let rest = segments.skip(1);
            let taken = candidate_step(segments, reading, dictionary, count, kanji, graded_rendaku);
            lemma_alignments_aligned(rest, reading.skip(count), dictionary, kanji, kanji is Some);
            if let Some(extensions) = alignments(
                rest,
                reading.skip(count),
                dictionary,
                kanji,
                kanji is Some,
            ) {
                lemma_single_aligned(
                    segments[0],
                    count,
                    taken,
                    segments,
                    reading,
                    dictionary,
                    previous_kanji,
                    can_be_rendaku,
                );
                let node = NodeView {
                    segment: segments[0],
                    reading: reading.take(count),
                    extensions,
                    kanji_accurate: taken.kanji_accurate,
                };
                lemma_push_aligned(
                    earlier,
                    node,
                    segments,
                    reading,
                    dictionary,
                    previous_kanji,
                    can_be_rendaku,
                );
            }
        }
    }
}

} // verus!
