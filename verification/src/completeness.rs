//! Everything that follows the rules is among the alignments that the matcher finds.

use vstd::prelude::*;
use crate::alignment::{aligned, step, taken_by};
use crate::furigana::{
    annotation, flatten, flatten_node, prepend, score, FuriganaSegmentView, FuriganaView, NodeView,
};
use crate::matcher::{
    alignments, candidate_nodes, idiom, idiom_head, idiom_reading, number_candidates,
    prefix_lengths, ten_fullwidth, ten_halfwidth, ten_reading, Dictionary,
};
use crate::segmentation::{SegmentKind, SegmentView};
use crate::soundness::{candidate_step, lemma_alignments_shape};

verus! {

/// What an alternative flattens to is among what its list flattens to.
proof fn lemma_flatten_contains(forest: Seq<NodeView>, node: NodeView, mapping: FuriganaView)
    requires
        forest.contains(node),
        flatten_node(node).contains(mapping),
    ensures
        flatten(forest).contains(mapping),
    decreases forest.len(),
{
    let before = flatten(forest.drop_last());
    let last = flatten_node(forest.last());
    assert(flatten(forest) == before + last);
    if forest.last() == node {
        let q = choose|q: int| 0 <= q < last.len() && last[q] == mapping;
        assert((before + last)[before.len() + q] == mapping);
    } else {
        let p = choose|p: int| 0 <= p < forest.len() && forest[p] == node;
        assert(forest.drop_last()[p] == node);
        lemma_flatten_contains(forest.drop_last(), node, mapping);
        let i = choose|i: int| 0 <= i < before.len() && before[i] == mapping;
        assert((before + last)[i] == mapping);
    }
}

/// A node that takes a step gives the mapping whose first piece is that step and whose rest
/// is a mapping of the node's continuations; or, at the end, is nothing.
proof fn lemma_node_contains(
    node: NodeView,
    pieces: Seq<FuriganaSegmentView>,
    accuracy: int,
)
    requires
        pieces.len() > 0,
        pieces[0] == annotation(node),
        node.extensions.len() == 0 ==> pieces.len() == 1 && accuracy == score(node.kanji_accurate),
        node.extensions.len() > 0 ==> flatten(node.extensions).contains(
            FuriganaView {
                furigana: pieces.skip(1),
                accuracy: accuracy - score(node.kanji_accurate),
            },
        ),
    ensures
        flatten_node(node).contains(FuriganaView { furigana: pieces, accuracy }),
{
    let mapping = FuriganaView { furigana: pieces, accuracy };
    if node.extensions.len() == 0 {
        assert(pieces =~= seq![annotation(node)]);
        assert(flatten_node(node)[0] == mapping);
    } else {
        let rest = FuriganaView {
            furigana: pieces.skip(1),
            accuracy: accuracy - score(node.kanji_accurate),
        };
        let tails = flatten(node.extensions);
        let i = choose|i: int| 0 <= i < tails.len() && tails[i] == rest;
        assert(seq![pieces[0]] + pieces.skip(1) =~= pieces);
        assert(flatten_node(node)[i] == prepend(annotation(node), score(node.kanji_accurate), rest));
        assert(flatten_node(node)[i] == mapping);
    }
}

/// A candidate length after which the rest can be aligned gives a node.
proof fn lemma_candidates_contain(
    segments: Seq<SegmentView>,
    reading: Seq<char>,
    dictionary: Option<Dictionary>,
    lengths: Seq<int>,
    upto: nat,
    kanji: Option<Seq<char>>,
    graded_rendaku: bool,
    j: int,
)
    requires
        segments.len() > 0,
        0 <= j < upto <= lengths.len(),
        1 <= lengths[j] <= reading.len(),
        alignments(segments.skip(1), reading.skip(lengths[j]), dictionary, kanji, kanji is Some) is Some,
    ensures
        candidate_nodes(segments, reading, dictionary, lengths, upto, kanji, graded_rendaku).contains(
            NodeView {
                segment: segments[0],
                reading: reading.take(lengths[j]),
                extensions: alignments(
                    segments.skip(1),
                    reading.skip(lengths[j]),
                    dictionary,
                    kanji,
                    kanji is Some,
                )->0,
                kanji_accurate: candidate_step(
                    segments,
                    reading,
                    dictionary,
                    lengths[j],
                    kanji,
                    graded_rendaku,
                ).kanji_accurate,
            },
        ),
    decreases upto,
{
    let all = candidate_nodes(segments, reading, dictionary, lengths, upto, kanji, graded_rendaku);
    let earlier = candidate_nodes(
        segments,
        reading,
        dictionary,
        lengths,
        (upto - 1) as nat,
        kanji,
        graded_rendaku,
    );
    let node = NodeView {
        segment: segments[0],
        reading: reading.take(lengths[j]),
        extensions: alignments(
            segments.skip(1),
            reading.skip(lengths[j]),
            dictionary,
            kanji,
            kanji is Some,
        )->0,
        kanji_accurate: candidate_step(
            segments,
            reading,
            dictionary,
            lengths[j],
            kanji,
            graded_rendaku,
        ).kanji_accurate,
    };
    if j == upto - 1 {
        assert(all == earlier.push(node));
        assert(all[all.len() - 1] == node);
    } else {
        lemma_candidates_contain(
            segments,
            reading,
            dictionary,
            lengths,
            (upto - 1) as nat,
            kanji,
            graded_rendaku,
            j,
        );
        let p = choose|p: int| 0 <= p < earlier.len() && earlier[p] == node;
        assert(all[p] == node);
    }
}

/// Whatever takes, piece by piece, what the rules allow is among the alignments that the
/// matcher finds.
pub proof fn lemma_aligned_found(
    pieces: Seq<FuriganaSegmentView>,
    accuracy: int,
    segments: Seq<SegmentView>,
    reading: Seq<char>,
    dictionary: Option<Dictionary>,
    previous_kanji: Option<Seq<char>>,
    can_be_rendaku: bool,
)
    requires
        aligned(pieces, accuracy, segments, reading, dictionary, previous_kanji, can_be_rendaku),
    ensures
        alignments(segments, reading, dictionary, previous_kanji, can_be_rendaku) is Some,
        segments.len() > 0 ==> flatten(
            alignments(segments, reading, dictionary, previous_kanji, can_be_rendaku)->0,
        ).contains(FuriganaView { furigana: pieces, accuracy }),
    decreases segments.len(),
{
    if segments.len() > 0 {
        reveal_with_fuel(aligned, 2);
        let segment = segments[0];
        let count = taken_by(pieces[0]);
        let taken = step(segments, reading, dictionary, previous_kanji, can_be_rendaku, count)->0;
        let rest = segments.skip(taken.covered as int);
        let rest_mapping = FuriganaView {
            furigana: pieces.skip(1),
            accuracy: accuracy - score(taken.kanji_accurate),
        };
        lemma_aligned_found(
            pieces.skip(1),
            accuracy - score(taken.kanji_accurate),
            rest,
            reading.skip(count),
            dictionary,
            taken.previous_kanji,
            taken.can_be_rendaku,
        );
        let continuation = alignments(
            rest,
            reading.skip(count),
            dictionary,
            taken.previous_kanji,
            taken.can_be_rendaku,
        );
        let extensions = continuation->0;
        lemma_alignments_shape(
            rest,
            reading.skip(count),
            dictionary,
            taken.previous_kanji,
            taken.can_be_rendaku,
        );
        let node = NodeView {
            segment: if taken.covered == 2 {
                SegmentView { kind: SegmentKind::Kanji, text: idiom() }
            } else {
                segment
            },
            reading: reading.take(count),
            extensions,
            kanji_accurate: taken.kanji_accurate,
        };
        assert(node.segment.text == taken.text);
        assert(pieces[0] == annotation(node));
        if rest.len() == 0 {
            assert(extensions.len() == 0);
            assert(pieces.len() == 1);
        } else {
            assert(flatten(extensions).contains(rest_mapping));
            assert(extensions.len() > 0) by {
                if extensions.len() == 0 {
                    assert(flatten(extensions).len() == 0);
                }
            }
        }
        lemma_node_contains(node, pieces, accuracy);
        let forest = alignments(segments, reading, dictionary, previous_kanji, can_be_rendaku);
        if segments.len() >= 2 {
            assert(segments.skip(1).skip(1) =~= segments.skip(2));
        }
        match segment.kind {
            SegmentKind::Kanji => {
                if !(segment.text == idiom_head() && idiom_reading().is_prefix_of(reading)) {
                    let lengths = prefix_lengths(reading.len());
                    assert(lengths[count - 1] == count);
                    lemma_candidates_contain(
                        segments,
                        reading,
                        dictionary,
                        lengths,
                        reading.len(),
                        Some(segment.text),
                        can_be_rendaku,
                        count - 1,
                    );
                }
            },
            SegmentKind::Numeric => {
                if !((segment.text == ten_halfwidth() || segment.text == ten_fullwidth())
                    && ten_reading().is_prefix_of(reading)) {
                    let lengths = number_candidates(segment.text, reading, segment.text.len());
                    let j = choose|j: int| 0 <= j < lengths.len() && lengths[j] == count;
                    lemma_candidates_contain(
                        segments,
                        reading,
                        dictionary,
                        lengths,
                        lengths.len(),
                        None,
                        false,
                        j,
                    );
                }
            },
            SegmentKind::Other => {
                let lengths = prefix_lengths(reading.len());
                assert(lengths[count - 1] == count);
                lemma_candidates_contain(
                    segments,
                    reading,
                    dictionary,
                    lengths,
                    reading.len(),
                    previous_kanji,
                    can_be_rendaku,
                    count - 1,
                );
            },
            _ => {},
        }
        assert(forest is Some);
        assert(forest->0.contains(node)) by {
            match segment.kind {
                SegmentKind::Kana | SegmentKind::Alphabetic | SegmentKind::Exception => {
                    assert(forest->0[0] == node);
                },
                SegmentKind::Kanji => {
                    if segment.text == idiom_head() && idiom_reading().is_prefix_of(reading) {
                        assert(forest->0[0] == node);
                    }
                },
                SegmentKind::Numeric => {
                    if (segment.text == ten_halfwidth() || segment.text == ten_fullwidth())
                        && ten_reading().is_prefix_of(reading) {
                        assert(forest->0[0] == node);
                    }
                },
                SegmentKind::Other => {},
            }
        }
        lemma_flatten_contains(forest->0, node, FuriganaView { furigana: pieces, accuracy });
    }
}

} // verus!
