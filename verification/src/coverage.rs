//! What every alignment has in common: it spells the word and it reads as the reading.

use vstd::prelude::*;
use crate::alignment::{aligned, step, taken_by};
use crate::equivalence::kana_equivalent_spec;
use crate::furigana::{score, FuriganaSegmentView};
use crate::matcher::{
    idiom, idiom_head, idiom_tail, lemma_letter_spelling_not_empty, Dictionary,
};
use crate::segmentation::{joined_text, SegmentKind, SegmentView};

verus! {

/// The word that a mapping spells: the texts of its pieces, joined.
pub open spec fn spelled(pieces: Seq<FuriganaSegmentView>) -> Seq<char>
    decreases pieces.len(),
{
    if pieces.len() == 0 {
        Seq::empty()
    } else {
        pieces[0].segment + spelled(pieces.skip(1))
    }
}

/// Whether a mapping reads as `reading`: piece by piece, the reading written over a piece is
/// what comes next in `reading`; and a piece without one is itself kana-equivalent to what
/// comes next. Nothing of `reading` is left over.
pub open spec fn reads_as(pieces: Seq<FuriganaSegmentView>, reading: Seq<char>) -> bool
    decreases pieces.len(),
{
    if pieces.len() == 0 {
        reading.len() == 0
    } else {
        let piece = pieces[0];
        match piece.furigana {
            Some(written) => written.is_prefix_of(reading) && reads_as(
                pieces.skip(1),
                reading.skip(written.len() as int),
            ),
            None => piece.segment.len() <= reading.len() && kana_equivalent_spec(
                piece.segment,
                reading.take(piece.segment.len() as int),
            ) && reads_as(pieces.skip(1), reading.skip(piece.segment.len() as int)),
        }
    }
}

/// The readings written over the pieces of a mapping, joined; a piece without one adds nothing.
pub open spec fn written(pieces: Seq<FuriganaSegmentView>) -> Seq<char>
    decreases pieces.len(),
{
    if pieces.len() == 0 {
        Seq::empty()
    } else {
        match pieces[0].furigana {
            Some(reading) => reading + written(pieces.skip(1)),
            None => written(pieces.skip(1)),
        }
    }
}

/// How a mapping is read out: the reading written over each piece, or the piece itself where
/// nothing is written over it, joined.
pub open spec fn read_out(pieces: Seq<FuriganaSegmentView>) -> Seq<char>
    decreases pieces.len(),
{
    if pieces.len() == 0 {
        Seq::empty()
    } else {
        match pieces[0].furigana {
            Some(reading) => reading + read_out(pieces.skip(1)),
            None => pieces[0].segment + read_out(pieces.skip(1)),
        }
    }
}

/// A mapping that leaves no piece of the text without a reading written over it reads as
/// exactly the readings written.
pub proof fn lemma_written_in_full(pieces: Seq<FuriganaSegmentView>, reading: Seq<char>)
    requires
        reads_as(pieces, reading),
        forall|i: int|
            0 <= i < pieces.len() ==> ((#[trigger] pieces[i]).furigana is None
                ==> pieces[i].segment.len() == 0),
    ensures
        written(pieces) == reading,
    decreases pieces.len(),
{
    if pieces.len() == 0 {
        assert(reading =~= Seq::empty());
    } else {
        let rest = pieces.skip(1);
        assert forall|i: int| 0 <= i < rest.len() implies ((#[trigger] rest[i]).furigana is None
            ==> rest[i].segment.len() == 0) by {
            assert(rest[i] == pieces[i + 1]);
        }
        match pieces[0].furigana {
            Some(first) => {
                lemma_written_in_full(rest, reading.skip(first.len() as int));
                assert(first + reading.skip(first.len() as int) =~= reading);
            },
            None => {
                assert(reading.skip(0) =~= reading);
                lemma_written_in_full(rest, reading);
            },
        }
    }
}

/// A mapping that reads as a reading is, read out, kana-equivalent to it.
pub proof fn lemma_read_out_sounds_alike(pieces: Seq<FuriganaSegmentView>, reading: Seq<char>)
    requires
        reads_as(pieces, reading),
    ensures
        kana_equivalent_spec(read_out(pieces), reading),
    decreases pieces.len(),
{
    if pieces.len() == 0 {
        assert(reading =~= Seq::<char>::empty());
    } else {
        let rest = pieces.skip(1);
        match pieces[0].furigana {
            Some(first) => {
                let tail = reading.skip(first.len() as int);
                lemma_read_out_sounds_alike(rest, tail);
                crate::laws::law_kana_equivalence_joins(first, first, read_out(rest), tail);
                assert(first + tail =~= reading);
            },
            None => {
                let count = pieces[0].segment.len() as int;
                let tail = reading.skip(count);
                lemma_read_out_sounds_alike(rest, tail);
                crate::laws::law_kana_equivalence_joins(pieces[0].segment, reading.take(count), read_out(rest), tail);
                assert(reading.take(count) + tail =~= reading);
            },
        }
    }
}

/// The texts of a list of segments, joined, begin with the text of the first.
pub proof fn lemma_joined_text_unfold(segments: Seq<SegmentView>)
    requires
        segments.len() > 0,
    ensures
        joined_text(segments) == segments[0].text + joined_text(segments.skip(1)),
        segments[0].text.is_prefix_of(joined_text(segments)),
        joined_text(segments).skip(segments[0].text.len() as int) == joined_text(segments.skip(1)),
{
    let first = segments[0].text;
    let rest = joined_text(segments.skip(1));
    assert((first + rest).skip(first.len() as int) =~= rest);
    assert((first + rest).subrange(0, first.len() as int) =~= first);
}

/// Whether every segment has at least one character.
pub open spec fn no_empty_segment(segments: Seq<SegmentView>) -> bool {
    forall|i: int| 0 <= i < segments.len() ==> (#[trigger] segments[i]).text.len() > 0
}

/// What takes, piece by piece, what the rules allow spells the segments and reads as the
/// reading.
pub proof fn lemma_aligned_covers(
    pieces: Seq<FuriganaSegmentView>,
    accuracy: int,
    segments: Seq<SegmentView>,
    reading: Seq<char>,
    dictionary: Option<Dictionary>,
    previous_kanji: Option<Seq<char>>,
    can_be_rendaku: bool,
)
    requires
        aligned(pieces, accuracy, segments, reading, dictionary, previous_kanji, can_be_rendaku),
    ensures
        spelled(pieces) == joined_text(segments),
        reads_as(pieces, reading),
    decreases segments.len(),
{
    if segments.len() == 0 {
        assert(joined_text(segments) =~= Seq::<char>::empty());
    } else {
        let count = taken_by(pieces[0]);
        let taken = step(segments, reading, dictionary, previous_kanji, can_be_rendaku, count)->0;
        let rest = segments.skip(taken.covered as int);
        lemma_aligned_covers(
            pieces.skip(1),
            accuracy - score(taken.kanji_accurate),
            rest,
            reading.skip(count),
            dictionary,
            taken.previous_kanji,
            taken.can_be_rendaku,
        );
        lemma_joined_text_unfold(segments);
        if taken.covered == 2 {
            lemma_joined_text_unfold(segments.skip(1));
            assert(segments.skip(1).skip(1) =~= segments.skip(2));
            assert(idiom() =~= idiom_head() + idiom_tail());
            assert(joined_text(segments) =~= idiom() + joined_text(rest));
        }
        assert(spelled(pieces) == taken.text + joined_text(rest));
        let first = reading.take(count);
        assert(first.len() == count);
        if pieces[0].furigana is None {
            assert(kana_equivalent_spec(taken.text, first));
        }
    }
}

/// What takes, piece by piece, what the rules allow takes at least one character for each
/// segment, where no segment is empty.
pub proof fn lemma_aligned_needs_reading(
    pieces: Seq<FuriganaSegmentView>,
    accuracy: int,
    segments: Seq<SegmentView>,
    reading: Seq<char>,
    dictionary: Option<Dictionary>,
    previous_kanji: Option<Seq<char>>,
    can_be_rendaku: bool,
)
    requires
        aligned(pieces, accuracy, segments, reading, dictionary, previous_kanji, can_be_rendaku),
        no_empty_segment(segments),
    ensures
        segments.len() <= reading.len(),
    decreases segments.len(),
{
    if segments.len() > 0 {
        let count = taken_by(pieces[0]);
        let taken = step(segments, reading, dictionary, previous_kanji, can_be_rendaku, count)->0;
        let rest = segments.skip(taken.covered as int);
        assert forall|i: int| 0 <= i < rest.len() implies (#[trigger] rest[i]).text.len() > 0 by {
            assert(rest[i] == segments[i + taken.covered]);
        }
        lemma_aligned_needs_reading(
            pieces.skip(1),
            accuracy - score(taken.kanji_accurate),
            rest,
            reading.skip(count),
            dictionary,
            taken.previous_kanji,
            taken.can_be_rendaku,
        );
        if segments[0].kind == SegmentKind::Alphabetic {
            lemma_letter_spelling_not_empty(segments[0].text[0]);
        }
    }
}

} // verus!
