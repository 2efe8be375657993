//! Contains iterators that segment a Japanese word.

use vstd::prelude::*;
use vstd::string::StrSliceExecFns;
use crate::chars::chars_of;
use crate::utils::{
    alphabetic, is_alphabetic, is_kana, is_kanji, is_numeric_fullwidth, is_numeric_west, kana, kanji,
    numeric_fullwidth, unicode_numeric,
};

verus! {

/// Segment of a Japanese word.
#[derive(Debug, Clone, Copy, PartialEq, Eq, PartialOrd, Ord, Hash)]
pub enum Segment<'a> {
    Kana(&'a str),
    Kanji(&'a str),
    Alphabetic(&'a str),
    Numeric(&'a str),
    Exception(&'a str),
    Other(&'a str),
}

/// What a segment is made of.
#[derive(Debug, Clone, Copy, PartialEq, Eq, Structural)]
pub enum SegmentKind {
    Kana,
    Kanji,
    Alphabetic,
    Numeric,
    Exception,
    Other,
}

/// A segment as a kind and the characters it covers.
pub ghost struct SegmentView {
    pub kind: SegmentKind,
    pub text: Seq<char>,
}

impl<'a> View for Segment<'a> {
    type V = SegmentView;

    open spec fn view(&self) -> SegmentView {
        match *self {
            Segment::Kana(text) => SegmentView { kind: SegmentKind::Kana, text: text@ },
            Segment::Kanji(text) => SegmentView { kind: SegmentKind::Kanji, text: text@ },
            Segment::Alphabetic(text) => SegmentView { kind: SegmentKind::Alphabetic, text: text@ },
            Segment::Numeric(text) => SegmentView { kind: SegmentKind::Numeric, text: text@ },
            Segment::Exception(text) => SegmentView { kind: SegmentKind::Exception, text: text@ },
            Segment::Other(text) => SegmentView { kind: SegmentKind::Other, text: text@ },
        }
    }
}

impl<'a> Segment<'a> {
    /// Returns the inner string.
    pub fn inner(self) -> (text: &'a str)
        ensures
            text@ == self@.text,
    {
        match self {
            Self::Kana(kana) => kana,
            Self::Kanji(kanji) => kanji,
            Self::Alphabetic(alpha) => alpha,
            Self::Numeric(number) => number,
            Self::Exception(exception) => exception,
            Self::Other(other) => other,
        }
    }
}

/// The views of a list of segments.
pub open spec fn segment_views(segments: Seq<Segment>) -> Seq<SegmentView> {
    segments.map_values(|segment: Segment| segment@)
}

/// The class of a single character.
#[derive(Debug, Clone, Copy, PartialEq, Eq, PartialOrd, Ord, Hash, Structural)]
pub enum Char {
    Kanji,
    Kana,
    Alphabetic,
    NumericWest,
    NumericFullWidth,
    Exception,
    Other,
}

/// The counter `ヶ`, which Unicode files under katakana.
pub open spec fn counter_mark() -> char {
    'ヶ'
}

/// The mark `々`, which repeats the kanji before it.
pub open spec fn repeat_mark() -> char {
    '々'
}

/// The class of `c`: the first of these that applies. The counter mark is an exception of its
/// own; then come kanji, kana, letters, what Unicode counts as a number, full-width digits;
/// everything else is other.
pub open spec fn classify(c: char) -> Char {
    if c == counter_mark() {
        Char::Exception
    } else if kanji(c) {
        Char::Kanji
    } else if kana(c) {
        Char::Kana
    } else if alphabetic(c) {
        Char::Alphabetic
    } else if unicode_numeric(c) {
        Char::NumericWest
    } else if numeric_fullwidth(c) {
        Char::NumericFullWidth
    } else {
        Char::Other
    }
}

/// Finds the class of a character.
#[verifier::when_used_as_spec(classify)]
pub fn classify_char(c: char) -> (class: Char)
    ensures
        class == classify(c),
{
    if c == 'ヶ' {
        // ヶ is technically classified as a kanji in unicode
        // but we want to treat it differently
        Char::Exception
    } else if is_kanji(c) {
        Char::Kanji
    } else if is_kana(c) {
        Char::Kana
    } else if is_alphabetic(c) {
        Char::Alphabetic
    } else if is_numeric_west(c) {
        Char::NumericWest
    } else if is_numeric_fullwidth(c) {
        Char::NumericFullWidth
    } else {
        Char::Other
    }
}

/// The kind of the segment that a character of class `class` begins.
pub open spec fn kind_of(class: Char) -> SegmentKind {
    match class {
        Char::Kanji => SegmentKind::Kanji,
        Char::Kana => SegmentKind::Kana,
        Char::Alphabetic => SegmentKind::Alphabetic,
        Char::NumericWest => SegmentKind::Numeric,
        Char::NumericFullWidth => SegmentKind::Numeric,
        Char::Exception => SegmentKind::Exception,
        Char::Other => SegmentKind::Other,
    }
}

/// Whether a segment that began with a character of class `class` goes on over `c`. Kana and
/// the two classes of digits run on over their own class. Kanji run on over kanji and the
/// repeat mark, unless each kanji is to stand alone (`fine`). Letters, exceptions and other
/// characters always stand alone.
pub open spec fn continues_run(class: Char, fine: bool, c: char) -> bool {
    match class {
        Char::Kana => classify(c) == Char::Kana,
        Char::Kanji => !fine && (classify(c) == Char::Kanji || c == repeat_mark()),
        Char::NumericWest => classify(c) == Char::NumericWest,
        Char::NumericFullWidth => classify(c) == Char::NumericFullWidth,
        _ => false,
    }
}

/// Checks whether a segment that began with a character of class `class` goes on over `c`.
fn run_continues(class: Char, fine: bool, c: char) -> (continues: bool)
    ensures
        continues == continues_run(class, fine, c),
{
    match class {
        Char::Kana => classify_char(c) == Char::Kana,
        Char::Kanji => !fine && (classify_char(c) == Char::Kanji || c == '々'),
        Char::NumericWest => classify_char(c) == Char::NumericWest,
        Char::NumericFullWidth => classify_char(c) == Char::NumericFullWidth,
        _ => false,
    }
}

/// Where the run of class `class` that covers `text` up to `from` ends.
pub open spec fn run_end(text: Seq<char>, class: Char, fine: bool, from: int) -> int
    decreases text.len() - from,
{
    if 0 <= from < text.len() && continues_run(class, fine, text[from]) {
        run_end(text, class, fine, from + 1)
    } else {
        from
    }
}

/// A run ends at or after the place from which it is followed, and within the text.
pub proof fn lemma_run_end_bounds(text: Seq<char>, class: Char, fine: bool, from: int)
    requires
        0 <= from <= text.len(),
    ensures
        from <= run_end(text, class, fine, from) <= text.len(),
    decreases text.len() - from,
{
    if from < text.len() && continues_run(class, fine, text[from]) {
        lemma_run_end_bounds(text, class, fine, from + 1);
    }
}

/// The number of characters in the first segment of a text that is not empty.
pub open spec fn first_segment_len(text: Seq<char>, fine: bool) -> int {
    run_end(text, classify(text[0]), fine, 1)
}

/// The first segment of a text that is not empty.
pub open spec fn first_segment(text: Seq<char>, fine: bool) -> SegmentView {
    SegmentView {
        kind: kind_of(classify(text[0])),
        text: text.take(first_segment_len(text, fine)),
    }
}

/// The segments of a text, from left to right: coarse, or with each kanji on its own (`fine`).
pub open spec fn segments_of(text: Seq<char>, fine: bool) -> Seq<SegmentView>
    decreases text.len(),
{
    if text.len() == 0 {
        Seq::empty()
    } else {
        proof {
            lemma_run_end_bounds(text, classify(text[0]), fine, 1);
        }
        seq![first_segment(text, fine)] + segments_of(
            text.skip(first_segment_len(text, fine)),
            fine,
        )
    }
}

/// The texts of a list of segments, joined.
pub open spec fn joined_text(segments: Seq<SegmentView>) -> Seq<char>
    decreases segments.len(),
{
    if segments.len() == 0 {
        Seq::empty()
    } else {
        segments[0].text + joined_text(segments.skip(1))
    }
}

/// The segments of a text cover it: joined, their texts give the text back.
pub proof fn lemma_segments_cover(text: Seq<char>, fine: bool)
    ensures
        joined_text(segments_of(text, fine)) == text,
    decreases text.len(),
{
    if text.len() > 0 {
        let n = first_segment_len(text, fine);
        lemma_run_end_bounds(text, classify(text[0]), fine, 1);
        lemma_segments_cover(text.skip(n), fine);
        let all = segments_of(text, fine);
        assert(all.skip(1) =~= segments_of(text.skip(n), fine));
        assert(text.take(n) + text.skip(n) =~= text);
    }
}

/// No segment is empty.
pub proof fn lemma_segments_nonempty(text: Seq<char>, fine: bool, i: int)
    requires
        0 <= i < segments_of(text, fine).len(),
    ensures
        segments_of(text, fine)[i].text.len() > 0,
    decreases text.len(),
{
    let n = first_segment_len(text, fine);
    lemma_run_end_bounds(text, classify(text[0]), fine, 1);
    if i > 0 {
        lemma_segments_nonempty(text.skip(n), fine, i - 1);
    }
}

/// A text has no more segments than characters.
pub proof fn lemma_segments_count(text: Seq<char>, fine: bool)
    ensures
        segments_of(text, fine).len() <= text.len(),
    decreases text.len(),
{
    if text.len() > 0 {
        lemma_run_end_bounds(text, classify(text[0]), fine, 1);
        lemma_segments_count(text.skip(first_segment_len(text, fine)), fine);
    }
}

/// Splits the first segment off `rest`.
fn split_first<'a>(rest: &'a str, fine: bool) -> (split: Option<(Segment<'a>, &'a str)>)
    ensures
        rest@.len() == 0 <==> split is None,
        split matches Some((segment, tail)) ==> segment@ == first_segment(rest@, fine) && tail@
            == rest@.skip(first_segment_len(rest@, fine)) && 1 <= first_segment_len(rest@, fine)
            <= rest@.len(),
{
    let chars = chars_of(rest);
    if chars.len() == 0 {
        return None;
    }
    let class = classify_char(chars[0]);
    let mut end: usize = 1;
    while end < chars.len() && run_continues(class, fine, chars[end])
        invariant
            1 <= end <= chars.len(),
            run_end(chars@, class, fine, 1) == run_end(chars@, class, fine, end as int),
        decreases chars.len() - end,
    {
        end += 1;
    }
    let text = rest.substring_char(0, end);
    let tail = rest.substring_char(end, chars.len());
    let segment = match class {
        Char::Alphabetic => Segment::Alphabetic(text),
        Char::NumericWest => Segment::Numeric(text),
        Char::NumericFullWidth => Segment::Numeric(text),
        Char::Exception => Segment::Exception(text),
        Char::Other => Segment::Other(text),
        Char::Kanji => Segment::Kanji(text),
        Char::Kana => Segment::Kana(text),
    };
    Some((segment, tail))
}

/// Iterator over a word's sequences of kanji and kana.
/// Differs from `FineSegmentation` in that sequences of kanji are considered single segments.
#[derive(Debug, PartialEq, Eq, PartialOrd, Ord, Hash)]
pub struct CoarseSegmentation<'a> {
    rest: &'a str,
}

impl<'a> View for CoarseSegmentation<'a> {
    type V = Seq<char>;

    /// The text that has not been handed out yet.
    closed spec fn view(&self) -> Seq<char> {
        self.rest@
    }
}

impl<'a> Clone for CoarseSegmentation<'a> {
    /// Copies the segmentation where it stands: the copy hands out the same segments from
    /// here on.
    fn clone(&self) -> (copy: Self)
        ensures
            copy@ == self@,
    {
        Self { rest: self.rest }
    }
}

impl<'a> CoarseSegmentation<'a> {
    /// Starts to segment `word`.
    pub fn new(word: &'a str) -> (segmentation: Self)
        ensures
            segmentation@ == word@,
    {
        Self { rest: word }
    }

    /// Hands out the next segment, or `None` when the word is used up.
    pub fn next(&mut self) -> (segment: Option<Segment<'a>>)
        ensures
            old(self)@.len() == 0 ==> segment is None && final(self)@ == old(self)@,
            old(self)@.len() > 0 ==> (segment matches Some(s) && s@ == first_segment(
                old(self)@,
                false,
            ) && final(self)@ == old(self)@.skip(first_segment_len(old(self)@, false))),
    {
        match split_first(self.rest, false) {
            Some((segment, tail)) => {
                self.rest = tail;
                Some(segment)
            },
            None => None,
        }
    }

    /// Hands out all the segments that are left.
    pub fn collect(self) -> (segments: Vec<Segment<'a>>)
        ensures
            segment_views(segments@) == segments_of(self@, false),
    {
        collect_segments(self.rest, false)
    }
}

/// Iterator over a word's kanji and sequences of kana.
/// Differs from `CoarseSegmentation` in that each kanji is its own segment.
#[derive(Debug, PartialEq, Eq, PartialOrd, Ord, Hash)]
pub struct FineSegmentation<'a> {
    rest: &'a str,
}

impl<'a> View for FineSegmentation<'a> {
    type V = Seq<char>;

    /// The text that has not been handed out yet.
    closed spec fn view(&self) -> Seq<char> {
        self.rest@
    }
}

impl<'a> Clone for FineSegmentation<'a> {
    /// Copies the segmentation where it stands: the copy hands out the same segments from
    /// here on.
    fn clone(&self) -> (copy: Self)
        ensures
            copy@ == self@,
    {
        Self { rest: self.rest }
    }
}

impl<'a> FineSegmentation<'a> {
    /// Starts to segment `word`.
    pub fn new(word: &'a str) -> (segmentation: Self)
        ensures
            segmentation@ == word@,
    {
        Self { rest: word }
    }

    /// Hands out the next segment, or `None` when the word is used up.
    pub fn next(&mut self) -> (segment: Option<Segment<'a>>)
        ensures
            old(self)@.len() == 0 ==> segment is None && final(self)@ == old(self)@,
            old(self)@.len() > 0 ==> (segment matches Some(s) && s@ == first_segment(
                old(self)@,
                true,
            ) && final(self)@ == old(self)@.skip(first_segment_len(old(self)@, true))),
    {
        match split_first(self.rest, true) {
            Some((segment, tail)) => {
                self.rest = tail;
                Some(segment)
            },
            None => None,
        }
    }

    /// Hands out all the segments that are left.
    pub fn collect(self) -> (segments: Vec<Segment<'a>>)
        ensures
            segment_views(segments@) == segments_of(self@, true),
    {
        collect_segments(self.rest, true)
    }
}

/// Cuts a text into its segments.
fn collect_segments<'a>(text: &'a str, fine: bool) -> (segments: Vec<Segment<'a>>)
    ensures
        segment_views(segments@) == segments_of(text@, fine),
{
    let mut segments: Vec<Segment<'a>> = Vec::new();
    let mut rest = text;
    loop
        invariant
            segment_views(segments@) + segments_of(rest@, fine) == segments_of(text@, fine),
        ensures
            segment_views(segments@) == segments_of(text@, fine),
        decreases rest@.len(),
    {
        match split_first(rest, fine) {
            Some((segment, tail)) => {
                proof {
                    let before = segment_views(segments@);
                    let after = segment_views(segments@.push(segment));
                    assert(after =~= before.push(segment@));
                    assert(before.push(segment@) + segments_of(tail@, fine) =~= before
                        + segments_of(rest@, fine));
                }
                segments.push(segment);
                rest = tail;
            },
            None => {
                assert(segment_views(segments@) + segments_of(rest@, fine) =~= segment_views(
                    segments@,
                ));
                break ;
            },
        }
    }
    segments
}

} // verus!
