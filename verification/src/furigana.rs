//! The results of a mapping: the tree of alignments and the flat list made from it.

use vstd::prelude::*;
use crate::equivalence::{kana_equivalent, kana_equivalent_spec};
use crate::segmentation::{Segment, SegmentView};

verus! {

/// A mapping of furigana to a word.
#[derive(Debug, PartialEq, Eq, PartialOrd, Ord, Hash)]
pub struct Furigana<'a> {
    /// The word, piece by piece, with its furigana.
    pub furigana: Vec<FuriganaSegment<'a>>,
    /// A rough relative measure of this mapping's accuracy, the higher the more accurate.
    /// Only meaningful in comparison with other configurations for the same word.
    pub accuracy: i32,
}

/// A piece of a word with the furigana to write over it.
#[derive(Debug, Clone, Copy, PartialEq, Eq, PartialOrd, Ord, Hash)]
pub struct FuriganaSegment<'a> {
    /// A segment of the word.
    pub segment: &'a str,
    /// The furigana corresponding to the segment, if any.
    pub furigana: Option<&'a str>,
}

/// Every way to map a reading to a word, as a tree: the alternatives for the first segment,
/// each with the alternatives for what follows it.
#[derive(Debug, PartialEq, Eq, PartialOrd, Ord, Hash)]
pub struct FuriganaTree<'a> {
    pub text: &'a str,
    pub reading: &'a str,
    pub nodes: Vec<FuriganaNode<'a>>,
}

/// One segment of a word with one reading for it, and the ways to go on from there.
#[derive(Debug, PartialEq, Eq, PartialOrd, Ord, Hash)]
pub struct FuriganaNode<'a> {
    /// The segment of the word that the node stands for.
    pub segment: Segment<'a>,
    /// The reading of the segment.
    pub reading: &'a str,
    /// Possible ways to continue after this point.
    pub extensions: Vec<FuriganaNode<'a>>,
    /// The accuracy of this reading according to known kanji readings. None when inapplicable,
    /// such as for kana segments.
    pub kanji_accurate: Option<KanjiAccuracy>,
}

/// The accuracy of a given reading for a kanji.
#[derive(Debug, Clone, Copy, PartialEq, Eq, PartialOrd, Ord, Hash, Structural)]
pub enum KanjiAccuracy {
    Accurate,
    AccurateWithRendaku,
    AccurateWithSokuonbin,
    Inaccurate,
}

/// A piece of the word and the reading written over it, if one is needed.
pub ghost struct FuriganaSegmentView {
    pub segment: Seq<char>,
    pub furigana: Option<Seq<char>>,
}

/// One way to read the whole word, with its score.
pub ghost struct FuriganaView {
    pub furigana: Seq<FuriganaSegmentView>,
    pub accuracy: int,
}

/// A node of the tree of alignments: a segment, the reading given to it, and the ways to go on.
pub ghost struct NodeView {
    pub segment: SegmentView,
    pub reading: Seq<char>,
    pub extensions: Seq<NodeView>,
    pub kanji_accurate: Option<KanjiAccuracy>,
}

impl<'a> View for FuriganaSegment<'a> {
    type V = FuriganaSegmentView;

    open spec fn view(&self) -> FuriganaSegmentView {
        FuriganaSegmentView {
            segment: self.segment@,
            furigana: match self.furigana {
                Some(reading) => Some(reading@),
                None => None,
            },
        }
    }
}

impl<'a> View for Furigana<'a> {
    type V = FuriganaView;

    open spec fn view(&self) -> FuriganaView {
        FuriganaView {
            furigana: self.furigana@.map_values(|segment: FuriganaSegment| segment@),
            accuracy: self.accuracy as int,
        }
    }
}

/// The views of a list of results.
pub open spec fn furigana_views(list: Seq<Furigana>) -> Seq<FuriganaView> {
    list.map_values(|furigana: Furigana| furigana@)
}

/// The view of a node, children included.
pub open spec fn node_view(node: FuriganaNode) -> NodeView
    decreases node,
{
    NodeView {
        segment: node.segment@,
        reading: node.reading@,
        extensions: Seq::new(
            node.extensions.len() as nat,
            |i: int|
                if 0 <= i < node.extensions.len() {
                    node_view(node.extensions[i])
                } else {
                    arbitrary()
                },
        ),
        kanji_accurate: node.kanji_accurate,
    }
}

/// The views of a list of nodes.
pub open spec fn forest_view(nodes: Seq<FuriganaNode>) -> Seq<NodeView> {
    nodes.map_values(|node: FuriganaNode| node_view(node))
}

impl<'a> View for FuriganaNode<'a> {
    type V = NodeView;

    open spec fn view(&self) -> NodeView {
        node_view(*self)
    }
}

impl<'a> View for FuriganaTree<'a> {
    type V = Seq<NodeView>;

    /// The alignments that the tree holds.
    open spec fn view(&self) -> Seq<NodeView> {
        forest_view(self.nodes@)
    }
}

/// The children of a node's view are the views of its children.
pub proof fn lemma_extensions_view(node: FuriganaNode)
    ensures
        node@.extensions == forest_view(node.extensions@),
{
    assert(node@.extensions =~= forest_view(node.extensions@));
}

impl<'a> Clone for Furigana<'a> {
    /// Copies the mapping, piece by piece.
    fn clone(&self) -> (copy: Self)
        ensures
            copy@ == self@,
    {
        let mut furigana: Vec<FuriganaSegment<'a>> = Vec::new();
        let mut i: usize = 0;
        while i < self.furigana.len()
            invariant
                i <= self.furigana.len(),
                furigana@ == self.furigana@.take(i as int),
            decreases self.furigana.len() - i,
        {
            furigana.push(self.furigana[i]);
            assert(self.furigana@.take(i + 1) =~= self.furigana@.take(i as int).push(
                self.furigana@[i as int],
            ));
            i += 1;
        }
        assert(self.furigana@.take(self.furigana.len() as int) =~= self.furigana@);
        Furigana { furigana, accuracy: self.accuracy }
    }
}

impl<'a> Clone for FuriganaTree<'a> {
    /// Copies the tree with all its alternatives.
    fn clone(&self) -> (copy: Self)
        ensures
            copy@ == self@,
            copy.text@ == self.text@,
            copy.reading@ == self.reading@,
    {
        let mut nodes: Vec<FuriganaNode<'a>> = Vec::new();
        let mut i: usize = 0;
        while i < self.nodes.len()
            invariant
                i <= self.nodes.len(),
                nodes.len() == i,
                forall|j: int| 0 <= j < i ==> nodes[j]@ == self.nodes[j]@,
            decreases self.nodes.len() - i,
        {
            nodes.push(self.nodes[i].clone());
            i += 1;
        }
        let copy = FuriganaTree { text: self.text, reading: self.reading, nodes };
        assert(copy@ =~= self@);
        copy
    }
}

impl<'a> Clone for FuriganaNode<'a> {
    /// Copies the node with everything below it.
    fn clone(&self) -> (copy: Self)
        ensures
            copy@ == self@,
        decreases self,
    {
        let mut extensions: Vec<FuriganaNode<'a>> = Vec::new();
        let mut i: usize = 0;
        while i < self.extensions.len()
            invariant
                i <= self.extensions.len(),
                extensions.len() == i,
                forall|j: int| 0 <= j < i ==> extensions[j]@ == self.extensions[j]@,
            decreases self.extensions.len() - i,
        {
            extensions.push(self.extensions[i].clone());
            i += 1;
        }
        let copy = FuriganaNode {
            segment: self.segment,
            reading: self.reading,
            extensions,
            kanji_accurate: self.kanji_accurate,
        };
        assert(copy@.extensions =~= self@.extensions);
        copy
    }
}

/// What a grade adds to the score of a mapping.
pub open spec fn score(grade: Option<KanjiAccuracy>) -> int {
    match grade {
        Some(KanjiAccuracy::Accurate) => 2,
        Some(KanjiAccuracy::AccurateWithRendaku) => 1,
        Some(KanjiAccuracy::AccurateWithSokuonbin) => 1,
        Some(KanjiAccuracy::Inaccurate) => -2,
        None => 0,
    }
}

/// The piece that a node stands for: its text, and its reading unless the text already is
/// that reading in kana.
pub open spec fn annotation(node: NodeView) -> FuriganaSegmentView {
    FuriganaSegmentView {
        segment: node.segment.text,
        furigana: if kana_equivalent_spec(node.segment.text, node.reading) {
            None
        } else {
            Some(node.reading)
        },
    }
}

/// The mapping `rest` with the piece `head` put in front and `gain` added to its score.
pub open spec fn prepend(head: FuriganaSegmentView, gain: int, rest: FuriganaView) -> FuriganaView {
    FuriganaView { furigana: seq![head] + rest.furigana, accuracy: gain + rest.accuracy }
}

/// The mappings that begin with `node`: the node alone where nothing follows it, else the node
/// in front of each mapping of its continuations, in their order.
pub open spec fn flatten_node(node: NodeView) -> Seq<FuriganaView>
    decreases node,
{
    if node.extensions.len() == 0 {
        seq![
            FuriganaView { furigana: seq![annotation(node)], accuracy: score(node.kanji_accurate) },
        ]
    } else {
        flatten(node.extensions).map_values(
            |rest: FuriganaView| prepend(annotation(node), score(node.kanji_accurate), rest),
        )
    }
}

/// The mappings of a list of alternatives: those of each node, one node after the other.
pub open spec fn flatten(forest: Seq<NodeView>) -> Seq<FuriganaView>
    decreases forest,
{
    if forest.len() == 0 {
        Seq::empty()
    } else {
        flatten(forest.drop_last()) + flatten_node(forest.last())
    }
}

/// The number of nodes on the longest way down a list of alternatives.
pub open spec fn height(forest: Seq<NodeView>) -> nat
    decreases forest,
{
    if forest.len() == 0 {
        0
    } else {
        let before = height(forest.drop_last());
        let last = 1 + height(forest.last().extensions);
        if before >= last {
            before
        } else {
            last
        }
    }
}

/// The alternatives of a list with one more at its end flatten to those of the list, then
/// those of the new one.
pub proof fn lemma_flatten_push(earlier: Seq<NodeView>, node: NodeView)
    ensures
        flatten(earlier.push(node)) == flatten(earlier) + flatten_node(node),
        height(earlier.push(node)) == if height(earlier) >= 1 + height(node.extensions) {
            height(earlier)
        } else {
            1 + height(node.extensions)
        },
{
    assert(earlier.push(node).drop_last() =~= earlier);
    assert(earlier.push(node).last() == node);
}

/// A single node flattens to its own mappings.
pub proof fn lemma_flatten_single(node: NodeView)
    ensures
        flatten(seq![node]) == flatten_node(node),
        height(seq![node]) == 1 + height(node.extensions),
{
    assert(seq![node] =~= Seq::<NodeView>::empty().push(node));
    lemma_flatten_push(Seq::empty(), node);
    assert(flatten(Seq::<NodeView>::empty()) + flatten_node(node) =~= flatten_node(node));
}

/// Alternatives always flatten to at least one mapping.
pub proof fn lemma_flatten_nonempty(forest: Seq<NodeView>)
    requires
        forest.len() > 0,
    ensures
        flatten(forest).len() > 0,
    decreases forest,
{
    let node = forest.last();
    if node.extensions.len() > 0 {
        lemma_flatten_nonempty(node.extensions);
    }
    assert(flatten_node(node).len() > 0);
}

/// The deepest tree whose scores are sure to fit the score's type.
pub const MAX_HEIGHT: usize = 0x3fff_ffff;

/// Each node is no deeper than the list it stands in.
pub proof fn lemma_height_of_member(forest: Seq<NodeView>, i: int)
    requires
        0 <= i < forest.len(),
    ensures
        1 + height(forest[i].extensions) <= height(forest),
    decreases forest.len(),
{
    if i < forest.len() - 1 {
        lemma_height_of_member(forest.drop_last(), i);
    }
}

/// A score is at most two for each node on the way, up or down.
pub proof fn lemma_score_bounds(forest: Seq<NodeView>, i: int)
    requires
        0 <= i < flatten(forest).len(),
    ensures
        -2 * height(forest) <= flatten(forest)[i].accuracy <= 2 * height(forest),
    decreases forest,
{
    let before = flatten(forest.drop_last());
    let node = forest.last();
    assert(flatten(forest) == before + flatten_node(node));
    if i < before.len() {
        lemma_score_bounds(forest.drop_last(), i);
    } else {
        let j = i - before.len();
        assert(flatten(forest)[i] == flatten_node(node)[j]);
        if node.extensions.len() > 0 {
            assert(flatten_node(node).len() == flatten(node.extensions).len());
            lemma_score_bounds(node.extensions, j);
        }
    }
}

/// Checks that no way down a list of alternatives is longer than `limit` nodes.
pub fn is_within_height<'a>(nodes: &Vec<FuriganaNode<'a>>, limit: usize) -> (within: bool)
    ensures
        within == (height(forest_view(nodes@)) <= limit),
    decreases nodes,
{
    let ghost forest = forest_view(nodes@);
    let mut n: usize = 0;
    while n < nodes.len()
        invariant
            n <= nodes.len(),
            forest == forest_view(nodes@),
            height(forest.take(n as int)) <= limit,
        decreases nodes.len() - n,
    {
        let node = &nodes[n];
        proof {
            lemma_extensions_view(*node);
            lemma_height_of_member(forest, n as int);
            assert(forest.take(n + 1).drop_last() =~= forest.take(n as int));
            assert(forest.take(n + 1).last() == node@);
        }
        if limit == 0 || !is_within_height(&node.extensions, limit - 1) {
            return false;
        }
        n += 1;
    }
    assert(forest.take(nodes.len() as int) =~= forest);
    true
}

impl<'a> FuriganaTree<'a> {
    /// Checks that the tree is shallow enough to be flattened: that the scores of its mappings
    /// are sure to fit the score's type.
    pub fn can_be_flattened(&self) -> (shallow: bool)
        ensures
            shallow == (height(self@) <= MAX_HEIGHT),
    {
        is_within_height(&self.nodes, MAX_HEIGHT)
    }
}

impl<'a> Furigana<'a> {
    /// Flattens `FuriganaNode`s to a list of `Furigana`.
    pub fn from_tree(tree: &FuriganaTree<'a>) -> (list: Vec<Self>)
        requires
            height(tree@) <= MAX_HEIGHT,
        ensures
            furigana_views(list@) == flatten(tree@),
    {
        Self::from_tree_inner(&tree.nodes)
    }

    /// Flattens a tree of any height: `None` is handed back for a tree so deep that the score
    /// of a mapping might not fit its type.
    pub fn try_from_tree(tree: &FuriganaTree<'a>) -> (list: Option<Vec<Self>>)
        ensures
            match list {
                Some(list) => height(tree@) <= MAX_HEIGHT && furigana_views(list@) == flatten(tree@),
                None => height(tree@) > MAX_HEIGHT,
            },
    {
        if tree.can_be_flattened() {
            Some(Self::from_tree(tree))
        } else {
            None
        }
    }

    /// Flattens a list of alternatives.
    pub fn from_tree_inner(nodes: &Vec<FuriganaNode<'a>>) -> (list: Vec<Self>)
        requires
            height(forest_view(nodes@)) <= MAX_HEIGHT,
        ensures
            furigana_views(list@) == flatten(forest_view(nodes@)),
        decreases nodes,
    {
        let ghost forest = forest_view(nodes@);
        let mut furigana: Vec<Furigana<'a>> = Vec::new();
        let mut n: usize = 0;
        while n < nodes.len()
            invariant
                n <= nodes.len(),
                forest == forest_view(nodes@),
                height(forest) <= MAX_HEIGHT,
                furigana_views(furigana@) == flatten(forest.take(n as int)),
            decreases nodes.len() - n,
        {
            let node = &nodes[n];
            let ghost before = furigana_views(furigana@);
            proof {
                lemma_extensions_view(*node);
                lemma_height_of_member(forest, n as int);
                assert(forest.take(n + 1).drop_last() =~= forest.take(n as int));
                assert(forest.take(n + 1).last() == node@);
            }
            let word = node.segment.inner();
            let reading = if kana_equivalent(word, node.reading) {
                // no need for furigana here
                None
            } else {
                Some(node.reading)
            };
            let head = FuriganaSegment { segment: word, furigana: reading };
            let kanji_accuracy: i32 = match &node.kanji_accurate {
                Some(KanjiAccuracy::Accurate) => 2,
                Some(KanjiAccuracy::AccurateWithRendaku) => 1,
                Some(KanjiAccuracy::AccurateWithSokuonbin) => 1,
                Some(KanjiAccuracy::Inaccurate) => -2,
                None => 0,
            };
            assert(head@ == annotation(node@));
            assert(kanji_accuracy == score(node@.kanji_accurate));
            if node.extensions.len() == 0 {
                let mut ruby: Vec<FuriganaSegment<'a>> = Vec::new();
                ruby.push(head);
                let single = Furigana { furigana: ruby, accuracy: kanji_accuracy };
                proof {
                    assert(single@.furigana =~= seq![annotation(node@)]);
                    assert(furigana_views(furigana@.push(single)) =~= before + flatten_node(node@));
                }
                furigana.push(single);
            } else {
                let flattened = Self::from_tree_inner(&node.extensions);
                let ghost tails = flatten(node@.extensions);
                let mut k: usize = 0;
                while k < flattened.len()
                    invariant
                        k <= flattened.len(),
                        furigana_views(flattened@) == tails,
                        tails == flatten(node@.extensions),
                        height(node@.extensions) < MAX_HEIGHT,
                        head@ == annotation(node@),
                        kanji_accuracy == score(node@.kanji_accurate),
                        -2 <= kanji_accuracy <= 2,
                        furigana_views(furigana@) == before + flatten_node(node@).take(k as int),
                        node@.extensions.len() > 0,
                    decreases flattened.len() - k,
                {
                    let tail = &flattened[k];
                    proof {
                        lemma_score_bounds(node@.extensions, k as int);
                        assert(tail@ == tails[k as int]);
                    }
                    let mut ruby: Vec<FuriganaSegment<'a>> = Vec::new();
                    ruby.push(head);
                    let mut j: usize = 0;
                    while j < tail.furigana.len()
                        invariant
                            j <= tail.furigana.len(),
                            ruby@.len() == j + 1,
                            ruby@[0] == head,
                            forall|m: int| 0 <= m < j ==> ruby@[m + 1] == tail.furigana@[m],
                        decreases tail.furigana.len() - j,
                    {
                        ruby.push(tail.furigana[j]);
                        j += 1;
                    }
                    let joined = Furigana {
                        furigana: ruby,
                        accuracy: kanji_accuracy + tail.accuracy,
                    };
                    proof {
                        let expected = prepend(annotation(node@), score(node@.kanji_accurate), tail@);
                        assert(joined@.furigana =~= expected.furigana);
                        assert(joined@ == expected);
                        assert(flatten_node(node@)[k as int] == expected);
                        assert(flatten_node(node@).take(k + 1) =~= flatten_node(node@).take(
                            k as int,
                        ).push(expected));
                        assert(furigana_views(furigana@.push(joined)) =~= furigana_views(
                            furigana@,
                        ).push(joined@));
                    }
                    furigana.push(joined);
                    k += 1;
                }
                assert(flatten_node(node@).take(flattened.len() as int) =~= flatten_node(node@));
            }
            n += 1;
        }
        assert(forest.take(nodes.len() as int) =~= forest);
        furigana
    }
}

} // verus!
