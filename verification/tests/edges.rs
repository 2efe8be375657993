use furigana::furigana::{
    is_within_height, Furigana, FuriganaNode, FuriganaSegment, FuriganaTree, KanjiAccuracy,
};
use furigana::map_naive;
use furigana::segmentation::{CoarseSegmentation, FineSegmentation, Segment};
use std::collections::HashMap;

fn plain(list: Vec<Furigana<'_>>) -> Vec<(i32, Vec<(&str, Option<&str>)>)> {
    list.into_iter()
        .map(|mapping| {
            (
                mapping.accuracy,
                mapping
                    .furigana
                    .into_iter()
                    .map(|piece| (piece.segment, piece.furigana))
                    .collect(),
            )
        })
        .collect()
}

fn dictionary(entries: &[(&str, &[&str])]) -> HashMap<String, Vec<String>> {
    let mut table = HashMap::new();
    for (kanji, readings) in entries {
        table.insert(
            kanji.to_string(),
            readings.iter().map(|reading| reading.to_string()).collect(),
        );
    }
    table
}

#[test]
fn empty_text_counts_as_kana() {
    assert_eq!(plain(map_naive("", "")), vec![(1, vec![("", None)])]);
    assert_eq!(plain(map_naive("", "あ")), vec![(1, vec![("", None)])]);
}

#[test]
fn single_character_takes_the_whole_reading() {
    assert_eq!(plain(map_naive("日", "にち")), vec![(1, vec![("日", Some("にち"))])]);
    assert_eq!(plain(map_naive("日", "")), vec![(1, vec![("日", Some(""))])]);
    assert_eq!(plain(map_naive("A", "えー")), vec![(1, vec![("A", Some("えー"))])]);
    assert_eq!(plain(map_naive("々", "x")), vec![(1, vec![("々", Some("x"))])]);
    assert_eq!(plain(map_naive("あ", "い")), vec![(1, vec![("あ", None)])]);
}

#[test]
fn kanji_run_takes_every_split() {
    assert_eq!(plain(map_naive("日本", "にほん")), vec![(0, vec![("日本", Some("にほん"))])]);
    let list = plain(furigana::map("日本", "にほん", &HashMap::new()));
    assert_eq!(
        list,
        vec![
            (0, vec![("日", Some("に")), ("本", Some("ほん"))]),
            (0, vec![("日", Some("にほ")), ("本", Some("ん"))]),
        ]
    );
}

#[test]
fn candidates_come_in_rising_length() {
    let table = dictionary(&[("日", &["に", "にち"]), ("本", &["ほん"])]);
    let list = plain(furigana::map("日本", "にっぽん", &table));
    assert_eq!(
        list,
        vec![
            (0, vec![("日", Some("に")), ("本", Some("っぽん"))]),
            (2, vec![("日", Some("にっ")), ("本", Some("ぽん"))]),
            (-4, vec![("日", Some("にっぽ")), ("本", Some("ん"))]),
        ]
    );
}

#[test]
fn kanji_without_entry_gets_no_grade() {
    let table = dictionary(&[("日", &["に"])]);
    let list = plain(furigana::map("日本", "にほん", &table));
    assert_eq!(
        list,
        vec![
            (2, vec![("日", Some("に")), ("本", Some("ほん"))]),
            (-2, vec![("日", Some("にほ")), ("本", Some("ん"))]),
        ]
    );
}

#[test]
fn first_kanji_cannot_be_voiced() {
    let table = dictionary(&[("火", &["ひ"]), ("花", &["はな"])]);
    let list = plain(furigana::map("火花", "びばな", &table));
    assert!(list.contains(&(-1, vec![("火", Some("び")), ("花", Some("ばな"))])));
}

#[test]
fn last_kanji_cannot_be_doubled() {
    let table = dictionary(&[("格", &["かく"]), ("好", &["こく"])]);
    let list = plain(furigana::map("格好", "かっこっ", &table));
    assert!(list.contains(&(-1, vec![("格", Some("かっ")), ("好", Some("こっ"))])));
}

#[test]
fn ten_has_its_own_reading() {
    assert_eq!(
        plain(map_naive("10日", "とおか")),
        vec![(2, vec![("10", Some("とお")), ("日", Some("か"))])]
    );
    assert_eq!(
        plain(map_naive("１０日", "とおか")),
        vec![(2, vec![("１０", Some("とお")), ("日", Some("か"))])]
    );
}

#[test]
fn ten_is_read_digit_by_digit_otherwise() {
    assert_eq!(
        plain(map_naive("10日", "じゅうにち")),
        vec![(0, vec![("10", Some("じゅう")), ("日", Some("にち"))])]
    );
    assert_eq!(
        plain(map_naive("１０日", "じゅうにち")),
        vec![(0, vec![("１０", Some("じゅう")), ("日", Some("にち"))])]
    );
    assert!(map_naive("10日", "a").is_empty());
}

#[test]
fn zero_may_stay_silent() {
    assert_eq!(plain(map_naive("105", "ひゃくご")), vec![(0, vec![("105", Some("ひゃくご"))])]);
    assert_eq!(plain(map_naive("100", "ひゃく")), vec![(0, vec![("100", Some("ひゃく"))])]);
    assert_eq!(
        plain(map_naive("100人", "いっぴゃくにん")),
        vec![(0, vec![("100", Some("いっぴゃく")), ("人", Some("にん"))])]
    );
    assert_eq!(plain(map_naive("10", "じゅうれい")), vec![(0, vec![("10", Some("じゅうれい"))])]);
}

#[test]
fn other_digits_must_be_read() {
    assert!(map_naive("15", "じゅう").is_empty());
    assert!(map_naive("15", "ご").is_empty());
    assert!(map_naive("123", "にじゅうさん").is_empty());
    assert!(map_naive("20日", "はつか").is_empty());
}

#[test]
fn leading_zero_may_stay_silent() {
    assert_eq!(plain(map_naive("05", "ご")), vec![(0, vec![("05", Some("ご"))])]);
    assert_eq!(plain(map_naive("００７", "なな")), vec![(0, vec![("００７", Some("なな"))])]);
    assert_eq!(plain(map_naive("00", "ぜろ")), vec![(0, vec![("00", Some("ぜろ"))])]);
    assert_eq!(plain(map_naive("00", "れいぜろ")), vec![(0, vec![("00", Some("れいぜろ"))])]);
}

#[test]
fn number_takes_at_least_one_character() {
    assert!(map_naive("0日", "にち").is_empty());
    assert!(map_naive("00", "").is_empty());
}

#[test]
fn every_reading_of_a_number_is_tried() {
    assert_eq!(
        plain(map_naive("4日", "よっか")),
        vec![
            (0, vec![("4", Some("よっ")), ("日", Some("か"))]),
            (0, vec![("4", Some("よ")), ("日", Some("っか"))]),
        ]
    );
    assert_eq!(
        plain(map_naive("4に", "よっに")),
        vec![(0, vec![("4", Some("よっ")), ("に", None)])]
    );
}

#[test]
fn kana_are_read_with_the_lengthening_mark_for_a_vowel() {
    assert_eq!(
        plain(map_naive("コーヒー豆", "こおひいまめ")),
        vec![(0, vec![("コーヒー", None), ("豆", Some("まめ"))])]
    );
    assert_eq!(
        plain(map_naive("母さん", "かーさん")),
        vec![(0, vec![("母", Some("かー")), ("さん", None)])]
    );
    assert_eq!(
        plain(map_naive("お婆ああ", "おばあー")),
        vec![(0, vec![("お", None), ("婆", Some("ば")), ("ああ", None)])]
    );
    assert!(map_naive("コーヒー豆", "こうひいまめ").is_empty());
}

#[test]
fn letters_are_read_with_a_long_vowel_written_out() {
    assert_eq!(
        plain(map_naive("Aさん", "ええさん")),
        vec![(0, vec![("A", Some("ええ")), ("さん", None)])]
    );
    assert_eq!(
        plain(map_naive("Cさん", "しいさん")),
        vec![(0, vec![("C", Some("しい")), ("さん", None)])]
    );
    assert!(map_naive("Cさん", "しあさん").is_empty());
}

#[test]
fn dictionary_reading_with_a_long_vowel_counts_as_accurate() {
    let table = dictionary(&[("母", &["かあ"]), ("空", &["そら"])]);
    assert_eq!(
        plain(furigana::map("母空", "カーそら", &table)),
        vec![
            (-4, vec![("母", Some("カ")), ("空", Some("ーそら"))]),
            (4, vec![("母", Some("カー")), ("空", Some("そら"))]),
            (-4, vec![("母", Some("カーそ")), ("空", Some("ら"))]),
        ]
    );
}

#[test]
fn counter_mark_is_read_ka() {
    assert_eq!(
        plain(map_naive("三ヶ日", "さんかにち")),
        vec![
            (0, vec![("三", Some("さん")), ("ヶ", Some("か")), ("日", Some("にち"))]),
        ]
    );
    assert!(map_naive("三ヶ日", "さんがにち").is_empty());
    assert!(map_naive("三ヶ日", "さんカにち").is_empty());
}

#[test]
fn counter_mark_hands_the_kanji_on() {
    let table = dictionary(&[("日", &["ひ"])]);
    assert_eq!(
        plain(furigana::map("日ヶ々", "ひかび", &table)),
        vec![(3, vec![("日", Some("ひ")), ("ヶ", Some("か")), ("々", Some("び"))])]
    );
}

#[test]
fn repeat_mark_needs_a_kanji_before_it() {
    assert!(map_naive("々人", "ひとびと").is_empty());
    assert!(map_naive("の々", "のの").is_empty());
    assert!(furigana::map("の々", "のの", &HashMap::new()).is_empty());
}

#[test]
fn repeat_mark_with_nothing_to_follow_it_fails() {
    let table = dictionary(&[("日", &["ひ"])]);
    assert!(furigana::map("日々の", "ひび", &table).is_empty());
}

#[test]
fn other_characters_cannot_be_read() {
    assert!(map_naive("日!", "にち!").is_empty());
    assert!(map_naive("日 本", "に ほん").is_empty());
}

#[test]
fn letters_are_spelled_whatever_case_and_width() {
    for text in ["Tシャツ", "tシャツ", "Ｔシャツ", "ｔシャツ"] {
        let segment = &text[..text.len() - "シャツ".len()];
        assert_eq!(
            plain(map_naive(text, "ティーシャツ")),
            vec![(0, vec![(segment, Some("ティー")), ("シャツ", None)])]
        );
    }
    assert!(map_naive("Tシャツ", "テーシャツ").is_empty());
    assert!(map_naive("Tシャツ", "ティ").is_empty());
}

#[test]
fn letter_takes_its_part_of_the_reading() {
    assert_eq!(
        plain(map_naive("Tシャツ", "てぃーしゃつ")),
        vec![(0, vec![("T", Some("てぃー")), ("シャツ", None)])]
    );
}

#[test]
fn letter_without_a_spelling_cannot_be_read() {
    assert!(map_naive("ｱ日", "あにち").is_empty());
}

#[test]
fn idiom_is_read_as_a_whole() {
    let table = dictionary(&[("大", &["おお"]), ("人", &["ひと"])]);
    assert_eq!(
        plain(furigana::map("大人しい", "おとなしい", &table)),
        vec![(2, vec![("大人", Some("おとな")), ("しい", None)])]
    );
    assert_eq!(plain(map_naive("大人", "おとな")), vec![(0, vec![("大人", Some("おとな"))])]);
}

#[test]
fn idiom_keeps_its_first_kanji() {
    assert!(furigana::map("大日", "おとなひ", &HashMap::new()).is_empty());
    assert!(map_naive("大の", "おとなの").is_empty());
    assert!(furigana::map("大人の", "おとな", &HashMap::new()).is_empty());
}

#[test]
fn idiom_needs_its_reading() {
    let list = plain(furigana::map("大人", "だいにん", &HashMap::new()));
    assert_eq!(
        list,
        vec![
            (0, vec![("大", Some("だ")), ("人", Some("いにん"))]),
            (0, vec![("大", Some("だい")), ("人", Some("にん"))]),
            (0, vec![("大", Some("だいに")), ("人", Some("ん"))]),
        ]
    );
}

#[test]
fn coarse_segments_join_kanji_with_the_repeat_mark() {
    let segments = CoarseSegmentation::new("人々の時々").collect();
    assert_eq!(
        segments,
        vec![Segment::Kanji("人々"), Segment::Kana("の"), Segment::Kanji("時々")]
    );
    let segments = CoarseSegmentation::new("々人").collect();
    assert_eq!(segments, vec![Segment::Other("々"), Segment::Kanji("人")]);
}

#[test]
fn fine_segments_keep_each_kanji_apart() {
    let segments = FineSegmentation::new("人々の時々").collect();
    assert_eq!(
        segments,
        vec![
            Segment::Kanji("人"),
            Segment::Other("々"),
            Segment::Kana("の"),
            Segment::Kanji("時"),
            Segment::Other("々"),
        ]
    );
}

#[test]
fn counter_mark_stands_alone() {
    let expected = vec![
        Segment::Kana("か"),
        Segment::Exception("ヶ"),
        Segment::Exception("ヶ"),
        Segment::Kanji("月"),
        Segment::Kana("カ"),
    ];
    assert_eq!(CoarseSegmentation::new("かヶヶ月カ").collect(), expected);
    assert_eq!(FineSegmentation::new("かヶヶ月カ").collect(), expected);
}

#[test]
fn letters_and_other_characters_stand_alone() {
    let expected = vec![
        Segment::Alphabetic("a"),
        Segment::Alphabetic("Ｂ"),
        Segment::Other("!"),
        Segment::Other("!"),
        Segment::Numeric("12３"),
        Segment::Other(" "),
    ];
    assert_eq!(CoarseSegmentation::new("aＢ!!12３ ").collect(), expected);
    assert_eq!(FineSegmentation::new("aＢ!!12３ ").collect(), expected);
}

#[test]
fn segments_join_to_the_text() {
    for text in ["物の怪", "CDプレイヤー", "あ1234い１２３４う", "かヶ月々!?", ""] {
        let coarse: String = CoarseSegmentation::new(text)
            .collect()
            .into_iter()
            .map(Segment::inner)
            .collect();
        assert_eq!(coarse, text);
        let fine: String =
            FineSegmentation::new(text).collect().into_iter().map(Segment::inner).collect();
        assert_eq!(fine, text);
    }
}

#[test]
fn segmentation_ends_with_none() {
    let mut segments = CoarseSegmentation::new("");
    assert!(segments.next().is_none());
    assert!(segments.next().is_none());
    let mut segments = FineSegmentation::new("日");
    assert_eq!(segments.next(), Some(Segment::Kanji("日")));
    assert!(segments.next().is_none());
    assert!(segments.next().is_none());
}

#[test]
fn inner_gives_the_text_of_every_kind() {
    assert_eq!(Segment::Kana("かな").inner(), "かな");
    assert_eq!(Segment::Kanji("漢字").inner(), "漢字");
    assert_eq!(Segment::Alphabetic("a").inner(), "a");
    assert_eq!(Segment::Numeric("12").inner(), "12");
    assert_eq!(Segment::Exception("ヶ").inner(), "ヶ");
    assert_eq!(Segment::Other("々").inner(), "々");
}

fn leaf<'a>(segment: Segment<'a>, reading: &'a str, grade: Option<KanjiAccuracy>) -> FuriganaNode<'a> {
    FuriganaNode { segment, reading, extensions: vec![], kanji_accurate: grade }
}

#[test]
fn tree_flattens_branch_by_branch() {
    let tree = FuriganaTree {
        text: "物の怪",
        reading: "もののけ",
        nodes: vec![
            FuriganaNode {
                segment: Segment::Kanji("物"),
                reading: "も",
                extensions: vec![FuriganaNode {
                    segment: Segment::Kana("の"),
                    reading: "の",
                    extensions: vec![
                        leaf(Segment::Kanji("怪"), "のけ", Some(KanjiAccuracy::Inaccurate)),
                        leaf(Segment::Kanji("怪"), "ノケ", None),
                    ],
                    kanji_accurate: None,
                }],
                kanji_accurate: Some(KanjiAccuracy::AccurateWithRendaku),
            },
            FuriganaNode {
                segment: Segment::Kanji("物"),
                reading: "もの",
                extensions: vec![FuriganaNode {
                    segment: Segment::Kana("の"),
                    reading: "ノ",
                    extensions: vec![leaf(Segment::Kanji("怪"), "け", Some(KanjiAccuracy::Accurate))],
                    kanji_accurate: None,
                }],
                kanji_accurate: Some(KanjiAccuracy::AccurateWithSokuonbin),
            },
            leaf(Segment::Kana("かな"), "カナ", Some(KanjiAccuracy::Accurate)),
        ],
    };
    assert_eq!(
        plain(Furigana::from_tree(&tree)),
        vec![
            (-1, vec![("物", Some("も")), ("の", None), ("怪", Some("のけ"))]),
            (1, vec![("物", Some("も")), ("の", None), ("怪", Some("ノケ"))]),
            (3, vec![("物", Some("もの")), ("の", None), ("怪", Some("け"))]),
            (2, vec![("かな", None)]),
        ]
    );
}

#[test]
fn height_counts_the_longest_way_down() {
    let deep = FuriganaNode {
        segment: Segment::Kanji("物"),
        reading: "もの",
        extensions: vec![
            leaf(Segment::Kana("の"), "の", None),
            FuriganaNode {
                segment: Segment::Kana("の"),
                reading: "の",
                extensions: vec![leaf(Segment::Kanji("怪"), "け", None)],
                kanji_accurate: None,
            },
        ],
        kanji_accurate: None,
    };
    let nodes = vec![leaf(Segment::Kana("かな"), "かな", None), deep];
    assert!(!is_within_height(&nodes, 0));
    assert!(!is_within_height(&nodes, 2));
    assert!(is_within_height(&nodes, 3));
    assert!(is_within_height(&nodes, 4));
    assert!(is_within_height(&vec![], 0));
    let tree = FuriganaTree { text: "物の怪", reading: "もののけ", nodes };
    assert!(tree.can_be_flattened());
}

#[test]
fn checked_calls_agree_with_the_plain_ones() {
    let table = dictionary(&[("物", &["もの"]), ("怪", &["け"])]);
    assert_eq!(furigana::try_map_naive("物の怪", "もののけ"), Some(map_naive("物の怪", "もののけ")));
    assert_eq!(
        furigana::try_map("物の怪", "もののけ", &table),
        Some(furigana::map("物の怪", "もののけ", &table))
    );
    assert_eq!(furigana::try_map_naive("日本", ""), Some(vec![]));
    let tree = FuriganaTree {
        text: "かな",
        reading: "カナ",
        nodes: vec![leaf(Segment::Kana("かな"), "カナ", None)],
    };
    assert_eq!(Furigana::try_from_tree(&tree), Some(Furigana::from_tree(&tree)));
}

#[test]
fn empty_tree_flattens_to_nothing() {
    let tree = FuriganaTree { text: "", reading: "", nodes: vec![] };
    assert!(Furigana::from_tree(&tree).is_empty());
    assert!(Furigana::from_tree_inner(&vec![]).is_empty());
}

#[test]
fn node_clone_copies_the_branches() {
    let node = FuriganaNode {
        segment: Segment::Kanji("物"),
        reading: "もの",
        extensions: vec![
            leaf(Segment::Kana("の"), "の", None),
            leaf(Segment::Kana("の"), "ノ", Some(KanjiAccuracy::Inaccurate)),
        ],
        kanji_accurate: Some(KanjiAccuracy::Accurate),
    };
    assert_eq!(node.clone(), node);
    assert_eq!(node.clone().extensions.len(), 2);
}

#[test]
fn segmentation_clone_goes_on_from_the_same_place() {
    let mut coarse = CoarseSegmentation::new("物物のの怪怪");
    assert_eq!(coarse.next(), Some(Segment::Kanji("物物")));
    let mut copy = coarse.clone();
    assert_eq!(copy, coarse);
    assert_eq!(coarse.next(), Some(Segment::Kana("のの")));
    assert_eq!(copy.next(), Some(Segment::Kana("のの")));
    assert_eq!(copy.collect(), coarse.collect());
    let mut fine = FineSegmentation::new("日々");
    let mut copy = fine.clone();
    assert_eq!(fine.next(), Some(Segment::Kanji("日")));
    assert_eq!(fine.next(), Some(Segment::Other("々")));
    assert_eq!(fine.next(), None);
    assert_eq!(copy.next(), Some(Segment::Kanji("日")));
    assert_eq!(copy.next(), Some(Segment::Other("々")));
    assert_eq!(copy.next(), None);
}

#[test]
fn mapping_and_tree_clone_copy_everything() {
    let list = map_naive("物の怪", "もののけ");
    for mapping in &list {
        assert_eq!(&mapping.clone(), mapping);
    }
    let tree = FuriganaTree {
        text: "物の",
        reading: "ものの",
        nodes: vec![FuriganaNode {
            segment: Segment::Kanji("物"),
            reading: "もの",
            extensions: vec![leaf(Segment::Kana("の"), "の", None)],
            kanji_accurate: Some(KanjiAccuracy::Accurate),
        }],
    };
    let copy = tree.clone();
    assert_eq!(copy, tree);
    assert_eq!(Furigana::from_tree(&copy), Furigana::from_tree(&tree));
}

#[test]
fn pieces_compare_by_their_fields() {
    let piece = FuriganaSegment { segment: "物", furigana: Some("もの") };
    assert_eq!(piece, FuriganaSegment { segment: "物", furigana: Some("もの") });
    assert_ne!(piece, FuriganaSegment { segment: "物", furigana: None });
}
