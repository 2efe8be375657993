use furigana::equivalence::kana_equivalent;
use furigana::furigana::Furigana;
use furigana::map_naive;
use std::collections::HashMap;

fn dictionary(entries: &[(&str, &[&str])]) -> HashMap<String, Vec<String>> {
    let mut table = HashMap::new();
    for (kanji, readings) in entries {
        table.insert(
            kanji.to_string(),
            readings.iter().map(|reading| reading.to_string()).collect(),
        );
    }
    table
}

fn samples() -> Vec<(&'static str, &'static str)> {
    vec![
        ("物の怪", "もののけ"),
        ("離れる", "ハナレル"),
        ("CDプレイヤー", "シーディープレイヤー"),
        ("一ヶ月", "いっかげつ"),
        ("12345日", "いちまんにせんさんびゃくよんじゅうごにち"),
        ("日々", "ひび"),
        ("格好", "かっこう"),
        ("花火", "はなび"),
        ("大人", "おとな"),
        ("１０日", "とおか"),
        ("4日", "よっか"),
        ("お母さん", "おかーさん"),
        ("コーヒー豆", "こおひいまめ"),
        ("Cカード", "しいかあど"),
        ("一", "いち"),
        ("かな", "カナ"),
    ]
}

fn lists(text: &'static str, reading: &'static str) -> Vec<Vec<Furigana<'static>>> {
    let table = dictionary(&[
        ("物", &["もの"]),
        ("怪", &["け"]),
        ("日", &["ひ", "び", "にち", "か"]),
        ("格", &["かく"]),
        ("好", &["こう"]),
        ("花", &["はな"]),
        ("火", &["ひ"]),
    ]);
    vec![
        map_naive(text, reading),
        furigana::map(text, reading, &HashMap::new()),
        furigana::map(text, reading, &table),
    ]
}

#[test]
fn every_mapping_spells_the_text() {
    for (text, reading) in samples() {
        for list in lists(text, reading) {
            assert!(!list.is_empty());
            for mapping in list {
                let spelled: String = mapping.furigana.iter().map(|piece| piece.segment).collect();
                assert_eq!(spelled, text);
            }
        }
    }
}

#[test]
fn every_mapping_reads_as_the_reading() {
    for (text, reading) in samples() {
        for list in lists(text, reading) {
            for mapping in list {
                let read: String = mapping
                    .furigana
                    .iter()
                    .map(|piece| piece.furigana.unwrap_or(piece.segment))
                    .collect();
                assert!(kana_equivalent(&read, reading));
                let mut rest = reading;
                for piece in &mapping.furigana {
                    match piece.furigana {
                        Some(written) => {
                            assert!(rest.starts_with(written));
                            rest = &rest[written.len()..];
                        }
                        None => {
                            let count = piece.segment.chars().count();
                            let end: usize = rest.chars().take(count).map(char::len_utf8).sum();
                            assert!(kana_equivalent(piece.segment, &rest[..end]));
                            rest = &rest[end..];
                        }
                    }
                }
                assert_eq!(rest, "");
            }
        }
    }
}

#[test]
fn written_readings_give_the_reading_back() {
    let list = map_naive("日本語", "にほんご");
    assert_eq!(list.len(), 1);
    let list = furigana::map("日本語", "にほんご", &HashMap::new());
    assert_eq!(list.len(), 3);
    for mapping in list {
        assert!(mapping.furigana.iter().all(|piece| piece.furigana.is_some()));
        let written: String = mapping.furigana.iter().map(|piece| piece.furigana.unwrap()).collect();
        assert_eq!(written, "にほんご");
    }
}

#[test]
fn same_arguments_give_the_same_list() {
    let table = dictionary(&[("物", &["もの"]), ("怪", &["け"])]);
    for (text, reading) in samples() {
        assert_eq!(map_naive(text, reading), map_naive(text, reading));
        assert_eq!(
            furigana::map(text, reading, &table),
            furigana::map(text, reading, &table)
        );
    }
    assert_eq!(map_naive("日本", "に"), map_naive("日本", "に"));
}

#[test]
fn kana_text_needs_no_reading() {
    for (text, reading) in [("ひらがな", "ヒラガナ"), ("カタカナ", "かたかな"), ("かな", "かな")] {
        let list = map_naive(text, reading);
        assert_eq!(list.len(), 1);
        assert_eq!(list[0].accuracy, 1);
        assert_eq!(list[0].furigana.len(), 1);
        assert_eq!(list[0].furigana[0].segment, text);
        assert_eq!(list[0].furigana[0].furigana, None);
        assert_eq!(furigana::map(text, reading, &HashMap::new()), list);
    }
}

#[test]
fn kana_text_is_handed_back_whatever_the_reading() {
    let list = map_naive("かな", "xyz");
    assert_eq!(list.len(), 1);
    assert_eq!(list[0].accuracy, 1);
    assert_eq!(list[0].furigana[0].segment, "かな");
    assert_eq!(list[0].furigana[0].furigana, None);
}

#[test]
fn impossible_pair_gives_empty_list() {
    let table = dictionary(&[("物", &["もの"]), ("怪", &["け"])]);
    for (text, reading) in [
        ("日本", ""),
        ("日本語の", "に"),
        ("物の怪", "もけ"),
        ("物の怪", "もけの"),
        ("離れる", "はなれ"),
        ("CDプレイヤー", "シーディー"),
        ("一ヶ月", "いっけげつ"),
    ] {
        assert!(map_naive(text, reading).is_empty());
        assert!(furigana::map(text, reading, &table).is_empty());
    }
}

#[test]
fn scores_stay_within_two_points_a_character() {
    let table = dictionary(&[("物", &["もの"]), ("怪", &["け"]), ("日", &["にち"])]);
    for (text, reading) in samples() {
        let bound = 2 * text.chars().count() as i32;
        for mapping in furigana::map(text, reading, &table) {
            assert!(-bound <= mapping.accuracy && mapping.accuracy <= bound);
        }
    }
}
