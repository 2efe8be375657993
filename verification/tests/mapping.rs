use furigana::furigana::Furigana;
use furigana::map_naive;
use std::collections::HashMap;

fn prepare_furigana(furigana: Vec<Furigana<'_>>) -> Vec<(i32, Vec<(&str, Option<&str>)>)> {
    furigana
        .into_iter()
        .map(|f| {
            (
                f.accuracy,
                f.furigana
                    .into_iter()
                    .map(|f| (f.segment, f.furigana))
                    .collect::<Vec<_>>(),
            )
        })
        .collect()
}

#[test]
fn segments_naive() {
    let furigana = prepare_furigana(map_naive("物の怪", "もののけ"));
    println!("{furigana:?}");
    assert!(furigana.contains(&(
        0,
        vec![("物", Some("もの")), ("の", None), ("怪", Some("け"))]
    )));
    assert!(furigana.contains(&(
        0,
        vec![("物", Some("も")), ("の", None), ("怪", Some("のけ"))],
    )));
    assert_eq!(furigana.len(), 2);
}

#[test]
fn segments_with_kanji() {
    let mut kanji_to_readings = HashMap::new();
    kanji_to_readings.insert("物".to_string(), vec!["もの".to_string()]);
    kanji_to_readings.insert("怪".to_string(), vec!["け".to_string()]);
    let furigana = prepare_furigana(furigana::map("物の怪", "もののけ", &kanji_to_readings));
    println!("{furigana:?}");

    assert!(furigana.contains(&(
        4,
        vec![("物", Some("もの")), ("の", None), ("怪", Some("け"))],
    )));
    assert!(furigana.contains(&(
        -4,
        vec![("物", Some("も")), ("の", None), ("怪", Some("のけ"))],
    )));
    assert_eq!(furigana.len(), 2);
}

#[test]
fn single_kanji_word() {
    let mut kanji_to_readings = HashMap::new();
    kanji_to_readings.insert("一".to_string(), vec!["いち".to_string()]);
    let furigana = prepare_furigana(furigana::map("一", "いち", &kanji_to_readings));
    println!("{furigana:?}");

    assert!(furigana.contains(&(1, vec![("一", Some("いち"))],)));
    assert_eq!(furigana.len(), 1);
}

#[test]
fn handles_alphabet() {
    let furigana = prepare_furigana(furigana::map(
        "CDプレイヤー",
        "シーディープレイヤー",
        &HashMap::new(),
    ));
    println!("{furigana:?}");

    assert!(furigana.contains(&(
        0,
        vec![
            ("C", Some("シー")),
            ("D", Some("ディー")),
            ("プレイヤー", None)
        ]
    )));
    assert_eq!(furigana.len(), 1);

    let furigana = prepare_furigana(map_naive("CDプレイヤー", "シーディープレイヤー"));
    println!("{furigana:?}");

    assert!(furigana.contains(&(
        0,
        vec![
            ("C", Some("シー")),
            ("D", Some("ディー")),
            ("プレイヤー", None)
        ]
    )));
    assert_eq!(furigana.len(), 1);
}

#[test]
fn handles_repeat_mark() {
    let furigana = prepare_furigana(map_naive("日々", "ひび"));
    println!("{furigana:?}");

    assert!(furigana.contains(&(0, vec![("日々", Some("ひび"))])));
    assert_eq!(furigana.len(), 1);

    let mut kanji_to_readings = HashMap::new();
    kanji_to_readings.insert("日".to_string(), vec!["ひ".to_string(), "び".to_string()]);
    let furigana = prepare_furigana(furigana::map("日々", "ひび", &kanji_to_readings));
    println!("{furigana:?}");

    assert!(furigana.contains(&(4, vec![("日", Some("ひ")), ("々", Some("び"))])));
    assert_eq!(furigana.len(), 1);
}

#[test]
fn kana_insensitive() {
    let furigana = prepare_furigana(map_naive("離れる", "ハナレル"));
    println!("{furigana:?}");

    assert!(furigana.contains(&(0, vec![("離", Some("ハナ")), ("れる", None)])));
    assert_eq!(furigana.len(), 1);
}

#[test]
fn handles_rendaku() {
    let mut kanji_to_readings = HashMap::new();
    kanji_to_readings.insert("花".to_string(), vec!["はな".to_string()]);
    kanji_to_readings.insert("火".to_string(), vec!["ひ".to_string()]);
    let furigana = prepare_furigana(furigana::map("花火", "はなび", &kanji_to_readings));
    println!("{furigana:?}");

    assert!(furigana.contains(&(3, vec![("花", Some("はな")), ("火", Some("び"))])));
    assert_eq!(furigana.len(), 2);
}

#[test]
fn handles_sokuonbin() {
    let mut kanji_to_readings = HashMap::new();
    kanji_to_readings.insert("格".to_string(), vec!["かく".to_string()]);
    kanji_to_readings.insert("好".to_string(), vec!["こう".to_string()]);
    let furigana = prepare_furigana(furigana::map("格好", "かっこう", &kanji_to_readings));
    println!("{furigana:?}");

    assert!(furigana.contains(&(3, vec![("格", Some("かっ")), ("好", Some("こう"))])));
    assert_eq!(furigana.len(), 3);
}

#[test]
fn handles_rendaku_and_sokuonbin() {
    let mut kanji_to_readings = HashMap::new();
    kanji_to_readings.insert("突".to_string(), vec!["とつ".to_string()]);
    kanji_to_readings.insert("破".to_string(), vec!["は".to_string()]);
    let furigana = prepare_furigana(furigana::map("突破", "とっぱ", &kanji_to_readings));
    println!("{furigana:?}");

    assert!(furigana.contains(&(2, vec![("突", Some("とっ")), ("破", Some("ぱ"))])));
    assert_eq!(furigana.len(), 2);
}

#[test]
fn handles_exceptions() {
    let furigana = prepare_furigana(map_naive("一ヶ月", "いっかげつ"));
    println!("{furigana:?}");

    assert!(furigana.contains(&(
        0,
        vec![
            ("一", Some("いっ")),
            ("ヶ", Some("か")),
            ("月", Some("げつ"))
        ]
    )));
    assert_eq!(furigana.len(), 1);
}

#[test]
fn handles_numbers() {
    let furigana = prepare_furigana(map_naive("1010日", "せんじゅうにち"));
    println!("{furigana:?}");
    assert_eq!(furigana.len(), 1);
    assert_eq!(
        furigana[0].1,
        vec![("1010", Some("せんじゅう")), ("日", Some("にち"))]
    );

    let furigana = prepare_furigana(map_naive(
        "12345日",
        "いちまんにせんさんびゃくよんじゅうごにち",
    ));
    println!("{furigana:?}");
    assert_eq!(furigana.len(), 1);
    assert_eq!(
        furigana[0].1,
        vec![
            ("12345", Some("いちまんにせんさんびゃくよんじゅうご")),
            ("日", Some("にち"))
        ]
    );

    let furigana = prepare_furigana(map_naive(
        "123456789日",
        "いちおくにせんさんびゃくよんじゅうごまんろくせんななひゃくはちじゅうきゅうにち",
    ));
    println!("{furigana:?}");
    assert_eq!(furigana.len(), 1);
    assert_eq!(
        furigana[0].1,
        vec![
            ("123456789", Some("いちおくにせんさんびゃくよんじゅうごまんろくせんななひゃくはちじゅうきゅう")),
            ("日", Some("にち"))
        ]
    );
}

#[test]
fn handles_irregular_otona() {
    let mut kanji_to_readings = HashMap::new();
    kanji_to_readings.insert(
        "大".to_string(),
        vec!["おお".to_string(), "ダイ".to_string(), "タイ".to_string()],
    );
    kanji_to_readings.insert(
        "人".to_string(),
        vec![
            "ひと".to_string(),
            "り".to_string(),
            "と".to_string(),
            "ジン".to_string(),
            "ニン".to_string(),
        ],
    );
    let furigana = prepare_furigana(furigana::map("大人", "おとな", &kanji_to_readings));
    println!("{furigana:?}");

    assert!(furigana.contains(&(2, vec![("大人", Some("おとな"))])));
    assert_eq!(furigana.len(), 1);
}

#[test]
fn handles_irregular_tooka() {
    let mut kanji_to_readings = HashMap::new();
    kanji_to_readings.insert("日".to_string(), vec!["にち".to_string(), "か".to_string()]);
    let furigana = prepare_furigana(furigana::map("１０日", "とおか", &kanji_to_readings));
    println!("{furigana:?}");

    assert!(furigana.contains(&(4, vec![("１０", Some("とお")), ("日", Some("か"))])));
    assert_eq!(furigana.len(), 1);
}
