use zidian::dbase::{
    candidate_buttons, dic_query, line_query, pinyins_from_rows, py_whereclause, zi_from_row,
    zi_pinyin_query, zi_whereclause, zis_from_rows, DBidzi, PinyinData, Zi, DIC_BASE_QUERY,
    LISTDIC_QUERY,
};

fn row(id: i64, py: &str, code: &str) -> DBidzi {
    DBidzi {
        id,
        pinyin_ton: py.to_string(),
        unicode: code.to_string(),
        sens: format!("meaning {}", id),
        strokes: id + 3,
    }
}

fn zi(id: i64, py: &str, code: &str, c: char) -> Zi {
    Zi {
        id,
        pinyin_ton: py.to_string(),
        unicode: code.to_string(),
        hanzi: c,
        sens: format!("meaning {}", id),
        strokes: id + 3,
    }
}

#[test]
fn dic_query_without_clause_reads_the_whole_table() {
    assert_eq!(dic_query(""), "SELECT id, pinyin_ton, unicode, sens, strokes FROM pyhz");
    assert_eq!(dic_query(""), DIC_BASE_QUERY);
}

#[test]
fn dic_query_with_clause() {
    assert_eq!(
        dic_query(" unicode = '4E2D' ORDER BY pinyin_ton"),
        "SELECT id, pinyin_ton, unicode, sens, strokes FROM pyhz WHERE  unicode = '4E2D' ORDER BY pinyin_ton"
    );
}

#[test]
fn listdic_query_orders_by_pinyin() {
    assert_eq!(
        LISTDIC_QUERY,
        "SELECT id, pinyin_ton, unicode, sens, strokes FROM pyhz ORDER BY pinyin_ton, strokes, unicode"
    );
}

#[test]
fn zi_whereclause_selects_by_code() {
    assert_eq!(zi_whereclause("4E2D"), " unicode = '4E2D' ORDER BY pinyin_ton");
}

#[test]
fn py_whereclause_with_tone() {
    assert_eq!(
        py_whereclause("ma3"),
        Some(" pinyin_ton = 'ma3' ORDER BY strokes, unicode".to_string())
    );
    assert_eq!(
        py_whereclause("lü0"),
        Some(" pinyin_ton = 'lü0' ORDER BY strokes, unicode".to_string())
    );
}

#[test]
fn py_whereclause_without_tone_tries_all_tones() {
    assert_eq!(
        py_whereclause("ma"),
        Some(" pinyin_ton = 'ma0' OR pinyin_ton = 'ma1' OR pinyin_ton = 'ma2' OR pinyin_ton = 'ma3' OR pinyin_ton = 'ma4' ORDER BY strokes, pinyin_ton, unicode".to_string())
    );
    // 5 is not a tone digit
    assert_eq!(
        py_whereclause("ma5"),
        Some(" pinyin_ton = 'ma50' OR pinyin_ton = 'ma51' OR pinyin_ton = 'ma52' OR pinyin_ton = 'ma53' OR pinyin_ton = 'ma54' ORDER BY strokes, pinyin_ton, unicode".to_string())
    );
}

#[test]
fn py_whereclause_of_empty_syllable() {
    assert_eq!(py_whereclause(""), None);
}

#[test]
fn pinyin_query_uses_upper_case_code() {
    assert_eq!(
        zi_pinyin_query('中'),
        "SELECT pinyin_ton FROM pyhz WHERE unicode = '4E2D' ORDER BY pinyin_ton ASC"
    );
}

#[test]
fn line_query_reads_one_row() {
    assert_eq!(
        line_query(42),
        "SELECT id, pinyin_ton, unicode, sens, strokes FROM pyhz LIMIT 1 OFFSET 42"
    );
    assert_eq!(
        line_query(0),
        "SELECT id, pinyin_ton, unicode, sens, strokes FROM pyhz LIMIT 1 OFFSET 0"
    );
    assert_eq!(
        line_query(-1),
        "SELECT id, pinyin_ton, unicode, sens, strokes FROM pyhz LIMIT 1 OFFSET -1"
    );
}

#[test]
fn zi_from_row_decodes_the_character() {
    assert_eq!(zi_from_row(&row(7, "zhong1", "4E2D")), Some(zi(7, "zhong1", "4E2D", '中')));
    assert_eq!(zi_from_row(&row(8, "hao3", "597d")), Some(zi(8, "hao3", "597d", '好')));
}

#[test]
fn zi_from_row_rejects_bad_codes() {
    assert_eq!(zi_from_row(&row(1, "x", "XYZ")), None);
    assert_eq!(zi_from_row(&row(1, "x", "D800")), None);
    assert_eq!(zi_from_row(&row(1, "x", "")), None);
}

#[test]
fn zis_from_rows_keeps_order() {
    let rows = vec![row(1, "zhong1", "4E2D"), row(2, "hao3", "597D")];
    assert_eq!(
        zis_from_rows(&rows),
        Some(vec![zi(1, "zhong1", "4E2D", '中'), zi(2, "hao3", "597D", '好')])
    );
    assert_eq!(zis_from_rows(&Vec::new()), Some(Vec::new()));
}

#[test]
fn zis_from_rows_fails_on_one_bad_row() {
    let rows = vec![row(1, "zhong1", "4E2D"), row(2, "?", "not hex")];
    assert_eq!(zis_from_rows(&rows), None);
}

#[test]
fn pinyins_from_rows_copies_in_order() {
    let rows = vec![
        PinyinData { pinyin_ton: "hao3".to_string() },
        PinyinData { pinyin_ton: "hao4".to_string() },
    ];
    assert_eq!(pinyins_from_rows(&rows), vec!["hao3".to_string(), "hao4".to_string()]);
    assert_eq!(pinyins_from_rows(&Vec::new()), Vec::<String>::new());
}

#[test]
fn candidate_buttons_empty() {
    assert_eq!(candidate_buttons(&Vec::new()), "");
}

#[test]
fn candidate_buttons_one_per_entry() {
    let zis = vec![zi(1, "ma1", "5988", '妈'), zi(2, "ma3", "9A6C", '马')];
    assert_eq!(
        candidate_buttons(&zis),
        "<button class='zilistbutton' onclick='add(\"妈\")'>妈</button><button class='zilistbutton' onclick='add(\"马\")'>马</button>"
    );
}

#[test]
fn candidate_buttons_one_closing_tag_per_entry() {
    for n in 0..4 {
        let zis: Vec<Zi> = (0..n).map(|i| zi(i, "x", "3C", '<')).collect();
        let text = candidate_buttons(&zis);
        assert_eq!(text.matches("</button>").count(), n as usize);
        assert_eq!(text.is_empty(), n == 0);
    }
    let slash = vec![zi(1, "x", "2F", '/'), zi(2, "y", "4E2D", '中')];
    assert_eq!(candidate_buttons(&slash).matches("</button>").count(), 2);
}
