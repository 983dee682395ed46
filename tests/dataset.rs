use housing_regression::{
    is_number_field, records_from_rows, scan_line, scan_records, split_fields, split_lines,
    feature_matrix_data, target_data, BostonHousing, LoadError, FEATURE_COUNT, FIELD_COUNT,
};

fn row_text(start: u32) -> String {
    let mut parts: Vec<String> = Vec::new();
    for k in 0..14u32 {
        parts.push(format!("{}.5", start + k));
    }
    parts.join(" ")
}

#[test]
fn lines_split_at_newlines() {
    let lines = split_lines(b"a b\n\nc\n");
    assert_eq!(lines, vec![b"a b".to_vec(), b"".to_vec(), b"c".to_vec()]);
    assert_eq!(split_lines(b"x"), vec![b"x".to_vec()]);
    assert!(split_lines(b"").is_empty());
}

#[test]
fn fields_split_at_whitespace() {
    let fields = split_fields(b"  0.00632  18.00\t2.310 \r");
    assert_eq!(fields, vec![b"0.00632".to_vec(), b"18.00".to_vec(), b"2.310".to_vec()]);
    assert!(split_fields(b" \t ").is_empty());
    assert_eq!(split_fields(b"1\x0b2\x0c3"), vec![b"1".to_vec(), b"2".to_vec(), b"3".to_vec()]);
}

#[test]
fn number_texts_accepted() {
    for t in ["1", "1.5", "-2e3", ".5", "5.", "+0.25E-2", "inf", "NaN", "-Infinity", "007"] {
        assert!(is_number_field(t.as_bytes()), "{}", t);
        assert!(t.parse::<f64>().is_ok(), "{}", t);
    }
}

#[test]
fn number_texts_refused() {
    for t in ["", ".", "e5", "1e", "1.2.3", "abc", "1e+", "+", "--1", "1,5", "infin", "0x10"] {
        assert!(!is_number_field(t.as_bytes()), "{}", t);
        assert!(t.parse::<f64>().is_err(), "{}", t);
    }
}

#[test]
fn scan_keeps_one_row_per_line_in_order() {
    let text = format!("{}\n{}\n{}\n", row_text(0), row_text(100), row_text(200));
    let rows = scan_records(text.as_bytes()).unwrap();
    assert_eq!(rows.len(), 3);
    assert_eq!(rows[0][0], b"0.5".to_vec());
    assert_eq!(rows[1][0], b"100.5".to_vec());
    assert_eq!(rows[2][13], b"213.5".to_vec());
    for r in &rows {
        assert_eq!(r.len(), FIELD_COUNT);
    }
}

#[test]
fn scan_of_empty_text_is_empty() {
    assert_eq!(scan_records(b"").unwrap().len(), 0);
}

#[test]
fn scan_reports_field_count() {
    let text = format!("{}\n1 2 3\n", row_text(0));
    assert_eq!(scan_records(text.as_bytes()), Err(LoadError::FieldCount { line: 1, found: 3 }));
}

#[test]
fn scan_reports_bad_number() {
    let bad = row_text(0).replacen("3.5", "3.x", 1);
    let text = format!("{}\n{}\n{}\n", row_text(0), row_text(0), bad);
    assert_eq!(scan_records(text.as_bytes()), Err(LoadError::Parse { line: 2, field: 3 }));
}

#[test]
fn scan_stops_at_first_bad_line() {
    let bad = row_text(0).replacen("0.5", "zero", 1);
    let text = format!("{}\n\n{}\n", bad, row_text(0));
    assert_eq!(scan_records(text.as_bytes()), Err(LoadError::Parse { line: 0, field: 0 }));
    assert_eq!(scan_line(b"", 7), Err(LoadError::FieldCount { line: 7, found: 0 }));
}

#[test]
fn record_features_and_target() {
    let values: Vec<f64> = (0..14).map(|k| k as f64 * 1.5).collect();
    let r = BostonHousing::new(values.clone());
    assert_eq!(r.into_feature_vector(), values[..13].to_vec());
    assert_eq!(r.into_targets(), 19.5);
    assert_eq!(r.medv, 19.5);
    assert_eq!(r.crim, 0.0);
}

#[test]
fn matrix_and_targets_keep_record_order() {
    let rows: Vec<Vec<f64>> = (0..3)
        .map(|i| (0..14).map(|k| (i * 100 + k) as f64).collect())
        .collect();
    let records = records_from_rows(&rows);
    assert_eq!(records.len(), 3);
    let x = feature_matrix_data(&records);
    let y = target_data(&records);
    assert_eq!(x.len(), 3 * FEATURE_COUNT);
    assert_eq!(x[FEATURE_COUNT], 100.0);
    assert_eq!(x[2 * FEATURE_COUNT + 12], 212.0);
    assert_eq!(y, vec![13.0, 113.0, 213.0]);
}
