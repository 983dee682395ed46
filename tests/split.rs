use housing_regression::{
    feature_matrix_data, records_from_rows, scan_records, shuffle_and_split, target_data,
    test_count, FEATURE_COUNT,
};

fn sorted(mut v: Vec<u32>) -> Vec<u32> {
    v.sort();
    v
}

#[test]
fn test_count_rounds_to_nearest() {
    assert_eq!(test_count(10, 1, 5), 2);
    assert_eq!(test_count(7, 1, 2), 4);
    assert_eq!(test_count(506, 1, 5), 101);
    assert_eq!(test_count(13, 1, 5), 3);
    assert_eq!(test_count(0, 1, 5), 0);
}

#[test]
fn split_sizes_and_contents() {
    let records: Vec<u32> = (0..20).collect();
    let (test, train) = shuffle_and_split(records.clone(), 1, 5, None);
    assert_eq!(test.len(), 4);
    assert_eq!(train.len(), 16);
    let mut all = test.clone();
    all.extend(train.iter().copied());
    assert_eq!(sorted(all), records);
}

#[test]
fn seeded_split_is_reproducible() {
    let records: Vec<u32> = (0..50).collect();
    let a = shuffle_and_split(records.clone(), 1, 5, Some(42));
    let b = shuffle_and_split(records.clone(), 1, 5, Some(42));
    assert_eq!(a, b);
    assert_eq!(a.0.len(), 10);
    assert_ne!(a.0, (0..10).collect::<Vec<u32>>());
    let mut all = a.0.clone();
    all.extend(a.1.iter().copied());
    assert_eq!(sorted(all), records);
}

#[test]
fn seeded_split_depends_on_length_not_values() {
    let numbers: Vec<u32> = (0..30).collect();
    let letters: Vec<u32> = (0..30).map(|k| 1000 + k).collect();
    let (t1, r1) = shuffle_and_split(numbers, 1, 3, Some(7));
    let (t2, r2) = shuffle_and_split(letters, 1, 3, Some(7));
    let shifted: Vec<u32> = t1.iter().map(|k| k + 1000).collect();
    assert_eq!(shifted, t2);
    let shifted: Vec<u32> = r1.iter().map(|k| k + 1000).collect();
    assert_eq!(shifted, r2);
}

#[test]
fn empty_split_is_empty() {
    let (test, train) = shuffle_and_split(Vec::<u32>::new(), 1, 5, Some(1));
    assert!(test.is_empty());
    assert!(train.is_empty());
}

#[test]
fn synthetic_dataset_pipeline_is_reproducible() {
    let mut text = String::new();
    for i in 0..20u32 {
        let fields: Vec<String> = (0..14u32).map(|k| format!("{}", (i * 7 + k * 3) % 11)).collect();
        text.push_str(&fields.join(" "));
        text.push('\n');
    }
    let rows = scan_records(text.as_bytes()).unwrap();
    let values: Vec<Vec<f64>> = rows
        .iter()
        .map(|r| r.iter().map(|t| std::str::from_utf8(t).unwrap().parse::<f64>().unwrap()).collect())
        .collect();
    let records = records_from_rows(&values);
    assert_eq!(records.len(), 20);
    let (test_a, train_a) = shuffle_and_split(records.clone(), 4, 20, Some(42));
    let (test_b, train_b) = shuffle_and_split(records, 4, 20, Some(42));
    assert_eq!(test_a.len(), 4);
    assert_eq!(train_a.len(), 16);
    assert_eq!(feature_matrix_data(&test_a), feature_matrix_data(&test_b));
    assert_eq!(target_data(&train_a), target_data(&train_b));
    assert_eq!(feature_matrix_data(&train_a).len(), 16 * FEATURE_COUNT);
}
