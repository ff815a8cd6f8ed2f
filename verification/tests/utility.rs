use signal_processing::utility::{find_peak, pad_default};

#[test]
fn test_pad_zeros() {
    let mut vector = Vec::new();
    pad_default(&mut vector, 10);
    assert_eq!(vector.len(), 10);
    assert!(vector.iter().all(|x: &f64| x == &0.0));
}

#[test]
fn test_find_peak() {
    let data = [1.0, 2.0, 3.0, 4.0, 4.0, 3.0, 2.0, 1.0];
    assert_eq!(find_peak(&data), Some(&4.0));

    let data = [1.0, 2.0, 3.0, 2.0, 1.0, 2.0, 3.0, 2.0, 1.0];
    assert_eq!(find_peak(&data), None);
}

#[test]
fn pad_default_keeps_what_is_there() {
    let mut vector = vec![7u32, 8, 9];
    pad_default(&mut vector, 5);
    assert_eq!(vector, vec![7, 8, 9, 0, 0]);
}

#[test]
fn pad_default_leaves_a_longer_vector_alone() {
    let mut vector = vec![1i64, 2, 3, 4];
    pad_default(&mut vector, 2);
    assert_eq!(vector, vec![1, 2, 3, 4]);
    pad_default(&mut vector, 4);
    assert_eq!(vector, vec![1, 2, 3, 4]);
}

#[test]
fn pad_default_to_nothing() {
    let mut vector: Vec<String> = Vec::new();
    pad_default(&mut vector, 0);
    assert!(vector.is_empty());
}

#[test]
fn find_peak_of_nothing() {
    let data: [u32; 0] = [];
    assert_eq!(find_peak(&data), None);
}

#[test]
fn find_peak_of_one_element() {
    assert_eq!(find_peak(&[42u8]), Some(&42));
}

#[test]
fn find_peak_at_either_end() {
    assert_eq!(find_peak(&[1, 2, 3, 4]), Some(&4));
    assert_eq!(find_peak(&[4, 3, 2, 1]), Some(&4));
}

#[test]
fn find_peak_is_the_last_of_a_plateau() {
    let data = [(1, 'a'), (3, 'b'), (3, 'b'), (2, 'c')];
    let peak = find_peak(&data).expect("a pyramid");
    assert!(std::ptr::eq(peak, &data[2]));
}

#[test]
fn find_peak_ignores_dips_below_the_summit() {
    assert_eq!(find_peak(&[1, 5, 2, 4, 3]), Some(&5));
}

#[test]
fn find_peak_rejects_a_return_to_the_summit() {
    assert_eq!(find_peak(&[1, 5, 2, 5]), None);
    assert_eq!(find_peak(&[1, 5, 2, 6]), None);
}

#[test]
fn find_peak_stops_rising_at_what_cannot_be_compared() {
    let data = [1.0, 2.0, f64::NAN, 1.5];
    assert_eq!(find_peak(&data), Some(&2.0));
    let data = [1.0, 2.0, f64::NAN, 2.5];
    assert_eq!(find_peak(&data), None);
}
