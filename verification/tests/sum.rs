use phoebe_rs::sum::{ordered_sum, total};

#[test]
fn missing_terms_add_nothing() {
    let total = ordered_sum(
        3i64,
        &vec![5i64, 6, 7, 8, 9],
        100i64,
        &|of: i64, k: usize, x: i64| if k == 2 { None } else { Some(of * x) },
        &|a: i64, b: i64| a + b,
    );
    assert_eq!(total, 100 + 3 * (5 + 6 + 8 + 9));
}

#[test]
fn an_empty_sum_is_its_start() {
    let none: Vec<i32> = Vec::new();
    let sum = ordered_sum(
        (),
        &none,
        7,
        &|_of: (), _k: usize, x: i32| Some(x),
        &|a: i32, b: i32| a + b,
    );
    assert_eq!(sum, 7);
}

#[test]
fn the_first_value_is_added_first() {
    let digits = vec![4u32, 1, 3];
    let order = ordered_sum(
        (),
        &digits,
        0u32,
        &|_of: (), _k: usize, x: u32| Some(x),
        &|a: u32, b: u32| a * 10 + b,
    );
    assert_eq!(order, 413);
}

#[test]
fn rounded_sums_are_taken_in_order() {
    // 1.0 first, then the small terms, each of which is lost
    let terms = vec![1.0, 1e-17, 1e-17];
    let total = ordered_sum(
        (),
        &terms,
        0.0,
        &|_of: (), _k: usize, x: f64| Some(x),
        &|a: f64, b: f64| a + b,
    );
    assert_eq!(total, 1.0);
}

#[test]
fn a_total_takes_in_every_value_once_in_order() {
    assert_eq!(total(&vec![4u32, 1, 3], 0, &|a: u32, b: u32| a * 10 + b), 413);
    assert_eq!(total(&Vec::new(), 7u32, &|a: u32, b: u32| a + b), 7);
}
