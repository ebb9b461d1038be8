use mandelbrot::gcd::gcd;
use mandelbrot::gcd::gcd_list;
use mandelbrot::gcd::index_page;
use mandelbrot::gcd::post_gcd;

#[test]
fn test_gcd() {
    assert_eq!(gcd(14, 15), 1);

    assert_eq!(gcd(2 * 3 * 5 * 11 * 17, 3 * 7 * 11 * 13 * 19), 3 * 11);
}

#[test]
fn main_test_gcd() {
    assert_eq!(gcd(14, 15), 1);

    assert_eq!(gcd(2 * 3 * 5 * 11 * 17, 3 * 7 * 11 * 13 * 19), 3 * 11);
}

#[test]
fn gcd_of_equal_numbers() {
    assert_eq!(gcd(42, 42), 42);
}

#[test]
fn gcd_list_folds_over_all_elements() {
    let numbers: Vec<u64> = vec![24, 36, 60];
    assert_eq!(gcd_list(&numbers), 12);

    let single: Vec<u64> = vec![7];
    assert_eq!(gcd_list(&single), 7);
}

#[test]
fn index_page_serves_the_gcd_form() {
    let page = index_page();
    assert!(page.contains("<title>GCD Calculator</title>"));
    assert!(page.contains(r#"<form action="/gcd" method="post">"#));
    assert!(page.contains(r#"<button type="submit">Compute GCD</button>"#));
}

#[test]
fn post_gcd_rejects_zero_operands() {
    assert_eq!(post_gcd(0, 5), None);
    assert_eq!(post_gcd(5, 0), None);
    assert_eq!(post_gcd(0, 0), None);
}

#[test]
fn post_gcd_answers_nonzero_operands() {
    assert_eq!(post_gcd(12, 18), Some(6));
    assert_eq!(post_gcd(14, 15), Some(1));
}
