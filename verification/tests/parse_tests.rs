use mandelbrot::complex::ComplexPoint;
use mandelbrot::parsing::parse_complex;
use mandelbrot::parsing::parse_pair;

#[test]
fn test_parse_pair() {
    assert_eq!(parse_pair::<i32>("", ','), None);
    assert_eq!(parse_pair::<i32>("10,", ','), None);
    assert_eq!(parse_pair::<i32>(",10", ','), None);
    assert_eq!(parse_pair::<i32>("10,20", ','), Some((10, 20)));
    assert_eq!(parse_pair::<i32>("10,20xy", ','), None);
    assert_eq!(parse_pair::<f64>("0.5x", 'x'), None);
    assert_eq!(parse_pair::<f64>("0.5x1.5", 'x'), Some((0.5, 1.5)));
}

#[test]
fn test_parse_complex() {
    assert_eq!(
        parse_complex("1.25,-0.0625"),
        Some(ComplexPoint::new(1.25f64.to_bits(), (-0.0625f64).to_bits()))
    );
    assert_eq!(parse_complex(",-0.0625"), None)
}

#[test]
fn parse_pair_splits_at_first_separator() {
    assert_eq!(parse_pair::<usize>("1000x750", 'x'), Some((1000, 750)));
    assert_eq!(parse_pair::<i32>("1,2,3", ','), None);
}
