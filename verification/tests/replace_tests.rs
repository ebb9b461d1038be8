use mandelbrot::replace::parse_args;
use mandelbrot::replace::replace;

#[test]
fn replace_rewrites_every_match() {
    assert_eq!(replace("world", "Rust", "hello world").unwrap(), "hello Rust");
    assert_eq!(replace("l+", "L", "hello world").unwrap(), "heLo worLd");
    assert_eq!(replace("z", "q", "hello").unwrap(), "hello");
}

#[test]
fn replace_reports_a_bad_pattern() {
    assert!(replace("(", "x", "abc").is_err());
}

#[test]
fn parse_args_takes_exactly_four() {
    let args: Vec<String> = vec![
        "old".to_string(),
        "new".to_string(),
        "in.txt".to_string(),
        "out.txt".to_string(),
    ];
    let parsed = parse_args(args).expect("four arguments should parse");
    assert_eq!(parsed.target, "old");
    assert_eq!(parsed.replacement, "new");
    assert_eq!(parsed.filename, "in.txt");
    assert_eq!(parsed.output, "out.txt");

    assert!(parse_args(vec!["a".to_string()]).is_none());
    assert!(parse_args(vec![]).is_none());
}
