use rusty_hbs_helpers::escape;

#[test]
fn test_escape_str() {
    assert_eq!(
        escape(&String::from("& Im < 100 years old but > 30")),
        "&amp; Im &lt; 100 years old but &gt; 30"
    );
}

#[test]
fn test_escape_int() {
    assert_eq!(escape(&100u64), "100");
}

#[test]
fn test_escape_passthrough() {
    assert_eq!(escape(&String::from("nothing to do")), "nothing to do");
}

#[test]
fn test_escape_zero() {
    assert_eq!(escape(&0u64), "0");
}
