use tally::text::{contains, ends_with, push_decimal, push_signed_decimal};

#[test]
fn suffix_and_infix() {
    assert!(ends_with("/run.json", ".json"));
    assert!(!ends_with("/run", ".json"));
    assert!(ends_with("abc", ""));
    assert!(contains("text/html, application/json", "application/json"));
    assert!(!contains("application/jso", "application/json"));
    assert!(contains("", ""));
}

#[test]
fn decimals_match_display() {
    for v in [0i64, 7, 10, 91500, -1, -105, i64::MAX, i64::MIN] {
        let mut s = String::new();
        push_signed_decimal(&mut s, v);
        assert_eq!(s, v.to_string());
    }
    let mut s = String::from("n=");
    push_decimal(&mut s, u64::MAX);
    assert_eq!(s, format!("n={}", u64::MAX));
}
