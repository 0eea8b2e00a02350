use bench_hashes::headline::wrap_takeaway;
use bench_hashes::headline::HEADLINE_MAX_BYTES;

#[test]
fn short_headline_stays_on_one_line() {
    let takeaway = "On this machine: SHA-256 matches BLAKE3 at every size; SHA-1DC is 1.10× to 1.30× faster than BLAKE3";
    assert!(takeaway.len() <= HEADLINE_MAX_BYTES);
    assert_eq!(wrap_takeaway(takeaway), vec![takeaway.to_string()]);
}

#[test]
fn long_headline_wraps_at_a_clause() {
    let takeaway = "On this machine: SHA-256 is 1.20× to 3.40× faster than BLAKE3; BLAKE3 is 2.10× to 4.50× faster than SHA-1DC; BLAKE3 SME2 matches BLAKE3 below 16 KiB and is up to 1.80× faster from there";
    let lines = wrap_takeaway(takeaway);
    assert_eq!(
        lines,
        vec![
            "On this machine: SHA-256 is 1.20× to 3.40× faster than BLAKE3; BLAKE3 is 2.10× to 4.50× faster than SHA-1DC",
            "BLAKE3 SME2 matches BLAKE3 below 16 KiB and is up to 1.80× faster from there",
        ]
    );
    for line in &lines {
        assert!(line.len() <= HEADLINE_MAX_BYTES);
    }
    assert_eq!(lines.join("; "), takeaway);
}

#[test]
fn over_long_clause_keeps_a_line_of_its_own() {
    let long = "x".repeat(130);
    let takeaway = format!("a; {long}; b");
    assert_eq!(wrap_takeaway(&takeaway), vec!["a".to_string(), long.clone(), "b".to_string()]);
}

#[test]
fn limit_is_counted_in_bytes() {
    let first = "é".repeat(50);
    let second = "y".repeat(16);
    let takeaway = format!("{first}; {second}");
    assert_eq!(first.len() + 2 + second.len(), 118);
    assert_eq!(wrap_takeaway(&takeaway), vec![takeaway.clone()]);
    let longer = format!("{first}; {second}z");
    assert_eq!(wrap_takeaway(&longer).len(), 2);
}

#[test]
fn empty_headline_is_one_empty_line() {
    assert_eq!(wrap_takeaway(""), vec![String::new()]);
}
