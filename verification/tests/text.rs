use bench_hashes::text::chars_of;
use bench_hashes::text::decimal_chars;
use bench_hashes::text::is_ascii_alphanumeric_char;
use bench_hashes::text::push_chars;
use bench_hashes::text::push_left_aligned;
use bench_hashes::text::push_repeated;
use bench_hashes::text::push_right_aligned;
use bench_hashes::text::push_zero_padded;
use bench_hashes::text::sanitize_alphanumeric;
use bench_hashes::text::split_clauses_of;
use bench_hashes::text::string_of_chars;
use bench_hashes::text::text_before;
use bench_hashes::text::text_before_parenthetical;
use bench_hashes::text::xml_escape;

#[test]
fn characters_round_trip() {
    let characters = chars_of("héllo · wörld");
    assert_eq!(characters.len(), 13);
    assert_eq!(string_of_chars(&characters), "héllo · wörld");
}

#[test]
fn decimal_digits() {
    assert_eq!(decimal_chars(0), vec!['0']);
    assert_eq!(decimal_chars(7), vec!['7']);
    assert_eq!(decimal_chars(1024), vec!['1', '0', '2', '4']);
    assert_eq!(decimal_chars(u64::MAX).iter().collect::<String>(), u64::MAX.to_string());
}

#[test]
fn repeated_and_appended_characters() {
    let mut text = String::from("a");
    push_repeated(&mut text, '-', 3);
    push_chars(&mut text, &vec!['x', 'y']);
    push_repeated(&mut text, '-', 0);
    assert_eq!(text, "a---xy");
}

#[test]
fn zero_padding_matches_format() {
    for (value, width) in [(0u64, 2usize), (7, 2), (12, 2), (123, 2), (5, 4), (2024, 4), (99_999, 4)] {
        let mut text = String::new();
        push_zero_padded(&mut text, value, width);
        assert_eq!(text, format!("{value:0width$}"));
    }
}

#[test]
fn alignment_matches_format() {
    for field in ["", "size", "64 B", "BLAKE3 SME2", "0.123–4.567", "a much longer field than the width"] {
        let mut right = String::from(">");
        push_right_aligned(&mut right, field, 13);
        assert_eq!(right, format!(">{field:>13}"));
        let mut left = String::from(">");
        push_left_aligned(&mut left, field, 8);
        assert_eq!(left, format!(">{field:<8}"));
    }
}

#[test]
fn ascii_alphanumeric_characters() {
    assert!(is_ascii_alphanumeric_char('a'));
    assert!(is_ascii_alphanumeric_char('Z'));
    assert!(is_ascii_alphanumeric_char('5'));
    assert!(!is_ascii_alphanumeric_char(' '));
    assert!(!is_ascii_alphanumeric_char('-'));
    assert!(!is_ascii_alphanumeric_char('é'));
}

#[test]
fn sanitized_cpu_name() {
    assert_eq!(sanitize_alphanumeric("Apple M4 Max"), "AppleM4Max");
    assert_eq!(
        sanitize_alphanumeric("Intel(R) Core(TM) i7-9750H CPU @ 2.60GHz"),
        "IntelRCoreTMi79750HCPU260GHz"
    );
    assert_eq!(sanitize_alphanumeric("darwin24"), "darwin24");
    assert_eq!(sanitize_alphanumeric("é-1-é"), "1");
}

#[test]
fn xml_escape_replaces_markup() {
    assert_eq!(
        xml_escape("a<b & \"c\" 'd'>"),
        "a&lt;b &amp; &quot;c&quot; &apos;d&apos;&gt;"
    );
    assert_eq!(xml_escape("plain · text"), "plain · text");
    assert_eq!(xml_escape(""), "");
}

#[test]
fn escaped_text_holds_no_markup() {
    let escaped = xml_escape("<tag attr=\"x\">it's & more</tag>");
    assert!(!escaped.contains('<'));
    assert!(!escaped.contains('>'));
    assert!(!escaped.contains('"'));
    assert!(!escaped.contains('\''));
    assert_eq!(escaped.matches('&').count(), escaped.matches(';').count());
}

#[test]
fn text_before_a_separator() {
    assert_eq!(text_before("24.1.0", '.'), "24");
    assert_eq!(text_before("no separator", '.'), "no separator");
    assert_eq!(text_before(".leading", '.'), "");
}

#[test]
fn clauses_split_at_semicolon_space() {
    let clauses: Vec<String> = split_clauses_of("a; b;c; ; d")
        .iter()
        .map(|clause| clause.iter().collect())
        .collect();
    assert_eq!(clauses, vec!["a", "b;c", "", "d"]);
    let whole: Vec<String> = split_clauses_of("").iter().map(|clause| clause.iter().collect()).collect();
    assert_eq!(whole, vec![""]);
}

#[test]
fn clauses_join_back_to_the_text() {
    let text = "On this machine: SHA-256 is 1.20× to 2.00× faster than BLAKE3; SHA-1DC matches BLAKE3 at every size";
    let clauses: Vec<String> = split_clauses_of(text).iter().map(|clause| clause.iter().collect()).collect();
    assert_eq!(clauses.join("; "), text);
}

#[test]
fn text_before_a_parenthetical() {
    assert_eq!(
        text_before_parenthetical("portable compression (one chunk; NEON bulk path not used)"),
        "portable compression"
    );
    assert_eq!(text_before_parenthetical("AVX-512 compression"), "AVX-512 compression");
    assert_eq!(text_before_parenthetical("a(b) (c"), "a(b)");
    assert_eq!(text_before_parenthetical(" (x"), "");
    assert_eq!(text_before_parenthetical("ends with space "), "ends with space ");
    for text in ["x (y (z", "no paren", "(", " ", ""] {
        assert_eq!(text_before_parenthetical(text), text.split(" (").next().unwrap());
    }
}
