use gateway::text::{chars_of, parse_u64, split_whitespace, string_from_chars, u64_to_decimal};

fn chars(s: &str) -> Vec<char> {
    s.chars().collect()
}

#[test]
fn decimal_writes_digits() {
    assert_eq!(u64_to_decimal(0), "0");
    assert_eq!(u64_to_decimal(7), "7");
    assert_eq!(u64_to_decimal(10), "10");
    assert_eq!(u64_to_decimal(54), "54");
    assert_eq!(u64_to_decimal(u64::MAX), "18446744073709551615");
}

#[test]
fn parse_accepts_what_std_accepts() {
    for s in ["0", "12", "+12", "007", "18446744073709551615", "", "+", "-1", " 1", "1 ", "1a", "18446744073709551616", "++1", "+-1"] {
        assert_eq!(parse_u64(&chars(s)), s.parse::<u64>().ok(), "input {:?}", s);
    }
}

#[test]
fn parse_reads_back_decimal() {
    for n in [0u64, 1, 9, 10, 99, 100, 4096, 1u64 << 40, u64::MAX - 1, u64::MAX] {
        assert_eq!(parse_u64(&chars(&u64_to_decimal(n))), Some(n));
    }
}

#[test]
fn split_whitespace_matches_std() {
    for s in ["GET / HTTP/1.1", "  a\tb\n\nc  ", "", "   ", "one", "x\u{3000}y\u{85}z\u{a0}w", "a\u{200b}b"] {
        let got: Vec<String> = split_whitespace(&chars(s)).iter().map(|w| w.iter().collect()).collect();
        let want: Vec<String> = s.split_whitespace().map(|w| w.to_string()).collect();
        assert_eq!(got, want, "input {:?}", s);
    }
}

#[test]
fn chars_and_strings_round_trip() {
    let s = "héllo, wörld ✓";
    let v = chars_of(s);
    assert_eq!(v.len(), s.chars().count());
    assert_eq!(string_from_chars(&v), s);
}
