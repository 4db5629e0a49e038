use sam::text::{parse_u64, text_eq, text_less};

#[test]
fn parse_u64_reads_what_from_str_reads() {
    for input in ["0", "7", "+42", "0012", "18446744073709551615", "18446744073709551616", "", "+", "-1", "1 ", "1_0", "12x", "٣"] {
        assert_eq!(parse_u64(input), input.parse::<u64>().ok(), "input {input:?}");
    }
    assert_eq!(parse_u64("2500"), Some(2500));
    assert_eq!(parse_u64("bad"), None);
}

#[test]
fn text_order_matches_str_order() {
    let words = ["", "a", "ab", "b", "guidance", "navigation", "navigatio", "telemetry", "é", "z"];
    for a in words {
        for b in words {
            assert_eq!(text_less(a, b), a < b, "{a:?} < {b:?}");
            assert_eq!(text_eq(a, b), a == b, "{a:?} == {b:?}");
        }
    }
}
