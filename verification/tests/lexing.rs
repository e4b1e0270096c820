//! Tests of the lexical primitives: symbols, quoted literals, numbers,
//! whitespace measurement, comments and continued lines.
use kconfig_parser::{ConstantSymbol, Delimiter, Hex, Int, Symbol};
use kconfig_parser::{count_whitespace, special_space, take_comment, take_continued_line,
    take_line_ending};

#[test]
fn symbol_longest_run() {
    let (sym, end) = Symbol::parse("FOO_2 bar", 0).unwrap();
    assert_eq!(sym.name, "FOO_2");
    assert_eq!(end, 5);
}

#[test]
fn symbol_rejects_leading_space() {
    assert!(Symbol::parse(" FOO", 0).is_none());
    let (sym, end) = Symbol::parse(" FOO", 1).unwrap();
    assert_eq!(sym.name, "FOO");
    assert_eq!(end, 4);
}

#[test]
fn constant_symbol_double_quote() {
    let (c, end) = ConstantSymbol::parse("  \"abc\" rest", 0).unwrap();
    assert_eq!(c.delimiter, Delimiter::DoubleQuote(String::from("abc")));
    assert_eq!(end, 7);
}

#[test]
fn constant_symbol_single_quote() {
    let (c, end) = ConstantSymbol::parse("'x y'", 0).unwrap();
    assert_eq!(c.delimiter, Delimiter::SingleQuote(String::from("x y")));
    assert_eq!(end, 5);
}

#[test]
fn constant_symbol_escaped_quote_kept_verbatim() {
    // the backslash-quote pair stays in the captured content
    let (c, end) = ConstantSymbol::parse("\"a\\\"b\"", 0).unwrap();
    assert_eq!(c.delimiter, Delimiter::DoubleQuote(String::from("a\\\"b")));
    assert_eq!(end, 6);
}

#[test]
fn constant_symbol_unterminated_fails() {
    assert!(ConstantSymbol::parse("\"abc", 0).is_none());
    assert!(ConstantSymbol::parse("plain", 0).is_none());
}

#[test]
fn int_decimal() {
    let (v, end) = Int::parse("42x", 0).unwrap();
    assert_eq!(v.val, 42);
    assert_eq!(end, 2);
}

#[test]
fn int_negative() {
    let (v, end) = Int::parse("-7 ", 0).unwrap();
    assert_eq!(v.val, -7);
    assert_eq!(end, 2);
}

#[test]
fn int_sign_alone_fails() {
    assert!(Int::parse("-", 0).is_none());
    assert!(Int::parse("x1", 0).is_none());
}

#[test]
fn int_overflow_fails() {
    // one past the largest 128-bit signed value
    assert!(Int::parse("170141183460469231731687303715884105728", 0).is_none());
    let (v, _) = Int::parse("170141183460469231731687303715884105727", 0).unwrap();
    assert_eq!(v.val, i128::MAX);
}

#[test]
fn int_most_negative() {
    let (v, _) = Int::parse("-170141183460469231731687303715884105728", 0).unwrap();
    assert_eq!(v.val, i128::MIN);
}

#[test]
fn hex_basic() {
    let (v, end) = Hex::parse("0x1F", 0).unwrap();
    assert_eq!(v.val, 31);
    assert_eq!(end, 4);
}

#[test]
fn hex_leading_zeros_insignificant() {
    let (v, end) = Hex::parse("0x000010", 0).unwrap();
    assert_eq!(v.val, 16);
    assert_eq!(end, 8);
}

#[test]
fn hex_mixed_case() {
    let (v, _) = Hex::parse("0xaBc", 0).unwrap();
    assert_eq!(v.val, 0xabc);
}

#[test]
fn hex_over_128_bits_fails() {
    // thirty-three significant digits
    let mut s = String::from("0x1");
    for _ in 0..32 {
        s.push('0');
    }
    assert!(Hex::parse(&s, 0).is_none());
    // but leading zeros do not count toward the limit
    let mut t = String::from("0x000");
    for _ in 0..32 {
        t.push('f');
    }
    let (v, _) = Hex::parse(&t, 0).unwrap();
    assert_eq!(v.val, u128::MAX);
}

#[test]
fn hex_needs_digits() {
    assert!(Hex::parse("0x", 0).is_none());
    assert!(Hex::parse("0xg", 0).is_none());
}

#[test]
fn whitespace_columns_with_tabs() {
    assert_eq!(count_whitespace("\t"), 8);
    assert_eq!(count_whitespace("  \t"), 8);
    assert_eq!(count_whitespace(" \t "), 9);
    assert_eq!(count_whitespace("    "), 4);
}

#[test]
fn comment_runs_to_newline() {
    // the newline itself is not consumed
    assert_eq!(take_comment("  # hi\nX", 0), Some(6));
    assert_eq!(take_comment("bare\n", 0), None);
    assert_eq!(take_comment("# no newline", 0), None);
}

#[test]
fn line_ending_greedy() {
    assert_eq!(take_line_ending("  \n\t\n X", 0), Some(5));
    assert_eq!(take_line_ending("X\n", 0), None);
    assert_eq!(take_line_ending("\r\nX", 0), Some(2));
}

#[test]
fn continued_line_stops_at_comment() {
    let (text, end) = take_continued_line("abc def # c\nrest", 0).unwrap();
    assert_eq!(text, "abc def ");
    assert_eq!(end, 8);
}

#[test]
fn continued_line_joins_escaped_newline() {
    let (text, end) = take_continued_line("a\\\nb\nrest", 0).unwrap();
    assert_eq!(text, "a\\\nb");
    assert_eq!(end, 4);
}

#[test]
fn continued_line_without_terminator_fails() {
    assert!(take_continued_line("no newline here", 0).is_none());
}

#[test]
fn special_space_skips_escaped_newlines() {
    assert_eq!(special_space(" \\\n  x", 0), 5);
    assert_eq!(special_space("x", 0), 0);
}
