use dbc::strutil::{
    i64_to_string, pad6_i64, pad_u64, parse_usize, str_eq, starts_with, to_lowercase, tokenize,
    trim, trim_end_semicolons, u64_to_string,
};
use dbc::url::{parse_my_url, parse_pg_url};

#[test]
fn decimal_formatting_is_exact() {
    assert_eq!(u64_to_string(0), "0");
    assert_eq!(u64_to_string(18446744073709551615), "18446744073709551615");
    assert_eq!(i64_to_string(-1), "-1");
    assert_eq!(i64_to_string(i64::MIN), "-9223372036854775808");
    assert_eq!(i64_to_string(i64::MAX), "9223372036854775807");
}

#[test]
fn zero_padding_matches_width_rules() {
    assert_eq!(pad_u64(7, 4), "0007");
    assert_eq!(pad_u64(12345, 4), "12345");
    assert_eq!(pad6_i64(5), "000005");
    assert_eq!(pad6_i64(-5), "-00005");
    assert_eq!(pad6_i64(1234567), "1234567");
    assert_eq!(pad6_i64(-1234567), "-1234567");
}

#[test]
fn parse_usize_follows_std_rules() {
    assert_eq!(parse_usize("12"), Some(12));
    assert_eq!(parse_usize("+12"), Some(12));
    assert_eq!(parse_usize("0"), Some(0));
    assert_eq!(parse_usize(""), None);
    assert_eq!(parse_usize("+"), None);
    assert_eq!(parse_usize("12x"), None);
    assert_eq!(parse_usize("-3"), None);
    assert_eq!(parse_usize("99999999999999999999999999"), None);
    assert_eq!(parse_usize(&usize::MAX.to_string()), Some(usize::MAX));
}

#[test]
fn trimming_and_tokenizing() {
    assert_eq!(trim("  a b \t"), "a b");
    assert_eq!(trim(""), "");
    assert_eq!(trim("   "), "");
    assert_eq!(trim_end_semicolons("select 1;;"), "select 1");
    assert_eq!(trim_end_semicolons(";"), "");
    assert_eq!(tokenize(" :set  row_limit  3 "), vec![":set", "row_limit", "3"]);
    let no_tokens: Vec<String> = Vec::new();
    assert_eq!(tokenize("   "), no_tokens);
    assert!(str_eq("abc", "abc"));
    assert!(!str_eq("abc", "abd"));
    assert!(starts_with("select 1", "select"));
    assert!(!starts_with("sel", "select"));
    assert_eq!(to_lowercase("MiXeD_09"), "mixed_09");
}

#[test]
fn url_grammars_accept_and_reject() {
    assert_eq!(
        parse_pg_url("//localhost:5432/mydb"),
        Some(("localhost".to_string(), "5432".to_string(), "mydb".to_string()))
    );
    assert_eq!(parse_pg_url("//host/db"), None);
    assert_eq!(parse_pg_url("//host:port/db"), None);
    assert_eq!(parse_pg_url("//:5432/db"), None);
    assert_eq!(parse_pg_url("//h:5432/"), None);
    assert_eq!(
        parse_my_url("mysql://h/d"),
        Some(("h".to_string(), "d".to_string()))
    );
    assert_eq!(parse_my_url("//h:3306/d"), None);
}
