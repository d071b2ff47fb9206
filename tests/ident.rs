use surrealdb_functions::ident::{escape_ident, ident, ident_raw, multi, multikeep, plain, Ident};
use surrealdb_functions::table::{table, tables, Table, Tables};

#[test]
fn ident_normal() {
    let sql = "test";
    let res = ident(sql);
    assert!(res.is_ok());
    let out = res.unwrap().1;
    assert_eq!("test", out.encode());
    assert_eq!(out, Ident::from("test"));
}

#[test]
fn ident_quoted_backtick() {
    let sql = "`test`";
    let res = ident(sql);
    assert!(res.is_ok());
    let out = res.unwrap().1;
    assert_eq!("test", out.encode());
    assert_eq!(out, Ident::from("test"));
}

#[test]
fn ident_quoted_brackets() {
    let sql = "⟨test⟩";
    let res = ident(sql);
    assert!(res.is_ok());
    let out = res.unwrap().1;
    assert_eq!("test", out.encode());
    assert_eq!(out, Ident::from("test"));
}

#[test]
fn table_normal() {
    let sql = "test";
    let res = table(sql);
    assert!(res.is_ok());
    let out = res.unwrap().1;
    assert_eq!("test", out.encode());
    assert_eq!(out, Table(String::from("test")));
}

#[test]
fn table_quoted_backtick() {
    let sql = "`test`";
    let res = table(sql);
    assert!(res.is_ok());
    let out = res.unwrap().1;
    assert_eq!("test", out.encode());
    assert_eq!(out, Table(String::from("test")));
}

#[test]
fn table_quoted_brackets() {
    let sql = "⟨test⟩";
    let res = table(sql);
    assert!(res.is_ok());
    let out = res.unwrap().1;
    assert_eq!("test", out.encode());
    assert_eq!(out, Table(String::from("test")));
}

#[test]
fn escape_bare_identifier_unchanged() {
    assert_eq!(escape_ident("abc_12"), "abc_12");
    assert_eq!(escape_ident("_"), "_");
}

#[test]
fn escape_quotes_numeric_and_special() {
    assert_eq!(escape_ident("123"), "`123`");
    assert_eq!(escape_ident("a b"), "`a b`");
    assert_eq!(escape_ident("a`b"), "`a\\`b`");
    assert_eq!(escape_ident(""), "``");
    assert_eq!(escape_ident("é"), "`é`");
}

#[test]
fn encode_then_decode_round_trips() {
    for text in ["abc", "a1_", "123", "a b", "a`b", "⟨x⟩", "tab\there", "é"] {
        let written = escape_ident(text);
        let (rest, back) = ident(&written).unwrap();
        assert_eq!(rest, "");
        assert_eq!(back.to_raw(), text);
    }
}

#[test]
fn backtick_escapes_are_decoded() {
    let (rest, out) = ident("`a\\`b\\n\\t\\\\\\/\\b\\f\\r` tail").unwrap();
    assert_eq!(rest, " tail");
    assert_eq!(out.to_raw(), "a`b\n\t\\/\u{8}\u{c}\r");
}

#[test]
fn bad_quotes_are_rejected() {
    assert!(ident("`abc").is_err());
    assert!(ident("``").is_err());
    assert!(ident("`a\\qb`").is_err());
    assert!(ident("⟨abc").is_err());
    assert!(ident("⟨⟩").is_err());
    assert!(ident("-x").is_err());
}

#[test]
fn brackets_take_anything_but_the_closing_glyph() {
    let (rest, out) = ident_raw("⟨a `b\\n⟩!").unwrap();
    assert_eq!(rest, "!");
    assert_eq!(out, "a `b\\n");
}

#[test]
fn plain_stops_at_non_identifier_char() {
    let (rest, out) = plain("abc-def").unwrap();
    assert_eq!(rest, "-def");
    assert_eq!(out.to_raw(), "abc");
    assert!(plain("`abc`").is_err());
}

#[test]
fn path_segments() {
    let (rest, segs) = multikeep("ns::inner::leaf(").unwrap();
    assert_eq!(rest, "(");
    assert_eq!(segs, vec!["ns".to_string(), "inner".to_string(), "leaf".to_string()]);
    let (rest, whole) = multi("a::b::").unwrap();
    assert_eq!(rest, "::");
    assert_eq!(whole.to_raw(), "a::b");
}

#[test]
fn table_list_with_commas() {
    let (rest, out) = tables("a , `b c`,/* x */⟨d⟩ rest").unwrap();
    assert_eq!(rest, " rest");
    assert_eq!(
        out,
        Tables(vec![
            Table("a".to_string()),
            Table("b c".to_string()),
            Table("d".to_string())
        ])
    );
    assert_eq!(out.encode(), "a, `b c`, d");
}

#[test]
fn table_encode_then_decode_round_trips() {
    for name in ["users", "9lives", "two words", "tick`ed"] {
        let written = Table(name.to_string()).encode();
        let (rest, back) = table(&written).unwrap();
        assert_eq!(rest, "");
        assert_eq!(back, Table(name.to_string()));
    }
    assert_eq!(Table("two words".to_string()).encode(), "`two words`");
}

#[test]
fn backslash_text_does_not_round_trip() {
    // Only backticks are escaped when writing, so a backslash reads back as an escape.
    let written = escape_ident("a\\n");
    assert_eq!(written, "`a\\n`");
    let (_, back) = ident(&written).unwrap();
    assert_eq!(back.to_raw(), "a\n");
    // The empty name is written as two backticks, which do not read as a name.
    assert!(ident(&escape_ident("")).is_err());
}
