use surrealdb_functions::alias::Alias;
use surrealdb_functions::ident::Ident;
use surrealdb_functions::kind::{kind, Kind};
use surrealdb_functions::statement::{
    function, functions, parse_functions, DefineFunctionStatement,
};
use surrealdb_functions::table::Table;

#[test]
fn function_normal() {
    let sql = r#"DEFINE FUNCTION fn::greet($name: string) {
	RETURN "Hello, " + $name + "!";
}"#;
    let res = function(sql);
    assert!(res.is_ok());
    let out = res.unwrap().1;
    assert_eq!(
        out,
        DefineFunctionStatement {
            comments: vec![],
            name: vec!["greet".to_string()],
            args: vec![(Ident::from("name"), Kind::String)],
        }
    );
}

#[test]
fn function_with_comments() {
    let sql = r#"
-- It is necessary to prefix the name of your function with "fn::"
-- This indicates that it's a custom function
DEFINE FUNCTION fn::greet($name: string) {
	RETURN "Hello, " + $name + "!";
}"#;
    let res = function(sql);
    assert!(res.is_ok());
    let out = res.unwrap().1;
    assert_eq!(
        out,
        DefineFunctionStatement {
            comments: vec![
                "It is necessary to prefix the name of your function with \"fn::\"".to_string(),
                "This indicates that it's a custom function".to_string()
            ],
            name: vec!["greet".to_string()],
            args: vec![(Ident::from("name"), Kind::String)],
        }
    );
}

#[test]
fn function_complex() {
    let sql = r#"
DEFINE FUNCTION fn::relation_exists::nested(
    $in: record<some>,
    $tb: string,
    $out: record<other>
) {};
"#;
    let res = function(sql);
    let out = res.unwrap().1;
    assert_eq!(
        out,
        DefineFunctionStatement {
            comments: vec![],
            name: vec!["relation_exists".to_string(), "nested".to_string()],
            args: vec![
                (
                    Ident::from("in"),
                    Kind::Record(vec![Table("some".to_string())])
                ),
                (Ident::from("tb"), Kind::String),
                (
                    Ident::from("out"),
                    Kind::Record(vec![Table("other".to_string())])
                )
            ],
        }
    );
}

#[test]
fn functions_basic() {
    let sql = r#"
-- It is necessary to prefix the name of your function with "fn::"
-- This indicates that it's a custom function
DEFINE FUNCTION fn::greet($name: string) {
    RETURN "Hello, " + $name + "!";
};

// It is necessary to prefix the name of your function with "fn::"
// This indicates that it's a custom function
DEFINE FUNCTION fn::greet($name: string) {
    RETURN "Hello, " + $name + "!";
};

# A different comment style
DEFINE FUNCTION fn::relation_exists::nested(
    $in: record<some>,
    $tb: string,
    $out: record<other>
) {};
"#;
    let res = functions(sql);
    let out = res.unwrap().1;
    assert_eq!(
        out,
        vec![
            DefineFunctionStatement {
                comments: vec![
                    "It is necessary to prefix the name of your function with \"fn::\""
                        .to_string(),
                    "This indicates that it's a custom function".to_string()
                ],
                name: vec!["greet".to_string()],
                args: vec![(Ident::from("name"), Kind::String)],
            },
            DefineFunctionStatement {
                comments: vec![
                    "It is necessary to prefix the name of your function with \"fn::\""
                        .to_string(),
                    "This indicates that it's a custom function".to_string()
                ],
                name: vec!["greet".to_string()],
                args: vec![(Ident::from("name"), Kind::String)],
            },
            DefineFunctionStatement {
                comments: vec!["A different comment style".to_string(),],
                name: vec!["relation_exists".to_string(), "nested".to_string()],
                args: vec![
                    (
                        Ident::from("in"),
                        Kind::Record(vec![Table("some".to_string())])
                    ),
                    (Ident::from("tb"), Kind::String),
                    (
                        Ident::from("out"),
                        Kind::Record(vec![Table("other".to_string())])
                    )
                ],
            }
        ]
    );
}

#[test]
fn dash_comments_become_documentation() {
    let src = "-- a\n-- b\nDEFINE FUNCTION fn::greet($name: string) {RETURN 1;}";
    let (rest, out) = function(src).unwrap();
    assert_eq!(rest, "");
    assert_eq!(
        out,
        DefineFunctionStatement {
            comments: vec!["a".to_string(), "b".to_string()],
            name: vec!["greet".to_string()],
            args: vec![(Ident::from("name"), Kind::String)],
        }
    );
    let all = parse_functions(&format!("{src};")).unwrap();
    assert_eq!(all.len(), 1);
    assert_eq!(all[0].comments, vec!["a".to_string(), "b".to_string()]);
}

#[test]
fn nested_path_and_record_of_two_tables() {
    let src = "DEFINE FUNCTION fn::ns::inner($x: record<tableA|tableB>) {};";
    let all = parse_functions(src).unwrap();
    assert_eq!(
        all,
        vec![DefineFunctionStatement {
            comments: vec![],
            name: vec!["ns".to_string(), "inner".to_string()],
            args: vec![(
                Ident::from("x"),
                Kind::Record(vec![
                    Table("tableA".to_string()),
                    Table("tableB".to_string())
                ])
            )],
        }]
    );
}

#[test]
fn nested_brace_in_body_fails_whole_parse() {
    let src = "DEFINE FUNCTION fn::f() {IF true {RETURN 1;}};";
    // The body ends at the first `}`, so `};` is left over after the statement.
    let (rest, one) = function(src).unwrap();
    assert_eq!(rest, "};");
    assert_eq!(one.name, vec!["f".to_string()]);
    assert!(functions(src).is_err());
    let err = parse_functions(src).unwrap_err();
    assert_eq!(err.pos, src.chars().count() - 2);
}

#[test]
fn trailing_text_fails_whole_parse() {
    let ok = "DEFINE FUNCTION fn::a() {};\nDEFINE FUNCTION fn::b() {};";
    assert_eq!(parse_functions(ok).unwrap().len(), 2);
    let err = parse_functions(&format!("{ok} junk")).unwrap_err();
    assert_eq!(err.pos, ok.chars().count() + 1);
    let trailing = format!("{ok}  -- done\n/* end */ ");
    assert_eq!(parse_functions(&trailing).unwrap().len(), 2);
}

#[test]
fn missing_terminator_fails() {
    assert_eq!(parse_functions("DEFINE FUNCTION fn::a() {}").unwrap_err().pos, 26);
    assert_eq!(parse_functions("").unwrap_err().pos, 0);
    assert_eq!(parse_functions("   ").unwrap_err().pos, 3);
    // The second statement does not parse, so it is left over after the first one.
    let src = "DEFINE FUNCTION fn::a() {};\nDEFINE FUNCTION fn::b( {};";
    assert_eq!(parse_functions(src).unwrap_err().pos, 28);
}

#[test]
fn extra_whitespace_and_comments_between_tokens() {
    let tight = "DEFINE FUNCTION fn::a::b($x:option<int>,$y:array<string,5>){};";
    let loose = "  DEFINE /* c */ FUNCTION\n fn::a::b ( $x : option< int > ,\t$y : array< string , 5 > ) {} ;; \n";
    let a = parse_functions(tight).unwrap();
    let b = parse_functions(loose).unwrap();
    assert_eq!(a, b);
    assert_eq!(a[0].args.len(), 2);
}

#[test]
fn keywords_are_case_insensitive() {
    let src = "define function fn::a($x: STRING, $y: Either<Int | Bool>) {};";
    let all = parse_functions(src).unwrap();
    assert_eq!(
        all[0].args,
        vec![
            (Ident::from("x"), Kind::String),
            (Ident::from("y"), Kind::Either(vec![Kind::Int, Kind::Bool]))
        ]
    );
}

#[test]
fn separation_after_define_is_required() {
    assert!(function("DEFINEFUNCTION fn::a() {}").is_err());
    assert!(function("DEFINE FUNCTIONfn::a() {}").is_ok());
    assert!(function("DEFINE FUNCTION fn:: a() {}").is_err());
}

#[test]
fn zero_arguments_and_no_comments() {
    let (_, out) = function("DEFINE FUNCTION fn::noop() {}").unwrap();
    assert!(out.args.is_empty());
    assert!(out.comments.is_empty());
}

#[test]
fn mixed_comment_styles_above_statement() {
    let src = "/* block\n text */ # hash\n// slash\n-- dash\nDEFINE FUNCTION fn::x() {};";
    let all = parse_functions(src).unwrap();
    assert_eq!(
        all[0].comments,
        vec![
            "block\n text".to_string(),
            "hash".to_string(),
            "slash".to_string(),
            "dash".to_string()
        ]
    );
}

#[test]
fn duplicate_parameter_names_are_kept() {
    let (_, out) = function("DEFINE FUNCTION fn::d($a: int, $a: bool) {}").unwrap();
    assert_eq!(
        out.args,
        vec![(Ident::from("a"), Kind::Int), (Ident::from("a"), Kind::Bool)]
    );
}

#[test]
fn kinds_of_every_form() {
    let cases: Vec<(&str, Kind)> = vec![
        ("any", Kind::Any),
        ("bool", Kind::Bool),
        ("bytes", Kind::Bytes),
        ("datetime", Kind::Datetime),
        ("decimal", Kind::Decimal),
        ("duration", Kind::Duration),
        ("float", Kind::Float),
        ("int", Kind::Int),
        ("number", Kind::Number),
        ("object", Kind::Object),
        ("point", Kind::Point),
        ("string", Kind::String),
        ("uuid", Kind::Uuid),
        ("option<bool>", Kind::Option(Box::new(Kind::Bool))),
        ("array<int>", Kind::Array(Box::new(Kind::Int), None)),
        ("array<int, 10>", Kind::Array(Box::new(Kind::Int), Some(10))),
        ("set<string,0>", Kind::SetOf(Box::new(Kind::String), Some(0))),
        (
            "set<option<uuid>>",
            Kind::SetOf(Box::new(Kind::Option(Box::new(Kind::Uuid))), None),
        ),
        (
            "record<a | `b c`>",
            Kind::Record(vec![Table("a".to_string()), Table("b c".to_string())]),
        ),
        (
            "either<int|string|array<bool>>",
            Kind::Either(vec![
                Kind::Int,
                Kind::String,
                Kind::Array(Box::new(Kind::Bool), None),
            ]),
        ),
        (
            "geometry<point | multipolygon>",
            Kind::Geometry(vec!["point".to_string(), "multipolygon".to_string()]),
        ),
        (
            "array<int, 18446744073709551615>",
            Kind::Array(Box::new(Kind::Int), Some(u64::MAX)),
        ),
    ];
    for (src, expected) in cases {
        let (rest, got) = kind(src).unwrap();
        assert_eq!(rest, "", "{src}");
        assert_eq!(got, expected, "{src}");
    }
}

#[test]
fn malformed_kinds_are_rejected() {
    for src in [
        "either<int>",
        "record<>",
        "option<int",
        "array<>",
        "geometry<>",
        "geometry<circle>",
        "unknown",
        "array<int, 18446744073709551616>",
        "array<int, x>",
    ] {
        assert!(kind(src).is_err(), "{src}");
    }
}

#[test]
fn query_for_stored_function() {
    let (_, f) = function("DEFINE FUNCTION fn::a::b($x: int, $`y z`: bool) {}").unwrap();
    assert_eq!(f.custom_function_query(), "RETURN fn::a::b($x, $`y z`)");
    let (_, g) = function("DEFINE FUNCTION fn::c() {}").unwrap();
    assert_eq!(g.custom_function_query(), "RETURN fn::c()");
}

#[test]
fn alias_transforms_names() {
    assert_eq!(Alias::AsIs.transform("greet"), "greet");
    assert_eq!(Alias::Prefix("ds_".to_string()).transform("greet"), "ds_greet");
    assert_eq!(Alias::Suffix("_db".to_string()).transform("greet"), "greet_db");
}

#[test]
fn line_comment_with_lone_carriage_return_is_not_a_comment() {
    assert!(parse_functions("-- x\ry\nDEFINE FUNCTION fn::a() {};").is_err());
    let all = parse_functions("-- x\r\nDEFINE FUNCTION fn::a() {};").unwrap();
    assert_eq!(all[0].comments, vec!["x".to_string()]);
}

#[test]
fn comments_between_tokens_are_not_documentation() {
    let plain = "DEFINE FUNCTION fn::a($x: int) {};";
    let noisy = "DEFINE -- one\n FUNCTION /* two */ fn::a( # three\n $x /**/ : -- four\n int ) {};";
    assert_eq!(parse_functions(plain).unwrap(), parse_functions(noisy).unwrap());
    assert!(parse_functions(noisy).unwrap()[0].comments.is_empty());
}
