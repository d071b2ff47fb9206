use surrealdb_functions::path::{parse_identifier, resolve_path, take_while, ResolveError};

#[test]
fn resolve_path_with_no_environment_variables() {
    let path = "./file.txt";

    let resolved = resolve_path(path, |_| unreachable!()).unwrap();

    assert_eq!(resolved, path);
}

#[test]
fn simple_environment_variable() {
    let path = "./$VAR";

    let resolved = resolve_path(path, |name| {
        assert_eq!(name, "VAR");
        Some("file.txt".to_string())
    })
    .unwrap();

    assert_eq!(resolved, "./file.txt");
}

#[test]
fn dont_resolve_recursively() {
    let path = "./$TOP_LEVEL.txt";

    let resolved = resolve_path(path, |name| match name {
        "TOP_LEVEL" => Some("$NESTED".to_string()),
        "$NESTED" => unreachable!("Shouldn't resolve recursively"),
        _ => unreachable!(),
    })
    .unwrap();

    assert_eq!(resolved, "./$NESTED.txt");
}

#[test]
fn parse_valid_identifiers() {
    let inputs = vec![
        ("a", "a"),
        ("a_", "a_"),
        ("_asf", "_asf"),
        ("a1", "a1"),
        ("a1_#sd", "a1_"),
    ];

    for (src, expected) in inputs {
        let (got, rest) = parse_identifier(src).unwrap();
        assert_eq!(got.len() + rest.len(), src.len());
        assert_eq!(got, expected);
    }
}

#[test]
fn unknown_environment_variable() {
    let path = "$UNKNOWN";

    let err = resolve_path(path, |_| None).unwrap_err();

    assert_eq!(
        err,
        ResolveError::MissingVariable {
            variable: String::from("UNKNOWN"),
        }
    );
}

#[test]
fn invalid_variables() {
    let inputs = &["$1", "$"];

    for input in inputs {
        let err = resolve_path(input, |_| unreachable!()).unwrap_err();

        assert_eq!(
            err,
            ResolveError::UnableToParseVariable {
                rest: input.to_string(),
            }
        );
    }
}

#[test]
fn resolve_value_is_not_resolved_again() {
    let resolved = resolve_path("./$A", |name| match name {
        "A" => Some("$B".to_string()),
        _ => unreachable!(),
    })
    .unwrap();
    assert_eq!(resolved, "./$B");
}

#[test]
fn resolve_missing_with_empty_lookup() {
    let err = resolve_path("$UNKNOWN", |_| None).unwrap_err();
    assert_eq!(
        err,
        ResolveError::MissingVariable {
            variable: "UNKNOWN".to_string()
        }
    );
}

#[test]
fn resolve_lone_dollar_is_malformed() {
    let err = resolve_path("$", |_| None).unwrap_err();
    assert_eq!(
        err,
        ResolveError::UnableToParseVariable {
            rest: "$".to_string()
        }
    );
}

#[test]
fn resolve_several_variables_in_order() {
    let resolved = resolve_path("$ROOT/dir/$NAME_2.surql", |name| match name {
        "ROOT" => Some("/srv".to_string()),
        "NAME_2" => Some("main".to_string()),
        _ => None,
    })
    .unwrap();
    assert_eq!(resolved, "/srv/dir/main.surql");
}

#[test]
fn resolve_missing_before_malformed() {
    let err = resolve_path("$A/$", |_| None).unwrap_err();
    assert_eq!(
        err,
        ResolveError::MissingVariable {
            variable: "A".to_string()
        }
    );
    let err = resolve_path("$A/$ rest", |_| Some("x".to_string())).unwrap_err();
    assert_eq!(
        err,
        ResolveError::UnableToParseVariable {
            rest: "$ rest".to_string()
        }
    );
}

#[test]
fn parse_identifier_rejects_leading_digit() {
    assert_eq!(parse_identifier("1abc"), None);
    assert_eq!(parse_identifier(""), None);
    assert_eq!(parse_identifier("é"), None);
}

#[test]
fn take_while_splits_at_first_failure() {
    let (head, tail) = take_while("abc1-def", |c| c.is_ascii_alphabetic());
    assert_eq!(head, "abc");
    assert_eq!(tail, "1-def");
    let (head, tail) = take_while("", |_| true);
    assert_eq!(head, "");
    assert_eq!(tail, "");
}
