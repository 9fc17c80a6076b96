use restful_dsl::error::Error;
use restful_dsl::project::Value;
use restful_dsl::restful::{
    check_restful_code_err, parse_json_from_string, CheckResult, ErrorLocation, ErrorVariant,
    RestfulParser,
};
use restful_dsl::tree::Rule;

fn to_json(v: &Value) -> serde_json::Value {
    match v {
        Value::Object(pairs) => {
            let mut m = serde_json::Map::new();
            for (k, x) in pairs {
                m.insert(k.clone(), to_json(x));
            }
            serde_json::Value::Object(m)
        }
        Value::Array(items) => serde_json::Value::Array(items.iter().map(to_json).collect()),
        Value::Str(s) => serde_json::Value::String(s.clone()),
        Value::Num(n) => serde_json::Value::Number((*n).into()),
        Value::Bool(b) => serde_json::Value::Bool(*b),
    }
}

#[test]
fn single_namespace_checks_clean() {
    let r = check_restful_code_err("namespace java com.example.pkg");
    assert!(r.success);
    assert!(r.location.is_none());
    assert!(r.line_col.is_none());
    assert!(r.message.is_none());
    assert!(parse_json_from_string("namespace java com.example.pkg".to_string()).is_ok());
}

#[test]
fn leading_underscore_identifier_accepted() {
    let r = check_restful_code_err("namespace java _asd");
    assert!(r.success);
}

#[test]
fn backslash_import_rejected() {
    let r = check_restful_code_err(r#"import "D:\test.restl""#);
    assert!(!r.success);
    assert_eq!(r.location, Some(ErrorLocation::Pos(10)));
    assert_eq!(r.line_col, Some(ErrorLocation::PosLine((1, 11))));
    let message = r.message.unwrap();
    assert_eq!(message, "expected one of [path], rejected [backslash]");
}

#[test]
fn nested_generic_field_depth_three() {
    let r = RestfulParser::parse(Rule::ClassField, "map<i64, map<double,list<string>>>attr");
    assert!(r.is_ok());
}

#[test]
fn stray_token_names_declaration_keywords() {
    let input = "namespace java org.java\nasd";
    let r = check_restful_code_err(input);
    assert!(!r.success);
    let message = r.message.clone().unwrap();
    assert_eq!(
        message,
        "expected one of [namespace, import, enum, class, interface, EOI], rejected []"
    );
    match r.location {
        Some(ErrorLocation::Pos(p)) => assert!(p <= input.len()),
        other => panic!("unexpected location {:?}", other),
    }
    match r.line_col {
        Some(ErrorLocation::PosLine((line, col))) => {
            assert_eq!(line, 2);
            assert_eq!(col, 1);
        }
        other => panic!("unexpected line_col {:?}", other),
    }
}

#[test]
fn empty_enum_body_accepted() {
    let r = check_restful_code_err("enum Platform { }");
    assert!(r.success);
}

#[test]
fn empty_input_is_a_valid_empty_schema() {
    let r = check_restful_code_err("");
    assert!(r.success);
    let v = parse_json_from_string(String::new()).unwrap();
    assert_eq!(v, Value::Array(vec![]));
}

#[test]
fn default_check_result_is_success() {
    let r = CheckResult::default();
    assert!(r.success);
    assert!(r.location.is_none());
    assert!(r.line_col.is_none());
    assert!(r.message.is_none());
}

#[test]
fn projected_value_serializes_as_json() {
    let content = r#"namespace java com.example.pkg
        import "../other.restl"
        enum Kind { A = 1, B = 2 }
        class Item { required i64 id optional map<string, list<i64>> tags }
        interface Api { Item fetch(required i64 id) }
        "#;
    let value = parse_json_from_string(content.to_string()).unwrap();
    let text = to_json(&value).to_string();
    let reparsed: Result<serde_json::Value, _> = serde_json::from_str(&text);
    assert!(reparsed.is_ok());
    assert!(text.contains("\"com.example.pkg\""));
    assert!(text.contains("\"namespace\""));
}

#[test]
fn parse_twice_yields_identical_values() {
    let content = "namespace java a.b\nclass C { i64 x }";
    let v1 = parse_json_from_string(content.to_string()).unwrap();
    let v2 = parse_json_from_string(content.to_string()).unwrap();
    assert_eq!(v1, v2);
}

#[test]
fn projected_namespace_carries_text() {
    let value = parse_json_from_string("namespace java com.example.pkg".to_string()).unwrap();
    let text = to_json(&value).to_string();
    assert!(text.contains("\"java\""));
    assert!(text.contains("\"com.example.pkg\""));
}

#[test]
fn nesting_past_the_limit_reports_bounded_failure() {
    let mut field = String::new();
    for _ in 0..80 {
        field.push_str("map<i64, ");
    }
    field.push_str("i64");
    for _ in 0..80 {
        field.push('>');
    }
    field.push_str(" attr");
    let input = format!("class A {{ {} }}", field);
    let r = check_restful_code_err(&input);
    assert!(!r.success);
    assert_eq!(r.message.unwrap(), "type nesting too deep");
}

#[test]
fn parse_error_variant_carries_expected_sets() {
    let r = RestfulParser::parse(Rule::Namespace, "names");
    match r {
        Err(e) => match e.variant {
            ErrorVariant::ParsingError { positives, negatives } => {
                assert_eq!(positives, vec![Rule::Namespace]);
                assert!(negatives.is_empty());
            }
            other => panic!("unexpected variant {:?}", other),
        },
        Ok(_) => panic!("expected a failure"),
    }
}

#[test]
fn error_message_for_stray_token() {
    let e = parse_json_from_string("namespace java a.b\nasd".to_string()).unwrap_err();
    match &e {
        Error::ParseRestError(_) => {}
        other => panic!("unexpected error {:?}", other),
    }
    let message = e.message();
    assert!(message.contains("expected one of"));
}

#[test]
fn unterminated_block_comment_fails() {
    let r = check_restful_code_err("namespace java a.b /* open");
    assert!(!r.success);
}

#[test]
fn comments_skipped_everywhere() {
    let r = check_restful_code_err(
        "// leading\nnamespace java a.b /* between */ import \"x/y.restl\"\nenum E { /* body */ }",
    );
    assert!(r.success);
}
