use testbox::json::{
    expect_equal as expect_equal_args, expect_match as expect_match_args, json_decode,
    json_encode, json_equal, match_partial_value, try_json_decode, ExpectError, Json, ScriptArg,
};
use testbox::script_error::ScriptError;

fn num(t: &str) -> Json {
    Json::Number(t.to_string())
}

fn text(t: &str) -> Json {
    Json::Str(t.to_string())
}

fn obj(entries: Vec<(&str, Json)>) -> Json {
    Json::Object(entries.into_iter().map(|(k, v)| (k.to_string(), v)).collect())
}

fn dup(v: &Json) -> Json {
    match v {
        Json::Null => Json::Null,
        Json::Bool(b) => Json::Bool(*b),
        Json::Number(t) => Json::Number(t.clone()),
        Json::Str(t) => Json::Str(t.clone()),
        Json::Array(items) => Json::Array(items.iter().map(dup).collect()),
        Json::Object(entries) => {
            Json::Object(entries.iter().map(|(k, v)| (k.clone(), dup(v))).collect())
        }
    }
}

fn table(v: &Json) -> ScriptArg {
    ScriptArg { is_table: true, json: Some(dup(v)) }
}

fn scalar(v: &Json) -> ScriptArg {
    ScriptArg { is_table: false, json: Some(dup(v)) }
}

fn function() -> ScriptArg {
    ScriptArg { is_table: false, json: None }
}

fn expect_equal(a: &Json, b: &Json) -> Result<(), ExpectError> {
    expect_equal_args(&vec![scalar(a), scalar(b)])
}

fn expect_match(a: &Json, b: &Json) -> Result<(), ExpectError> {
    expect_match_args(&vec![table(a), table(b)])
}

fn runtime_message(r: Result<(), ExpectError>) -> String {
    match r {
        Err(ExpectError::Script(ScriptError::Runtime(m))) => m,
        Err(ExpectError::Script(ScriptError::Bind)) => panic!("bind error"),
        Err(ExpectError::NotJson) => panic!("not JSON"),
        Ok(()) => panic!("no error"),
    }
}

#[test]
fn readme_equal_values_pass() {
    assert!(expect_equal(&num("2"), &num("2")).is_ok());
}

#[test]
fn readme_unequal_values_report_both() {
    let m = runtime_message(expect_equal(&num("1"), &num("2")));
    assert_eq!(m, "Not equal!\nLeft:  1\nRight: 2");
}

#[test]
fn unequal_strings_are_rendered_as_json() {
    let m = runtime_message(expect_equal(&text("a\"b"), &Json::Null));
    assert_eq!(m, "Not equal!\nLeft:  \"a\\\"b\"\nRight: null");
}

#[test]
fn float_zeros_are_equal_and_ints_differ_from_floats() {
    assert!(json_equal(&num("0.0"), &num("-0.0")));
    assert!(!json_equal(&num("1"), &num("1.0")));
    assert!(json_equal(&num("1.5"), &num("1.5")));
}

#[test]
fn equality_is_structural_and_ordered() {
    let a = obj(vec![("a", num("1")), ("b", Json::Array(vec![Json::Bool(true), Json::Null]))]);
    let b = obj(vec![("a", num("1")), ("b", Json::Array(vec![Json::Bool(true), Json::Null]))]);
    let c = obj(vec![("a", num("1")), ("b", Json::Array(vec![Json::Bool(false), Json::Null]))]);
    assert!(json_equal(&a, &b));
    assert!(!json_equal(&a, &c));
    assert!(!json_equal(&Json::Array(vec![]), &obj(vec![])));
}

#[test]
fn equal_takes_exactly_two_arguments() {
    let one = num("1");
    assert!(matches!(
        expect_equal_args(&vec![scalar(&one)]),
        Err(ExpectError::Script(ScriptError::Bind))
    ));
    assert!(matches!(
        expect_equal_args(&vec![scalar(&one), scalar(&one), scalar(&one)]),
        Err(ExpectError::Script(ScriptError::Bind))
    ));
    assert!(matches!(expect_equal_args(&vec![]), Err(ExpectError::Script(ScriptError::Bind))));
}

#[test]
fn equal_needs_json_values() {
    assert!(matches!(
        expect_equal_args(&vec![scalar(&num("1")), function()]),
        Err(ExpectError::NotJson)
    ));
}

#[test]
fn match_takes_exactly_two_arguments() {
    let t = obj(vec![("a", num("1"))]);
    assert!(matches!(
        expect_match_args(&vec![table(&t)]),
        Err(ExpectError::Script(ScriptError::Bind))
    ));
    let empty = obj(vec![]);
    assert!(matches!(
        expect_match_args(&vec![table(&empty), table(&empty), table(&empty)]),
        Err(ExpectError::Script(ScriptError::Bind))
    ));
}

#[test]
fn match_needs_two_tables() {
    let t = obj(vec![("a", num("1"))]);
    let m = runtime_message(expect_match_args(&vec![scalar(&num("1")), table(&t)]));
    assert_eq!(m, "expect_match expects two tables");
    let m = runtime_message(expect_match_args(&vec![table(&t), scalar(&text("x"))]));
    assert_eq!(m, "expect_match expects two tables");
    let m = runtime_message(expect_match_args(&vec![table(&t), function()]));
    assert_eq!(m, "expect_match expects two tables");
}

#[test]
fn match_needs_json_tables() {
    let t = obj(vec![]);
    let broken = ScriptArg { is_table: true, json: None };
    assert!(matches!(expect_match_args(&vec![table(&t), broken]), Err(ExpectError::NotJson)));
}

#[test]
fn match_ignores_extra_keys() {
    let actual = obj(vec![("id", num("7")), ("name", text("ann")), ("extra", Json::Bool(true))]);
    let expected = obj(vec![("name", text("ann"))]);
    assert!(expect_match(&actual, &expected).is_ok());
    assert_eq!(match_partial_value(&actual, &expected, "$"), None);
}

#[test]
fn match_reports_a_missing_key() {
    let actual = obj(vec![("id", num("7"))]);
    let expected = obj(vec![("user", obj(vec![("name", text("ann"))]))]);
    let m = runtime_message(expect_match(&actual, &expected));
    assert_eq!(m, "Not matching!\nMissing key: $.user\nRight:       {\"name\":\"ann\"}");
}

#[test]
fn match_reports_a_nested_difference() {
    let actual = obj(vec![("user", obj(vec![("name", text("bob")), ("age", num("3"))]))]);
    let expected = obj(vec![("user", obj(vec![("name", text("ann"))]))]);
    let m = runtime_message(expect_match(&actual, &expected));
    assert_eq!(m, "Not matching!\nAt:    $.user.name\nLeft:  \"bob\"\nRight: \"ann\"");
}

#[test]
fn match_of_object_against_non_object() {
    let m = match_partial_value(&num("1"), &obj(vec![("a", num("1"))]), "$").unwrap();
    assert_eq!(m, "At:    $\nLeft:  1\nRight: {\"a\":1}");
}

#[test]
fn arrays_must_match_exactly() {
    let actual = obj(vec![("xs", Json::Array(vec![num("1"), num("2")]))]);
    let expected = obj(vec![("xs", Json::Array(vec![num("1")]))]);
    let m = match_partial_value(&actual, &expected, "$").unwrap();
    assert_eq!(m, "At:    $.xs\nLeft:  [1,2]\nRight: [1]");
}

#[test]
fn a_value_matches_itself() {
    let v = obj(vec![("a", obj(vec![("b", num("1.25"))])), ("c", Json::Array(vec![text("x")]))]);
    assert!(expect_match(&v, &v).is_ok());
    assert!(expect_equal(&v, &v).is_ok());
}

#[test]
fn decode_and_encode() {
    let v = json_decode("{\"b\": [1, 2.5, \"x\"], \"a\": null}");
    assert_eq!(json_encode(&v), "{\"a\":null,\"b\":[1,2.5,\"x\"]}");
    assert!(json_equal(&v, &obj(vec![("a", Json::Null), ("b", Json::Array(vec![num("1"), num("2.5"), text("x")]))])));
    assert!(try_json_decode("{not json").is_none());
    assert!(try_json_decode("").is_none());
    assert!(json_equal(&json_decode("-0.0"), &num("0.0")));
    assert!(json_equal(&try_json_decode("[true]").unwrap(), &Json::Array(vec![Json::Bool(true)])));
}

#[test]
fn equality_does_not_depend_on_argument_order() {
    let pairs = [
        (num("1"), num("1.0")),
        (num("0.0"), num("-0.0")),
        (text("a"), text("a")),
        (obj(vec![("k", Json::Null)]), obj(vec![("k", Json::Bool(false))])),
    ];
    for (a, b) in pairs.iter() {
        assert_eq!(expect_equal(a, b).is_ok(), expect_equal(b, a).is_ok());
    }
}

#[test]
fn dropping_expected_keys_keeps_a_match() {
    let actual = obj(vec![
        ("a", obj(vec![("b", num("1")), ("c", text("x"))])),
        ("d", Json::Array(vec![num("2")])),
    ]);
    let expected = obj(vec![
        ("a", obj(vec![("b", num("1")), ("c", text("x"))])),
        ("d", Json::Array(vec![num("2")])),
    ]);
    assert!(expect_match(&actual, &expected).is_ok());
    let fewer = obj(vec![("a", obj(vec![("c", text("x"))]))]);
    assert!(expect_match(&actual, &fewer).is_ok());
    let fewer_still = obj(vec![("a", obj(vec![]))]);
    assert!(expect_match(&actual, &fewer_still).is_ok());
}

#[test]
fn an_empty_expected_object_matches_any_object() {
    let empty = obj(vec![]);
    assert!(expect_match(&obj(vec![("k", Json::Null)]), &empty).is_ok());
    assert!(expect_match(&empty, &empty).is_ok());
    assert_eq!(match_partial_value(&Json::Array(vec![]), &empty, "$").unwrap(), "At:    $\nLeft:  []\nRight: {}");
}

#[test]
fn objects_read_in_any_key_order_are_equal() {
    let a = json_decode("{\"b\": 1, \"a\": {\"y\": [], \"x\": null}}");
    let b = json_decode("{\"a\": {\"x\": null, \"y\": []}, \"b\": 1}");
    assert!(json_equal(&a, &b));
    assert!(expect_equal(&a, &b).is_ok());
    let c = json_decode("{\"a\": {\"x\": null, \"z\": []}, \"b\": 1}");
    assert!(!json_equal(&a, &c));
}
