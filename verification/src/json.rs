//! JSON values as the scripts' helpers see them: equality, partial matching
//! with a message that points at the first difference, and the helpers
//! `expect_equal`, `expect_match`, `json_encode` and `json_decode`.

use vstd::prelude::*;

use crate::script_error::ScriptError;
use crate::text::{append_chars, from_chars, slice_chars, to_chars};

verus! {

/// A JSON value.
///
/// A number is kept as the text that `serde_json` writes for it: an integer in
/// decimal, a float in its shortest form with a fraction or an exponent. The
/// entries of an object are kept in the order in which its map yields them.
#[derive(Debug)]
pub enum Json {
    Null,
    Bool(bool),
    Number(String),
    Str(String),
    Array(Vec<Json>),
    Object(Vec<(String, Json)>),
}

#[verifier::external_type_specification]
#[verifier::external_body]
pub struct ExJsonValue(serde_json::Value);

/// Whether a number text is that of a float zero, which compares equal to the
/// other float zero.
pub open spec fn is_float_zero(t: Seq<char>) -> bool {
    t == seq!['0', '.', '0'] || t == seq!['-', '0', '.', '0']
}

/// Equality of two numbers given by their texts: as written, or both float
/// zeros.
pub open spec fn number_eq(a: Seq<char>, b: Seq<char>) -> bool {
    a == b || (is_float_zero(a) && is_float_zero(b))
}

/// Equality of JSON values: the same kind, numbers equal as numbers, strings
/// equal, arrays and objects equal entry by entry, in order. Objects read from
/// JSON text have their keys in order, so for them this is equality as maps
/// (`object_equality_is_map_equality`).
pub open spec fn json_eq(a: Json, b: Json) -> bool
    decreases a,
{
    match a {
        Json::Null => b is Null,
        Json::Bool(x) => b matches Json::Bool(y) && x == y,
        Json::Number(x) => b matches Json::Number(y) && number_eq(x@, y@),
        Json::Str(x) => b matches Json::Str(y) && x@ == y@,
        Json::Array(xs) => b matches Json::Array(ys) && xs@.len() == ys@.len() && forall|i: int|
            0 <= i < xs@.len() ==> json_eq(#[trigger] xs@[i], ys@[i]),
        Json::Object(xs) => b matches Json::Object(ys) && xs@.len() == ys@.len() && forall|i: int|
            0 <= i < xs@.len() ==> (#[trigger] xs@[i]).0@ == ys@[i].0@ && json_eq(
                xs@[i].1,
                ys@[i].1,
            ),
    }
}

/// The value of the first entry with this key.
pub open spec fn lookup(entries: Seq<(String, Json)>, key: Seq<char>) -> Option<Json>
    decreases entries.len(),
{
    if entries.len() == 0 {
        None
    } else if entries[0].0@ == key {
        Some(entries[0].1)
    } else {
        lookup(entries.drop_first(), key)
    }
}

/// What `serde_json` writes for a value, in its compact form.
pub uninterp spec fn json_text(v: Json) -> Seq<char>;

/// What `serde_json` reads from a text, if the text is JSON.
pub uninterp spec fn json_parse(text: Seq<char>) -> Option<Json>;

/// The message for a value that differs from the expected one.
pub open spec fn at_message(path: Seq<char>, actual: Json, expected: Json) -> Seq<char> {
    "At:    "@ + path + "\nLeft:  "@ + json_text(actual) + "\nRight: "@ + json_text(expected)
}

/// The message for an expected key that the actual object lacks.
pub open spec fn missing_message(key_path: Seq<char>, expected: Json) -> Seq<char> {
    "Missing key: "@ + key_path + "\nRight:       "@ + json_text(expected)
}

/// The first difference between `actual` and what `expected` asks of it, if
/// any: an expected object asks that the actual value is an object holding
/// each of its keys, with a value that matches the expected one in turn (the
/// actual object may hold more); any other expected value asks for an equal
/// value. Keys are checked in the order of the expected object.
pub open spec fn partial_mismatch(actual: Json, expected: Json, path: Seq<char>) -> Option<
    Seq<char>,
>
    decreases expected,
{
    match expected {
        Json::Object(expected_entries) => match actual {
            Json::Object(actual_entries) => entries_mismatch(
                actual_entries@,
                expected_entries@,
                path,
            ),
            _ => Some(at_message(path, actual, expected)),
        },
        _ => if json_eq(actual, expected) {
            None
        } else {
            Some(at_message(path, actual, expected))
        },
    }
}

/// The first difference between an actual object and the entries that an
/// expected object asks for.
pub open spec fn entries_mismatch(
    actual: Seq<(String, Json)>,
    expected: Seq<(String, Json)>,
    path: Seq<char>,
) -> Option<Seq<char>>
    decreases expected,
{
    if expected.len() == 0 {
        None
    } else {
        let key_path = path + seq!['.'] + expected[0].0@;
        let first = match lookup(actual, expected[0].0@) {
            None => Some(missing_message(key_path, expected[0].1)),
            Some(actual_value) => partial_mismatch(actual_value, expected[0].1, key_path),
        };
        match first {
            Some(message) => Some(message),
            None => entries_mismatch(actual, expected.drop_first(), path),
        }
    }
}

/// Turns a value into `serde_json`'s form, one node for one node; a number
/// text that does not read as a number becomes `null`.
#[verifier::external_body]
fn to_serde_value(v: &Json) -> serde_json::Value {
    match v {
        Json::Null => serde_json::Value::Null,
        Json::Bool(b) => serde_json::Value::Bool(*b),
        Json::Number(text) => match text.parse::<serde_json::Number>() {
            Ok(n) => serde_json::Value::Number(n),
            Err(_) => serde_json::Value::Null,
        },
        Json::Str(s) => serde_json::Value::String(s.clone()),
        Json::Array(items) => serde_json::Value::Array(items.iter().map(to_serde_value).collect()),
        Json::Object(entries) => serde_json::Value::Object(
            entries.iter().map(|(k, x)| (k.clone(), to_serde_value(x))).collect(),
        ),
    }
}

/// Turns a value of `serde_json` into this library's form, one node for one
/// node; a number is kept as the text `serde_json` writes for it.
#[verifier::external_body]
fn from_serde_value(v: &serde_json::Value) -> Json {
    match v {
        serde_json::Value::Null => Json::Null,
        serde_json::Value::Bool(b) => Json::Bool(*b),
        serde_json::Value::Number(n) => Json::Number(n.to_string()),
        serde_json::Value::String(s) => Json::Str(s.clone()),
        serde_json::Value::Array(items) => Json::Array(items.iter().map(from_serde_value).collect()),
        serde_json::Value::Object(map) => Json::Object(
            map.iter().map(|(k, x)| (k.clone(), from_serde_value(x))).collect(),
        ),
    }
}

/// Calls `serde_json::Value`'s `Display` (the compact JSON text); the result is
/// named `json_text`.
#[verifier::external_body]
fn render_json(v: &Json) -> (r: String)
    ensures
        r@ == json_text(*v),
{
    to_serde_value(v).to_string()
}

/// Calls `serde_json::from_str` for a `serde_json::Value`; the result, `None`
/// where the text is not JSON, is named `json_parse`. A value read so has each
/// object's keys in strictly increasing order, since `serde_json`'s map is a
/// `BTreeMap<String, Value>` and iterating it yields its unique keys in
/// ascending order, which for strings is the order of their code points.
#[verifier::external_body]
fn parse_json(text: &str) -> (r: Option<Json>)
    ensures
        r == json_parse(text@),
        r matches Some(v) ==> json_wf(v),
{
    match serde_json::from_str::<serde_json::Value>(text) {
        Ok(v) => Some(from_serde_value(&v)),
        Err(_) => None,
    }
}

/// Whether a number text is that of a float zero.
fn float_zero(t: &String) -> (r: bool)
    ensures
        r == is_float_zero(t@),
{
    let zero = to_chars("0.0");
    let negative_zero = to_chars("-0.0");
    proof {
        reveal_strlit("0.0");
        reveal_strlit("-0.0");
    }
    let shown = from_chars(&zero);
    let negative_shown = from_chars(&negative_zero);
    assert(shown@ =~= seq!['0', '.', '0']);
    assert(negative_shown@ =~= seq!['-', '0', '.', '0']);
    *t == shown || *t == negative_shown
}

/// Equality of JSON values.
pub fn json_equal(a: &Json, b: &Json) -> (r: bool)
    ensures
        r == json_eq(*a, *b),
    decreases a,
{
    match a {
        Json::Null => match b {
            Json::Null => true,
            _ => false,
        },
        Json::Bool(x) => match b {
            Json::Bool(y) => *x == *y,
            _ => false,
        },
        Json::Number(x) => match b {
            Json::Number(y) => *x == *y || (float_zero(x) && float_zero(y)),
            _ => false,
        },
        Json::Str(x) => match b {
            Json::Str(y) => *x == *y,
            _ => false,
        },
        Json::Array(xs) => match b {
            Json::Array(ys) => {
                if xs.len() != ys.len() {
                    return false;
                }
                let n = xs.len();
                let mut i: usize = 0;
                while i < n
                    invariant
                        n == xs@.len(),
                        n == ys@.len(),
                        *a == Json::Array(*xs),
                        *b == Json::Array(*ys),
                        i <= n,
                        forall|j: int| 0 <= j < i ==> json_eq(#[trigger] xs@[j], ys@[j]),
                    decreases n - i,
                {
                    proof {
                        assert(decreases_to!(*a => (*a)->Array_0));
                        assert(decreases_to!(*xs => xs@));
                        assert(decreases_to!(xs@ => xs@[i as int]));
                    }
                    if !json_equal(&xs[i], &ys[i]) {
                        return false;
                    }
                    i = i + 1;
                }
                true
            },
            _ => false,
        },
        Json::Object(xs) => match b {
            Json::Object(ys) => {
                if xs.len() != ys.len() {
                    return false;
                }
                let n = xs.len();
                let mut i: usize = 0;
                while i < n
                    invariant
                        n == xs@.len(),
                        n == ys@.len(),
                        *a == Json::Object(*xs),
                        *b == Json::Object(*ys),
                        i <= n,
                        forall|j: int|
                            0 <= j < i ==> (#[trigger] xs@[j]).0@ == ys@[j].0@ && json_eq(
                                xs@[j].1,
                                ys@[j].1,
                            ),
                    decreases n - i,
                {
                    proof {
                        assert(decreases_to!(*a => (*a)->Object_0));
                        assert(decreases_to!(*xs => xs@));
                        assert(decreases_to!(xs@ => xs@[i as int]));
                        assert(decreases_to!(xs@[i as int] => xs@[i as int].1));
                    }
                    if xs[i].0 != ys[i].0 {
                        return false;
                    }
                    if !json_equal(&xs[i].1, &ys[i].1) {
                        return false;
                    }
                    i = i + 1;
                }
                true
            },
            _ => false,
        },
    }
}

/// The position of the first entry with this key.
pub(crate) fn find_key(entries: &Vec<(String, Json)>, key: &String) -> (r: Option<usize>)
    ensures
        match r {
            Some(i) => i < entries@.len() && lookup(entries@, key@) == Some(entries@[i as int].1),
            None => lookup(entries@, key@) is None,
        },
{
    let n = entries.len();
    let mut i: usize = 0;
    assert(entries@.skip(0) =~= entries@);
    while i < n
        invariant
            n == entries@.len(),
            i <= n,
            lookup(entries@, key@) == lookup(entries@.skip(i as int), key@),
        decreases n - i,
    {
        assert(entries@.skip(i as int)[0] == entries@[i as int]);
        if entries[i].0 == *key {
            return Some(i);
        }
        assert(entries@.skip(i as int).drop_first() =~= entries@.skip(i + 1));
        i = i + 1;
    }
    None
}

/// The message for a value that differs from the expected one.
fn at_message_chars(path: &Vec<char>, actual: &Json, expected: &Json) -> (r: Vec<char>)
    ensures
        r@ == at_message(path@, *actual, *expected),
{
    let mut m = to_chars("At:    ");
    append_chars(&mut m, path);
    append_chars(&mut m, &to_chars("\nLeft:  "));
    append_chars(&mut m, &to_chars(render_json(actual).as_str()));
    append_chars(&mut m, &to_chars("\nRight: "));
    append_chars(&mut m, &to_chars(render_json(expected).as_str()));
    m
}

/// The message for an expected key that the actual object lacks.
fn missing_message_chars(key_path: &Vec<char>, expected: &Json) -> (r: Vec<char>)
    ensures
        r@ == missing_message(key_path@, *expected),
{
    let mut m = to_chars("Missing key: ");
    append_chars(&mut m, key_path);
    append_chars(&mut m, &to_chars("\nRight:       "));
    append_chars(&mut m, &to_chars(render_json(expected).as_str()));
    m
}

/// The first difference between `actual` and what `expected` asks of it.
fn partial_mismatch_chars(actual: &Json, expected: &Json, path: &Vec<char>) -> (r: Option<
    Vec<char>,
>)
    ensures
        match r {
            Some(m) => partial_mismatch(*actual, *expected, path@) == Some(m@),
            None => partial_mismatch(*actual, *expected, path@) is None,
        },
    decreases expected, 1nat,
{
    match expected {
        Json::Object(expected_entries) => match actual {
            Json::Object(actual_entries) => {
                assert(expected_entries@.skip(0) =~= expected_entries@);
                entries_mismatch_chars(actual_entries, expected_entries, 0, path)
            },
            _ => Some(at_message_chars(path, actual, expected)),
        },
        _ => {
            if json_equal(actual, expected) {
                None
            } else {
                Some(at_message_chars(path, actual, expected))
            }
        },
    }
}

/// The first difference between an actual object and the expected entries
/// from `start` on.
fn entries_mismatch_chars(
    actual: &Vec<(String, Json)>,
    expected: &Vec<(String, Json)>,
    start: usize,
    path: &Vec<char>,
) -> (r: Option<Vec<char>>)
    requires
        start <= expected@.len(),
    ensures
        match r {
            Some(m) => entries_mismatch(actual@, expected@.skip(start as int), path@) == Some(
                m@,
            ),
            None => entries_mismatch(actual@, expected@.skip(start as int), path@) is None,
        },
    decreases expected, 0nat, expected@.len() - start,
{
    if start == expected.len() {
        return None;
    }
    let ghost rest = expected@.skip(start as int);
    assert(rest[0] == expected@[start as int]);
    assert(rest.drop_first() =~= expected@.skip(start + 1));
    let mut key_path = slice_chars(path, 0, path.len());
    key_path.push('.');
    append_chars(&mut key_path, &to_chars(expected[start].0.as_str()));
    assert(key_path@ =~= path@ + seq!['.'] + expected@[start as int].0@);
    let first = match find_key(actual, &expected[start].0) {
        None => Some(missing_message_chars(&key_path, &expected[start].1)),
        Some(i) => partial_mismatch_chars(&actual[i].1, &expected[start].1, &key_path),
    };
    match first {
        Some(m) => Some(m),
        None => entries_mismatch_chars(actual, expected, start + 1, path),
    }
}

/// The first difference between `actual` and what `expected` asks of it, with
/// `path` naming where `actual` sits.
pub fn match_partial_value(actual: &Json, expected: &Json, path: &str) -> (r: Option<String>)
    ensures
        match r {
            Some(m) => partial_mismatch(*actual, *expected, path@) == Some(m@),
            None => partial_mismatch(*actual, *expected, path@) is None,
        },
{
    let p = to_chars(path);
    match partial_mismatch_chars(actual, expected, &p) {
        Some(m) => Some(from_chars(&m)),
        None => None,
    }
}

/// The message of `expect_equal` for two values that differ.
pub open spec fn not_equal_message(a: Json, b: Json) -> Seq<char> {
    "Not equal!\nLeft:  "@ + json_text(a) + "\nRight: "@ + json_text(b)
}

/// The message of `expect_match` for a value that does not match.
pub open spec fn not_matching_message(mismatch: Seq<char>) -> Seq<char> {
    "Not matching!\n"@ + mismatch
}

/// The message of `expect_match` for arguments that are not both tables.
pub open spec fn two_tables_message() -> Seq<char> {
    "expect_match expects two tables"@
}

/// An argument of `expect_equal` or `expect_match`, as the helpers see it:
/// whether it is a table, and its JSON form, if it has one (a function, say,
/// has none).
#[derive(Debug)]
pub struct ScriptArg {
    pub is_table: bool,
    pub json: Option<Json>,
}

/// Why `expect_equal` or `expect_match` does not succeed: an error for the
/// script, or an argument that has no JSON form, which ends the run.
#[derive(Debug)]
pub enum ExpectError {
    Script(ScriptError),
    NotJson,
}

/// The JSON forms of two arguments, when both have one.
pub open spec fn both_json(args: Seq<ScriptArg>) -> Option<(Json, Json)> {
    match (args[0].json, args[1].json) {
        (Some(a), Some(b)) => Some((a, b)),
        _ => None,
    }
}

/// `expect_equal(a, b)`: takes exactly two arguments, which both need a JSON
/// form; succeeds when they are equal, and otherwise fails with a message that
/// shows both.
pub fn expect_equal(args: &Vec<ScriptArg>) -> (r: Result<(), ExpectError>)
    ensures
        match r {
            Ok(()) => {
                &&& args@.len() == 2
                &&& both_json(args@) matches Some((a, b)) && json_eq(a, b)
            },
            Err(ExpectError::Script(ScriptError::Bind)) => args@.len() != 2,
            Err(ExpectError::NotJson) => args@.len() == 2 && both_json(args@) is None,
            Err(ExpectError::Script(ScriptError::Runtime(m))) => {
                &&& args@.len() == 2
                &&& both_json(args@) matches Some((a, b)) && !json_eq(a, b) && m@
                    == not_equal_message(a, b)
            },
        },
{
    if args.len() != 2 {
        return Err(ExpectError::Script(ScriptError::Bind));
    }
    let (a, b) = match (&args[0].json, &args[1].json) {
        (Some(a), Some(b)) => (a, b),
        _ => {
            return Err(ExpectError::NotJson);
        },
    };
    if json_equal(a, b) {
        Ok(())
    } else {
        let mut m = to_chars("Not equal!\nLeft:  ");
        append_chars(&mut m, &to_chars(render_json(a).as_str()));
        append_chars(&mut m, &to_chars("\nRight: "));
        append_chars(&mut m, &to_chars(render_json(b).as_str()));
        Err(ExpectError::Script(ScriptError::Runtime(from_chars(&m))))
    }
}

/// `expect_match(actual, expected)`: takes exactly two arguments, both tables,
/// which both need a JSON form; succeeds when `actual` holds what `expected`
/// asks of it, and otherwise fails with a message that points at the first
/// difference, from the root `$`.
pub fn expect_match(args: &Vec<ScriptArg>) -> (r: Result<(), ExpectError>)
    ensures
        match r {
            Ok(()) => {
                &&& args@.len() == 2
                &&& args@[0].is_table && args@[1].is_table
                &&& both_json(args@) matches Some((a, e)) && partial_mismatch(a, e, seq!['$'])
                    is None
            },
            Err(ExpectError::Script(ScriptError::Bind)) => args@.len() != 2,
            Err(ExpectError::Script(ScriptError::Runtime(m))) => {
                &&& args@.len() == 2
                &&& if !(args@[0].is_table && args@[1].is_table) {
                    m@ == two_tables_message()
                } else {
                    both_json(args@) matches Some((a, e)) && partial_mismatch(a, e, seq!['$'])
                        matches Some(mismatch) && m@ == not_matching_message(mismatch)
                }
            },
            Err(ExpectError::NotJson) => {
                &&& args@.len() == 2
                &&& args@[0].is_table && args@[1].is_table
                &&& both_json(args@) is None
            },
        },
{
    if args.len() != 2 {
        return Err(ExpectError::Script(ScriptError::Bind));
    }
    if !args[0].is_table || !args[1].is_table {
        return Err(
            ExpectError::Script(ScriptError::Runtime("expect_match expects two tables".to_owned())),
        );
    }
    let (actual, expected) = match (&args[0].json, &args[1].json) {
        (Some(a), Some(e)) => (a, e),
        _ => {
            return Err(ExpectError::NotJson);
        },
    };
    let root = "$";
    proof {
        reveal_strlit("$");
    }
    assert(root@ =~= seq!['$']);
    let found = match_partial_value(actual, expected, root);
    match found {
        Some(mismatch) => {
            let mut m = to_chars("Not matching!\n");
            append_chars(&mut m, &to_chars(mismatch.as_str()));
            Err(ExpectError::Script(ScriptError::Runtime(from_chars(&m))))
        },
        None => Ok(()),
    }
}

/// `json_encode(value)`: the compact JSON text of a value.
pub fn json_encode(value: &Json) -> (r: String)
    ensures
        r@ == json_text(*value),
{
    render_json(value)
}

/// `json_decode(text)`: the value a JSON text holds. Text that is not JSON is
/// left out: the helper ends the run on it.
pub fn json_decode(text: &str) -> (r: Json)
    requires
        json_parse(text@) is Some,
    ensures
        json_parse(text@) == Some(r),
        json_wf(r),
{
    parse_json(text).unwrap()
}

/// Reads a text as JSON, with nothing where it is not JSON; what `json_decode`
/// gives where it is.
pub fn try_json_decode(text: &str) -> (r: Option<Json>)
    ensures
        r == json_parse(text@),
        r matches Some(v) ==> json_wf(v),
{
    match parse_json(text) {
        Some(_) => Some(json_decode(text)),
        None => None,
    }
}

/// Whether one key comes before another in the order of a map's keys: the
/// order of their characters' code points, a proper prefix first.
pub open spec fn key_less(a: Seq<char>, b: Seq<char>) -> bool
    decreases a.len(),
{
    if a.len() == 0 {
        b.len() > 0
    } else if b.len() == 0 {
        false
    } else if a[0] != b[0] {
        (a[0] as u32) < (b[0] as u32)
    } else {
        key_less(a.drop_first(), b.drop_first())
    }
}

/// No key comes before itself.
pub proof fn key_less_irreflexive(a: Seq<char>)
    ensures
        !key_less(a, a),
    decreases a.len(),
{
    if a.len() > 0 {
        key_less_irreflexive(a.drop_first());
    }
}

/// The entries of an object are in strictly increasing order of their keys,
/// as a map yields them.
pub open spec fn keys_sorted(entries: Seq<(String, Json)>) -> bool {
    forall|i: int, j: int|
        0 <= i < j < entries.len() ==> key_less(
            (#[trigger] entries[i]).0@,
            (#[trigger] entries[j]).0@,
        )
}

/// No two entries of an object share a key.
pub open spec fn keys_unique(entries: Seq<(String, Json)>) -> bool {
    forall|i: int, j: int|
        0 <= i < j < entries.len() ==> (#[trigger] entries[i]).0@ != (#[trigger] entries[j]).0@
}

/// Every object inside a value, the value included, has its keys in strictly
/// increasing order, as the map it comes from yields them; this holds of every
/// value read from JSON text.
pub open spec fn json_wf(v: Json) -> bool
    decreases v,
{
    match v {
        Json::Array(xs) => forall|i: int| 0 <= i < xs@.len() ==> json_wf(#[trigger] xs@[i]),
        Json::Object(es) => keys_sorted(es@) && forall|i: int|
            0 <= i < es@.len() ==> json_wf((#[trigger] es@[i]).1),
        _ => true,
    }
}

/// Sorted keys are unique.
pub proof fn sorted_keys_unique(es: Seq<(String, Json)>)
    requires
        keys_sorted(es),
    ensures
        keys_unique(es),
{
    assert forall|i: int, j: int| 0 <= i < j < es.len() implies (#[trigger] es[i]).0@
        != (#[trigger] es[j]).0@ by {
        if es[i].0@ == es[j].0@ {
            key_less_irreflexive(es[i].0@);
        }
    }
}

/// Every value is equal to itself.
pub proof fn json_eq_reflexive(v: Json)
    ensures
        json_eq(v, v),
    decreases v,
{
    match v {
        Json::Array(xs) => {
            assert forall|i: int| 0 <= i < xs@.len() implies json_eq(
                #[trigger] xs@[i],
                xs@[i],
            ) by {
                assert(decreases_to!(v => v->Array_0));
                json_eq_reflexive(xs@[i]);
            }
        },
        Json::Object(es) => {
            assert forall|i: int| 0 <= i < es@.len() implies (#[trigger] es@[i]).0@ == es@[i].0@
                && json_eq(es@[i].1, es@[i].1) by {
                assert(decreases_to!(v => v->Object_0));
                json_eq_reflexive(es@[i].1);
            }
        },
        _ => {},
    }
}

/// Equality does not depend on the order of the two values.
pub proof fn json_eq_symmetric(a: Json, b: Json)
    ensures
        json_eq(a, b) == json_eq(b, a),
    decreases a,
{
    match a {
        Json::Array(xs) => {
            if let Json::Array(ys) = b {
                if xs@.len() == ys@.len() {
                    assert forall|i: int| 0 <= i < xs@.len() implies json_eq(
                        #[trigger] xs@[i],
                        ys@[i],
                    ) == json_eq(ys@[i], xs@[i]) by {
                        assert(decreases_to!(a => a->Array_0));
                        json_eq_symmetric(xs@[i], ys@[i]);
                    }
                    assert(json_eq(a, b) == json_eq(b, a));
                }
            }
        },
        Json::Object(xs) => {
            if let Json::Object(ys) = b {
                if xs@.len() == ys@.len() {
                    assert forall|i: int| 0 <= i < xs@.len() implies json_eq(
                        (#[trigger] xs@[i]).1,
                        ys@[i].1,
                    ) == json_eq(ys@[i].1, xs@[i].1) by {
                        assert(decreases_to!(a => a->Object_0));
                        json_eq_symmetric(xs@[i].1, ys@[i].1);
                    }
                    assert(json_eq(a, b) == json_eq(b, a));
                }
            }
        },
        _ => {},
    }
}

proof fn lemma_lookup_unique(es: Seq<(String, Json)>, k: int)
    requires
        keys_unique(es),
        0 <= k < es.len(),
    ensures
        lookup(es, es[k].0@) == Some(es[k].1),
    decreases es.len(),
{
    if k > 0 {
        assert(es[0].0@ != es[k].0@);
        let rest = es.drop_first();
        assert forall|i: int, j: int| 0 <= i < j < rest.len() implies (#[trigger] rest[i]).0@
            != (#[trigger] rest[j]).0@ by {
            assert(rest[i] == es[i + 1] && rest[j] == es[j + 1]);
        }
        lemma_lookup_unique(rest, k - 1);
    }
}

/// A value matches itself, wherever it sits, so `expect_match(v, v)` succeeds;
/// this holds of every value whose objects have their keys in order, each key
/// once, as every value read from JSON text has.
pub proof fn json_matches_itself(v: Json, path: Seq<char>)
    requires
        json_wf(v),
    ensures
        partial_mismatch(v, v, path) is None,
    decreases v, 1nat, 0nat,
{
    match v {
        Json::Object(es) => {
            entries_match_themselves(v, 0, path);
            assert(es@.skip(0) =~= es@);
        },
        _ => {
            json_eq_reflexive(v);
        },
    }
}

proof fn entries_match_themselves(v: Json, k: int, path: Seq<char>)
    requires
        v is Object,
        json_wf(v),
        0 <= k <= v->Object_0@.len(),
    ensures
        entries_mismatch(v->Object_0@, v->Object_0@.skip(k), path) is None,
    decreases v, 0nat, (v->Object_0@.len() - k) as nat,
{
    let es = v->Object_0@;
    sorted_keys_unique(es);
    if k < es.len() {
        let rest = es.skip(k);
        assert(rest[0] == es[k]);
        assert(rest.drop_first() =~= es.skip(k + 1));
        lemma_lookup_unique(es, k);
        assert(decreases_to!(v => v->Object_0));
        assert(json_wf(es[k].1));
        json_matches_itself(es[k].1, path + seq!['.'] + es[k].0@);
        entries_match_themselves(v, k + 1, path);
    }
}

/// The order of keys is transitive.
pub proof fn key_less_transitive(a: Seq<char>, b: Seq<char>, c: Seq<char>)
    requires
        key_less(a, b),
        key_less(b, c),
    ensures
        key_less(a, c),
    decreases a.len(),
{
    if a.len() > 0 && a[0] == b[0] && b[0] == c[0] {
        key_less_transitive(a.drop_first(), b.drop_first(), c.drop_first());
    }
}

/// Two objects have the same keys.
pub open spec fn same_keys(xs: Seq<(String, Json)>, ys: Seq<(String, Json)>) -> bool {
    forall|k: Seq<char>|
        #![trigger lookup(xs, k)]
        #![trigger lookup(ys, k)]
        (lookup(xs, k) is Some) == (lookup(ys, k) is Some)
}

/// Two objects hold the same entries, as maps: the same keys, and under each
/// key equal values.
pub open spec fn same_entries(xs: Seq<(String, Json)>, ys: Seq<(String, Json)>) -> bool {
    &&& same_keys(xs, ys)
    &&& forall|k: Seq<char>|
        #[trigger] lookup(xs, k) matches Some(a) ==> (lookup(ys, k) matches Some(b) && json_eq(
            a,
            b,
        ))
}

proof fn lemma_sorted_tail(es: Seq<(String, Json)>)
    requires
        keys_sorted(es),
        es.len() > 0,
    ensures
        keys_sorted(es.drop_first()),
        lookup(es.drop_first(), es[0].0@) is None,
        forall|k: Seq<char>|
            k != es[0].0@ ==> #[trigger] lookup(es.drop_first(), k) == lookup(es, k),
{
    let rest = es.drop_first();
    assert forall|i: int, j: int| 0 <= i < j < rest.len() implies key_less(
        (#[trigger] rest[i]).0@,
        (#[trigger] rest[j]).0@,
    ) by {
        assert(rest[i] == es[i + 1] && rest[j] == es[j + 1]);
    }
    if lookup(rest, es[0].0@) is Some {
        let j = lemma_lookup_index(rest, es[0].0@);
        assert(rest[j] == es[j + 1]);
        assert(key_less(es[0].0@, es[j + 1].0@));
        key_less_irreflexive(es[0].0@);
    }
}

proof fn lemma_same_keys_same_order(xs: Seq<(String, Json)>, ys: Seq<(String, Json)>)
    requires
        keys_sorted(xs),
        keys_sorted(ys),
        same_keys(xs, ys),
    ensures
        xs.len() == ys.len(),
        forall|i: int| 0 <= i < xs.len() ==> (#[trigger] xs[i]).0@ == ys[i].0@,
    decreases xs.len(),
{
    if xs.len() == 0 {
        if ys.len() > 0 {
            assert(lookup(ys, ys[0].0@) is Some);
            assert(lookup(xs, ys[0].0@) is None);
        }
    } else if ys.len() == 0 {
        assert(lookup(xs, xs[0].0@) is Some);
        assert(lookup(ys, xs[0].0@) is None);
    } else {
        let a = xs[0].0@;
        let b = ys[0].0@;
        assert(lookup(xs, a) is Some);
        assert(lookup(ys, b) is Some);
        if a != b {
            let m = lemma_lookup_index(ys, a);
            let n = lemma_lookup_index(xs, b);
            assert(key_less(ys[0].0@, ys[m].0@));
            assert(key_less(xs[0].0@, xs[n].0@));
            key_less_transitive(a, b, a);
            key_less_irreflexive(a);
        }
        lemma_sorted_tail(xs);
        lemma_sorted_tail(ys);
        let xr = xs.drop_first();
        let yr = ys.drop_first();
        assert forall|k: Seq<char>| #![trigger lookup(xr, k)] #![trigger lookup(yr, k)]
            (lookup(xr, k) is Some) == (lookup(yr, k) is Some) by {
            if k != a {
                assert(lookup(xr, k) == lookup(xs, k));
                assert(lookup(yr, k) == lookup(ys, k));
            }
        }
        lemma_same_keys_same_order(xr, yr);
        assert forall|i: int| 0 <= i < xs.len() implies (#[trigger] xs[i]).0@ == ys[i].0@ by {
            if i > 0 {
                assert(xs[i] == xr[i - 1] && ys[i] == yr[i - 1]);
            }
        }
    }
}

/// Equality of objects whose keys are in order, each once, as the objects read
/// from JSON text have them, is equality as maps: they are equal exactly when
/// they have the same keys and equal values under each key.
pub proof fn object_equality_is_map_equality(a: Json, b: Json)
    requires
        a is Object,
        b is Object,
        keys_sorted(a->Object_0@),
        keys_sorted(b->Object_0@),
    ensures
        json_eq(a, b) <==> same_entries(a->Object_0@, b->Object_0@),
{
    let xs = a->Object_0@;
    let ys = b->Object_0@;
    sorted_keys_unique(xs);
    sorted_keys_unique(ys);
    if json_eq(a, b) {
        assert forall|k: Seq<char>| #![trigger lookup(xs, k)] #![trigger lookup(ys, k)]
            (lookup(xs, k) is Some) == (lookup(ys, k) is Some) by {
            if lookup(xs, k) is Some {
                let j = lemma_lookup_index(xs, k);
                lemma_lookup_unique(ys, j);
            }
            if lookup(ys, k) is Some {
                let j = lemma_lookup_index(ys, k);
                lemma_lookup_unique(xs, j);
            }
        }
        assert forall|k: Seq<char>| #[trigger] lookup(xs, k) is Some implies (lookup(ys, k) is Some
            && json_eq(lookup(xs, k)->Some_0, lookup(ys, k)->Some_0)) by {
            let j = lemma_lookup_index(xs, k);
            lemma_lookup_unique(ys, j);
        }
    }
    if same_entries(xs, ys) {
        lemma_same_keys_same_order(xs, ys);
        assert forall|i: int| 0 <= i < xs.len() implies (#[trigger] xs[i]).0@ == ys[i].0@
            && json_eq(xs[i].1, ys[i].1) by {
            lemma_lookup_unique(xs, i);
            lemma_lookup_unique(ys, i);
        }
    }
}

/// What equality of JSON values is, kind by kind, as `serde_json` compares
/// values: `null` equals only `null`; booleans are equal when they are the same;
/// numbers when their texts are the same or both are a float zero (`0.0`,
/// `-0.0`); strings exactly when their texts are the same, case included;
/// arrays when they have the same length and equal items at each position;
/// objects when they have the same keys at each position, with equal values.
/// Values of different kinds are never equal.
pub proof fn json_equality_by_kind(a: Json, b: Json)
    ensures
        (a is Null || b is Null) ==> (json_eq(a, b) <==> (a is Null && b is Null)),
        a matches Json::Bool(x) ==> (json_eq(a, b) <==> (b matches Json::Bool(y) && x == y)),
        a matches Json::Number(x) ==> (json_eq(a, b) <==> (b matches Json::Number(y) && (x@
            == y@ || ((x@ == seq!['0', '.', '0'] || x@ == seq!['-', '0', '.', '0']) && (y@
            == seq!['0', '.', '0'] || y@ == seq!['-', '0', '.', '0']))))),
        a matches Json::Str(x) ==> (json_eq(a, b) <==> (b matches Json::Str(y) && x@ == y@)),
        a matches Json::Array(xs) ==> (json_eq(a, b) <==> (b matches Json::Array(ys) && xs@.len()
            == ys@.len() && forall|i: int|
            0 <= i < xs@.len() ==> json_eq(#[trigger] xs@[i], ys@[i]))),
        a matches Json::Object(xs) ==> (json_eq(a, b) <==> (b matches Json::Object(ys) && xs@.len()
            == ys@.len() && forall|i: int|
            0 <= i < xs@.len() ==> (#[trigger] xs@[i]).0@ == ys@[i].0@ && json_eq(
                xs@[i].1,
                ys@[i].1,
            ))),
{
}

/// Two strings are equal as JSON exactly when their texts are the same: case
/// counts, so `"foobar"` and `"FOOBAR"` differ.
pub proof fn strings_equal_exactly_when_their_texts_do(x: String, y: String)
    ensures
        json_eq(Json::Str(x), Json::Str(y)) <==> x@ == y@,
        x@ != y@ ==> partial_mismatch(Json::Str(x), Json::Str(y), seq!['$']) == Some(
            at_message(seq!['$'], Json::Str(x), Json::Str(y)),
        ),
{
}

/// An expected value that is not an object (`null`, a boolean, a number, a
/// string, an array) asks for an equal value, arrays included, item by item:
/// there is no difference exactly when the actual value equals it, and the
/// difference is reported at the path, with both values.
pub proof fn a_non_object_pattern_asks_for_equality(actual: Json, expected: Json, path: Seq<char>)
    requires
        !(expected is Object),
    ensures
        partial_mismatch(actual, expected, path) is None <==> json_eq(actual, expected),
        !json_eq(actual, expected) ==> partial_mismatch(actual, expected, path) == Some(
            at_message(path, actual, expected),
        ),
{
}

/// An expected object asks for an object: any other actual value is reported
/// at the path, with both values. Against an actual object there is no
/// difference exactly when each expected key is present in it with a value
/// that holds, in turn, what the expected value asks, at the path extended by
/// `.` and the key; the actual object may hold more keys.
pub proof fn an_object_pattern_asks_for_each_key(actual: Json, expected: Json, path: Seq<char>)
    requires
        expected is Object,
    ensures
        !(actual is Object) ==> partial_mismatch(actual, expected, path) == Some(
            at_message(path, actual, expected),
        ),
        actual matches Json::Object(a) ==> (partial_mismatch(actual, expected, path) is None
            <==> forall|i: int|
            0 <= i < expected->Object_0@.len() ==> (lookup(
                a@,
                (#[trigger] expected->Object_0@[i]).0@,
            ) matches Some(v) && partial_mismatch(
                v,
                expected->Object_0@[i].1,
                path + seq!['.'] + expected->Object_0@[i].0@,
            ) is None)),
{
    if let Json::Object(a) = actual {
        lemma_entries_match(a@, expected->Object_0@, path);
    }
}

/// The report for an expected entry that the actual object does not hold:
/// a missing key with its path and the expected value, else the difference
/// inside its value.
pub open spec fn entry_message(
    actual: Seq<(String, Json)>,
    entry: (String, Json),
    path: Seq<char>,
) -> Seq<char> {
    let key_path = path + seq!['.'] + entry.0@;
    match lookup(actual, entry.0@) {
        None => missing_message(key_path, entry.1),
        Some(v) => partial_mismatch(v, entry.1, key_path)->Some_0,
    }
}

proof fn lemma_first_failing_entry(
    actual: Seq<(String, Json)>,
    expected: Seq<(String, Json)>,
    path: Seq<char>,
    i: int,
)
    requires
        0 <= i < expected.len(),
        forall|j: int| 0 <= j < i ==> entry_matches(actual, #[trigger] expected[j], path),
        !entry_matches(actual, expected[i], path),
    ensures
        entries_mismatch(actual, expected, path) == Some(entry_message(actual, expected[i], path)),
    decreases i,
{
    if i > 0 {
        assert(entry_matches(actual, expected[0], path));
        let rest = expected.drop_first();
        assert forall|j: int| 0 <= j < i - 1 implies entry_matches(actual, #[trigger] rest[j], path) by {
            assert(rest[j] == expected[j + 1]);
        }
        assert(rest[i - 1] == expected[i]);
        lemma_first_failing_entry(actual, rest, path, i - 1);
    }
}

/// When an actual object does not hold what an expected object asks, the
/// difference reported is that of the first expected key, in the expected
/// object's order, that it does not hold.
pub proof fn an_object_pattern_reports_its_first_failing_key(
    actual: Json,
    expected: Json,
    path: Seq<char>,
    i: int,
)
    requires
        actual is Object,
        expected is Object,
        0 <= i < expected->Object_0@.len(),
        forall|j: int|
            0 <= j < i ==> entry_matches(
                actual->Object_0@,
                #[trigger] expected->Object_0@[j],
                path,
            ),
        !entry_matches(actual->Object_0@, expected->Object_0@[i], path),
    ensures
        partial_mismatch(actual, expected, path) == Some(
            entry_message(actual->Object_0@, expected->Object_0@[i], path),
        ),
{
    lemma_first_failing_entry(actual->Object_0@, expected->Object_0@, path, i);
}

/// `smaller` asks no more than `expected`: it is `expected` with keys of
/// objects removed, at any depth.
pub open spec fn sub_pattern(smaller: Json, expected: Json) -> bool
    decreases smaller,
{
    match smaller {
        Json::Object(xs) => expected is Object && forall|i: int|
            0 <= i < xs@.len() ==> (lookup(expected->Object_0@, (#[trigger] xs@[i]).0@) matches Some(
                v,
            ) && sub_pattern(xs@[i].1, v)),
        _ => smaller == expected,
    }
}

/// The actual object holds one expected entry.
pub open spec fn entry_matches(
    actual: Seq<(String, Json)>,
    entry: (String, Json),
    path: Seq<char>,
) -> bool {
    lookup(actual, entry.0@) matches Some(v) && partial_mismatch(
        v,
        entry.1,
        path + seq!['.'] + entry.0@,
    ) is None
}

proof fn lemma_entries_match(actual: Seq<(String, Json)>, expected: Seq<(String, Json)>, path: Seq<char>)
    ensures
        entries_mismatch(actual, expected, path) is None <==> forall|i: int|
            0 <= i < expected.len() ==> entry_matches(actual, #[trigger] expected[i], path),
    decreases expected.len(),
{
    if expected.len() > 0 {
        let rest = expected.drop_first();
        lemma_entries_match(actual, rest, path);
        if entries_mismatch(actual, expected, path) is None {
            assert forall|i: int| 0 <= i < expected.len() implies entry_matches(
                actual,
                #[trigger] expected[i],
                path,
            ) by {
                if i > 0 {
                    assert(expected[i] == rest[i - 1]);
                }
            }
        }
        if forall|i: int| 0 <= i < expected.len() ==> entry_matches(actual, #[trigger] expected[i], path) {
            assert(entry_matches(actual, expected[0], path));
            assert forall|i: int| 0 <= i < rest.len() implies entry_matches(
                actual,
                #[trigger] rest[i],
                path,
            ) by {
                assert(rest[i] == expected[i + 1]);
            }
        }
    }
}

proof fn lemma_lookup_index(es: Seq<(String, Json)>, key: Seq<char>) -> (j: int)
    requires
        lookup(es, key) is Some,
    ensures
        0 <= j < es.len(),
        es[j].0@ == key,
        lookup(es, key) == Some(es[j].1),
    decreases es.len(),
{
    if es[0].0@ == key {
        0
    } else {
        let j = lemma_lookup_index(es.drop_first(), key);
        j + 1
    }
}

/// A match survives the removal of expected keys: if `actual` holds what
/// `expected` asks, it holds what any pattern with fewer keys asks.
pub proof fn dropping_expected_keys_keeps_a_match(
    actual: Json,
    expected: Json,
    smaller: Json,
    path: Seq<char>,
)
    requires
        partial_mismatch(actual, expected, path) is None,
        sub_pattern(smaller, expected),
    ensures
        partial_mismatch(actual, smaller, path) is None,
    decreases smaller,
{
    match smaller {
        Json::Object(xs) => {
            let ys = expected->Object_0@;
            assert(actual is Object);
            let ao = actual->Object_0@;
            lemma_entries_match(ao, ys, path);
            lemma_entries_match(ao, xs@, path);
            assert forall|i: int| 0 <= i < xs@.len() implies entry_matches(
                ao,
                #[trigger] xs@[i],
                path,
            ) by {
                let key = xs@[i].0@;
                let v = lookup(ys, key)->Some_0;
                let j = lemma_lookup_index(ys, key);
                assert(entry_matches(ao, ys[j], path));
                let av = lookup(ao, key)->Some_0;
                assert(decreases_to!(smaller => smaller->Object_0));
                dropping_expected_keys_keeps_a_match(av, v, xs@[i].1, path + seq!['.'] + key);
            }
        },
        _ => {},
    }
}

/// Any object holds what an empty object asks.
pub proof fn empty_expected_object_matches_any_object(actual: Json, expected: Json, path: Seq<char>)
    requires
        actual is Object,
        expected is Object,
        expected->Object_0@.len() == 0,
    ensures
        partial_mismatch(actual, expected, path) is None,
{
}

} // verus!
