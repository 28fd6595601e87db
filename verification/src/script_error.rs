//! Errors between the runner and the scripts: those the library raises into a
//! script, and those it catches when a script's function fails.

use vstd::prelude::*;

use crate::text::{append_chars, from_chars, to_chars};

verus! {

/// An error that a helper raises into the calling script.
#[derive(Debug)]
pub enum ScriptError {
    /// A runtime error with this message.
    Runtime(String),
    /// The helper was called with the wrong number of arguments.
    Bind,
}

/// What kind of error a script's function failed with, as far as the runner
/// looks into it.
#[derive(Debug)]
pub enum CaughtKind {
    /// A runtime error raised with this message.
    Runtime(String),
    /// An error raised by a helper that the script called; the message of its
    /// cause when that cause is a runtime error.
    Callback(Option<String>),
    /// Any other error.
    Other,
}

/// An error that a script's function failed with.
#[derive(Debug)]
pub struct CaughtError {
    pub kind: CaughtKind,
    /// The error as the Lua runtime renders it.
    pub text: String,
}

/// The message that a test raises to tell the test around it that a test
/// inside failed or that the run is stopping.
pub open spec fn child_failure_marker() -> Seq<char> {
    "__testbox_child_test_failed__"@
}

/// The message that a test raises to tell the test around it that a test
/// inside failed or that the run is stopping.
pub fn child_failure_message() -> (s: String)
    ensures
        s@ == child_failure_marker(),
{
    "__testbox_child_test_failed__".to_owned()
}

/// The runtime message an error carries, directly or as the cause of a failed
/// helper call.
pub open spec fn runtime_message(err: CaughtError) -> Option<Seq<char>> {
    match err.kind {
        CaughtKind::Runtime(msg) => Some(msg@),
        CaughtKind::Callback(Some(msg)) => Some(msg@),
        _ => None,
    }
}

/// Whether an error only tells that a test inside failed.
pub open spec fn is_child_failure(err: CaughtError) -> bool {
    runtime_message(err) == Some(child_failure_marker())
}

/// How a failed test reports its error: the cause's message for a failed
/// helper call with a runtime cause, otherwise the error as rendered.
pub open spec fn error_message(err: CaughtError) -> Seq<char> {
    match err.kind {
        CaughtKind::Callback(Some(msg)) => msg@,
        _ => err.text@,
    }
}

/// The runtime message an error carries, directly or as the cause of a failed
/// helper call.
pub fn lua_runtime_error(err: &CaughtError) -> (r: Option<String>)
    ensures
        match r {
            Some(msg) => runtime_message(*err) == Some(msg@),
            None => runtime_message(*err) is None,
        },
{
    match &err.kind {
        CaughtKind::Runtime(msg) => Some(msg.clone()),
        CaughtKind::Callback(Some(msg)) => Some(msg.clone()),
        _ => None,
    }
}

/// Whether an error only tells that a test inside failed.
pub fn is_child_test_failure(err: &CaughtError) -> (r: bool)
    ensures
        r == is_child_failure(*err),
{
    match lua_runtime_error(err) {
        Some(msg) => msg == child_failure_message(),
        None => false,
    }
}

/// How a failed test reports its error.
pub fn lua_error_message(err: &CaughtError) -> (r: String)
    ensures
        r@ == error_message(*err),
{
    match &err.kind {
        CaughtKind::Callback(Some(msg)) => msg.clone(),
        _ => err.text.clone(),
    }
}

/// The message of `merge` for an argument that is not a table.
pub open spec fn merge_kind_message(kind_name: Seq<char>) -> Seq<char> {
    "merge expects tables, got "@ + kind_name
}

/// `merge` takes tables only: an argument that is one passes, and any other is
/// refused with a runtime error that names its type.
pub fn check_merge_argument(is_table: bool, kind_name: &str) -> (r: Result<(), ScriptError>)
    ensures
        match r {
            Ok(()) => is_table,
            Err(ScriptError::Runtime(m)) => !is_table && m@ == merge_kind_message(kind_name@),
            Err(ScriptError::Bind) => false,
        },
{
    if is_table {
        return Ok(());
    }
    let mut m = to_chars("merge expects tables, got ");
    append_chars(&mut m, &to_chars(kind_name));
    Err(ScriptError::Runtime(from_chars(&m)))
}

} // verus!
