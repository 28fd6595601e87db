//! The name under which a test file is reported: the first `-- Test: <name>`
//! comment line of the script, or else the file name of its path.

use vstd::prelude::*;

use crate::text::{
    lines, split_lines, strip_prefix, strip_prefix_chars, to_chars, from_chars, trim,
    trim_chars, trim_start, trim_start_chars,
};

verus! {

/// The characters that open a Lua comment.
pub open spec fn comment_marker() -> Seq<char> {
    seq!['-', '-']
}

/// The characters that introduce a test file's name in a comment.
pub open spec fn name_marker() -> Seq<char> {
    seq!['T', 'e', 's', 't', ':']
}

/// The name that one line of a script gives its test file, if it gives one:
/// the line, after white space, opens a comment whose text, after white space,
/// starts with `Test:` and continues with a name that is not blank.
pub open spec fn line_test_name(line: Seq<char>) -> Option<Seq<char>> {
    match strip_prefix(trim_start(line), comment_marker()) {
        None => None,
        Some(comment) => match strip_prefix(trim_start(comment), name_marker()) {
            None => None,
            Some(name) => if trim(name).len() > 0 {
                Some(trim(name))
            } else {
                None
            },
        },
    }
}

/// The name given by the first of `ls` that gives one.
pub open spec fn first_test_name(ls: Seq<Seq<char>>) -> Option<Seq<char>>
    decreases ls.len(),
{
    if ls.len() == 0 {
        None
    } else {
        match line_test_name(ls[0]) {
            Some(name) => Some(name),
            None => first_test_name(ls.drop_first()),
        }
    }
}

/// The name that a script gives its test file, if any of its lines gives one.
pub open spec fn script_test_name(script: Seq<char>) -> Option<Seq<char>> {
    first_test_name(lines(script))
}

/// The characters of a path after its last `/`.
pub open spec fn last_part(path: Seq<char>) -> Seq<char>
    decreases path.len(),
{
    if path.len() == 0 || path.last() == '/' {
        Seq::empty()
    } else {
        last_part(path.drop_last()).push(path.last())
    }
}

/// The file name of a path: its last component, where that is a name. A
/// trailing `/` and a trailing `.` component are left out; nothing where no
/// component is left (an empty path, `/`, `.`) or the last one is `..`.
pub open spec fn path_file_name(path: Seq<char>) -> Option<Seq<char>>
    decreases path.len(),
{
    if path.len() == 0 {
        None
    } else if path.last() == '/' {
        path_file_name(path.drop_last())
    } else if path.last() == '.' && (path.len() == 1 || path[path.len() - 2] == '/') {
        if path.len() == 1 {
            None
        } else {
            path_file_name(path.drop_last())
        }
    } else if last_part(path) == seq!['.', '.'] {
        None
    } else {
        Some(last_part(path))
    }
}

/// The name under which a test file is reported.
pub open spec fn reported_file_name(test_file: Seq<char>, script: Seq<char>) -> Seq<char> {
    match script_test_name(script) {
        Some(name) => name,
        None => match path_file_name(test_file) {
            Some(name) => name,
            None => test_file,
        },
    }
}

/// Calls `Path::new(path).file_name()` and turns the component back into text
/// (it came from text, so the conversion cannot fail). As the documentation of
/// `Path` has it on Unix: components are separated by `/`, repeated
/// separators and a trailing one are ignored, `.` components are left out but
/// at the start, and the file name is the last component where that is a
/// name, none where the path ends in `..` or has no name (`/`, `.`, empty).
#[verifier::external_body]
fn file_name_of(path: &str) -> (r: Option<String>)
    ensures
        match r {
            Some(name) => path_file_name(path@) == Some(name@),
            None => path_file_name(path@) is None,
        },
{
    match std::path::Path::new(path).file_name() {
        Some(name) => match name.to_str() {
            Some(name) => Some(name.to_string()),
            None => None,
        },
        None => None,
    }
}

/// The name that one line gives its test file, if it gives one.
fn line_name(line: &Vec<char>) -> (r: Option<Vec<char>>)
    ensures
        match r {
            Some(name) => line_test_name(line@) == Some(name@),
            None => line_test_name(line@) is None,
        },
{
    let comment_open = vec!['-', '-'];
    let name_open = vec!['T', 'e', 's', 't', ':'];
    assert(comment_open@ =~= comment_marker());
    assert(name_open@ =~= name_marker());
    let start = trim_start_chars(line);
    match strip_prefix_chars(&start, &comment_open) {
        None => None,
        Some(comment) => {
            let comment = trim_start_chars(&comment);
            match strip_prefix_chars(&comment, &name_open) {
                None => None,
                Some(name) => {
                    let name = trim_chars(&name);
                    if name.len() > 0 {
                        Some(name)
                    } else {
                        None
                    }
                },
            }
        },
    }
}

/// The name a script gives its test file in a `-- Test: <name>` comment: the
/// first such line that names it, with white space around the name removed.
pub fn parse_test_file_name(script: &str) -> (r: Option<String>)
    ensures
        match r {
            Some(name) => script_test_name(script@) == Some(name@),
            None => script_test_name(script@) is None,
        },
{
    let chars = to_chars(script);
    let all = split_lines(&chars);
    let ghost ls = lines(script@);
    assert(all@.len() == ls.len());
    let n = all.len();
    let mut k: usize = 0;
    assert(ls.skip(0) =~= ls);
    while k < n
        invariant
            n == all@.len(),
            n == ls.len(),
            ls == lines(script@),
            k <= n,
            forall|j: int| 0 <= j < n ==> (#[trigger] all@[j])@ == ls[j],
            first_test_name(ls) == first_test_name(ls.skip(k as int)),
        decreases n - k,
    {
        assert(ls.skip(k as int).drop_first() =~= ls.skip(k + 1));
        assert(ls.skip(k as int)[0] == ls[k as int]);
        match line_name(&all[k]) {
            Some(name) => {
                return Some(from_chars(&name));
            },
            None => {},
        }
        k = k + 1;
    }
    None
}

/// The name under which a test file is reported: the one its script gives,
/// or else the file name of its path, or else the path as given.
pub fn test_file_name(test_file: &str, script: &str) -> (r: String)
    ensures
        r@ == reported_file_name(test_file@, script@),
{
    match parse_test_file_name(script) {
        Some(name) => name,
        None => match file_name_of(test_file) {
            Some(name) => name,
            None => test_file.to_owned(),
        },
    }
}

} // verus!
