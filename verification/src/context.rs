//! The state of a test run and the decisions of the `test` helper: which tests
//! run, what is printed when a test starts and ends, how a failure travels to
//! the enclosing tests, when the run stops, and which background processes a
//! finished test leaves to be stopped.

use vstd::prelude::*;

use crate::script_error::{
    error_message, is_child_failure, is_child_test_failure, lua_error_message, CaughtError,
};
use crate::test_file::{parse_test_file_name, reported_file_name, script_test_name, test_file_name};
use crate::text::{
    append_chars, from_chars, lines, lowercase, split_lines, to_chars, to_lowercase,
};

verus! {

/// How `--test-filter` (a regular expression) or `--test-filter-exact` (a name,
/// compared without regard to case) selects the tests that run.
#[derive(Debug)]
pub enum FilterMode {
    Regex(String),
    Exact(String),
}

/// A test that has started and not yet finished.
pub struct TestFrame {
    pub test_name: String,
    /// How many tests enclose it.
    pub depth: usize,
    /// Whether its start line has been printed (it is, once a test inside it
    /// starts).
    pub started: bool,
    /// Whether a test inside it failed.
    pub failed: bool,
    /// How many background processes were running when it started.
    pub process_start: usize,
    /// The background processes that were running when it started.
    pub processes_at_start: Ghost<Seq<u32>>,
}

/// The state of a test run.
pub struct LibContext {
    /// The process group ids of the background processes, oldest first.
    pub process_list: Vec<u32>,
    /// The tests that have started and not finished, outermost first.
    pub test_frames: Vec<TestFrame>,
    pub test_filter: Option<FilterMode>,
    /// Whether the first failure stops the run.
    pub fail_fast: bool,
    pub stop_requested: bool,
    pub has_failed: bool,
    pub test_file_name: String,
    pub test_file_header_printed: bool,
    /// Whether the current file gets no heading: its script came from the
    /// standard input and does not name itself.
    pub test_file_heading_hidden: bool,
    pub any_test_file_header_printed: bool,
    pub verbose_print_enabled: bool,
}

/// What `regex::Regex::new(pattern)` followed by `is_match(text)` gives:
/// nothing where the pattern does not compile, else whether the expression
/// matches somewhere in the text.
pub uninterp spec fn regex_match(pattern: Seq<char>, text: Seq<char>) -> Option<bool>;

/// Compiles `pattern` with `regex::Regex::new` and, where it compiles, asks
/// `Regex::is_match` about `text`; the result is named `regex_match`.
#[verifier::external_body]
fn regex_is_match(pattern: &str, text: &str) -> (r: Option<bool>)
    ensures
        r == regex_match(pattern@, text@),
{
    match regex::Regex::new(pattern) {
        Ok(re) => Some(re.is_match(text)),
        Err(_) => None,
    }
}

/// Whether a filter selects the test with this name: an exact filter when the
/// two are equal after lower-casing, a regular expression when it compiles
/// and matches the name.
pub open spec fn filter_matches(filter: FilterMode, name: Seq<char>) -> bool {
    match filter {
        FilterMode::Exact(value) => lowercase(value@) == lowercase(name),
        FilterMode::Regex(pattern) => regex_match(pattern@, name) == Some(true),
    }
}

/// A filter applies to the test's name exactly as given: a regular expression
/// selects a test when `Regex::new` compiles the pattern, unchanged, and its
/// `is_match` finds it anywhere in the name (no anchors are added); an exact
/// filter selects a test whose name is the filter's text up to case.
pub proof fn filters_apply_as_given(filter: FilterMode, name: Seq<char>)
    ensures
        filter matches FilterMode::Regex(p) ==> (filter_matches(filter, name) <==> regex_match(
            p@,
            name,
        ) == Some(true)),
        filter matches FilterMode::Exact(v) ==> (filter_matches(filter, name) <==> lowercase(v@)
            == lowercase(name)),
{
}

/// Whether a filter selects the test with this name.
pub fn test_match(filter: &FilterMode, test_name: &str) -> (r: bool)
    ensures
        r == filter_matches(*filter, test_name@),
        filter matches FilterMode::Regex(p) ==> r == (regex_match(p@, test_name@) == Some(true)),
        filter matches FilterMode::Exact(v) ==> r == (lowercase(v@) == lowercase(test_name@)),
{
    match filter {
        FilterMode::Exact(value) => to_lowercase(value.as_str()) == to_lowercase(test_name),
        FilterMode::Regex(pattern) => match regex_is_match(pattern.as_str(), test_name) {
            Some(found) => found,
            None => false,
        },
    }
}

/// Two spaces for each enclosing test.
pub open spec fn indent(depth: nat) -> Seq<char> {
    Seq::new(2 * depth, |i: int| ' ')
}

/// The file argument that stands for the standard input, and the name under
/// which a script read from it is reported when it does not name itself.
pub open spec fn stdin_name() -> Seq<char> {
    seq!['-']
}

/// The heading of a test file's results, after a blank line when an earlier
/// file's heading was printed.
pub open spec fn header_text(after_other_file: bool, file_name: Seq<char>) -> Seq<char> {
    (if after_other_file {
        seq!['\n']
    } else {
        Seq::empty()
    }) + seq!['\u{1F4C1}', ' '] + file_name + seq!['\n']
}

/// The line printed for a test when a test inside it starts.
pub open spec fn start_line(name: Seq<char>, depth: nat) -> Seq<char> {
    indent(depth) + seq!['\u{231B}', ' '] + name + seq!['\n']
}

/// The line printed when a test ends.
pub open spec fn result_line(name: Seq<char>, depth: nat, failed: bool) -> Seq<char> {
    indent(depth) + (if failed {
        seq!['\u{274C}', ' ']
    } else {
        seq!['\u{2705}', ' ']
    }) + name + seq!['\n']
}

/// Each line behind the indentation, each ended by a line feed.
pub open spec fn indented_lines(ind: Seq<char>, ls: Seq<Seq<char>>) -> Seq<char>
    decreases ls.len(),
{
    if ls.len() == 0 {
        Seq::empty()
    } else {
        indented_lines(ind, ls.drop_last()) + ind + ls.last() + seq!['\n']
    }
}

/// What is printed when a test ends: its result line, then the lines of its
/// error, if it has one, at the same indentation.
pub open spec fn test_report(name: Seq<char>, depth: nat, failed: bool, err: Option<Seq<char>>) -> Seq<
    char,
> {
    result_line(name, depth, failed) + match err {
        Some(e) => indented_lines(indent(depth), lines(e)),
        None => Seq::empty(),
    }
}

fn indent_chars(depth: usize) -> (r: Vec<char>)
    ensures
        r@ == indent(depth as nat),
{
    let mut r: Vec<char> = Vec::new();
    let mut i: usize = 0;
    while i < depth
        invariant
            i <= depth,
            r@ == indent(i as nat),
        decreases depth - i,
    {
        r.push(' ');
        r.push(' ');
        i = i + 1;
        assert(r@ =~= indent(i as nat));
    }
    r
}

/// What is printed when a test ends.
pub fn test_output(test_name: &str, depth: usize, failed: bool, err: Option<String>) -> (r: String)
    ensures
        r@ == test_report(
            test_name@,
            depth as nat,
            failed,
            match err {
                Some(e) => Some(e@),
                None => None,
            },
        ),
{
    let ind = indent_chars(depth);
    let mut out: Vec<char> = Vec::new();
    append_chars(&mut out, &ind);
    if failed {
        out.push('\u{274C}');
    } else {
        out.push('\u{2705}');
    }
    out.push(' ');
    append_chars(&mut out, &to_chars(test_name));
    out.push('\n');
    assert(out@ =~= result_line(test_name@, depth as nat, failed));
    match err {
        Some(e) => {
            let ls = split_lines(&to_chars(e.as_str()));
            let ghost all = lines(e@);
            let ghost head = out@;
            let n = ls.len();
            let mut k: usize = 0;
            assert(all.take(0) =~= Seq::<Seq<char>>::empty());
            while k < n
                invariant
                    n == ls@.len(),
                    n == all.len(),
                    k <= n,
                    forall|j: int| 0 <= j < n ==> (#[trigger] ls@[j])@ == all[j],
                    ind@ == indent(depth as nat),
                    out@ == head + indented_lines(ind@, all.take(k as int)),
                decreases n - k,
            {
                append_chars(&mut out, &ind);
                append_chars(&mut out, &ls[k]);
                out.push('\n');
                assert(all.take(k + 1).drop_last() =~= all.take(k as int));
                assert(out@ =~= head + indented_lines(ind@, all.take(k + 1)));
                k = k + 1;
            }
            assert(all.take(n as int) =~= all);
        },
        None => {
            assert(out@ =~= out@ + Seq::<char>::empty());
        },
    }
    from_chars(&out)
}

/// The order in which background processes from position `start` on are
/// stopped: newest first.
pub open spec fn stop_order(list: Seq<u32>, start: int) -> Seq<u32> {
    if start < list.len() {
        Seq::new((list.len() - start) as nat, |k: int| list[list.len() - 1 - k])
    } else {
        Seq::empty()
    }
}

/// What is left of a process list once those from `start` on are stopped.
pub open spec fn kept_processes(list: Seq<u32>, start: int) -> Seq<u32> {
    if start < list.len() {
        list.take(start)
    } else {
        list
    }
}

/// Takes the background processes from position `start` on off the list,
/// newest first, and returns them in that order to be stopped; the earlier
/// ones stay.
pub fn kill_processes_from(list: &mut Vec<u32>, start: usize) -> (stopped: Vec<u32>)
    ensures
        final(list)@ == kept_processes(old(list)@, start as int),
        stopped@ == stop_order(old(list)@, start as int),
{
    let ghost all = list@;
    let mut stopped: Vec<u32> = Vec::new();
    while list.len() > start
        invariant
            all.len() >= list@.len(),
            list@ == all.take(list@.len() as int),
            list@.len() >= start || list@ == all,
            stopped@.len() == all.len() - list@.len(),
            forall|k: int| 0 <= k < stopped@.len() ==> stopped@[k] == all[all.len() - 1 - k],
        decreases list@.len(),
    {
        let pid = list.pop().unwrap();
        stopped.push(pid);
        assert(list@ =~= all.take(list@.len() as int));
    }
    assert(stopped@ =~= stop_order(all, start as int));
    assert(list@ =~= kept_processes(all, start as int));
    stopped
}

/// Takes all background processes off the list, newest first, and returns
/// them in that order to be stopped.
pub fn kill_processes(list: &mut Vec<u32>) -> (stopped: Vec<u32>)
    ensures
        final(list)@ == Seq::<u32>::empty(),
        stopped@ == stop_order(old(list)@, 0),
{
    let stopped = kill_processes_from(list, 0);
    assert(final(list)@ =~= Seq::<u32>::empty()) by {
        assert(old(list)@.take(0) =~= Seq::<u32>::empty());
    }
    stopped
}

/// While the test at depth `d` runs, a step from `before` to `after` keeps its
/// frame's count of processes at its start, and the processes that were
/// running when it started.
pub open spec fn keeps_outer_processes(before: LibContext, after: LibContext, d: int) -> bool {
    let s = before.test_frames@[d].process_start as int;
    &&& 0 <= d < before.test_frames@.len()
    &&& d < after.test_frames@.len()
    &&& after.test_frames@[d].process_start == before.test_frames@[d].process_start
    &&& s <= before.process_list@.len()
    &&& s <= after.process_list@.len()
    &&& after.process_list@.take(s) == before.process_list@.take(s)
}

/// What the runner does once the script of a test file has run.
#[derive(Debug)]
pub struct FileDecision {
    /// Whether to report the script's error and count the run as failed: the
    /// script failed, and not because the run is stopping.
    pub report_error: bool,
    /// Whether to leave the files that are left: the script failed, or the run
    /// is stopping.
    pub stop: bool,
}

/// What `enter_test` decides for a test.
#[derive(Debug)]
pub enum TestEntry {
    /// The test does not run: the run is stopping, or the filter leaves it out.
    Skipped,
    /// The test runs; first print the file heading and the enclosing test's
    /// start line, where given.
    Started { header: Option<String>, parent_start: Option<String> },
}

/// What `finish_test` decides when a test's function has returned.
#[derive(Debug)]
pub struct TestFinish {
    /// The background processes to stop, in this order.
    pub stop_processes: Vec<u32>,
    /// What to print.
    pub output: String,
    /// Whether to raise the child-failure error into the enclosing script: a
    /// test inside a test failed, or the run is stopping.
    pub raise_child_failure: bool,
}

/// The text of an optional string.
pub open spec fn opt_text(o: Option<String>) -> Option<Seq<char>> {
    match o {
        Some(s) => Some(s@),
        None => None,
    }
}

/// The error a finished test reports: none when its function succeeded or
/// only a test inside it failed, else the error's message.
pub open spec fn own_error(outcome: Result<(), CaughtError>) -> Option<Seq<char>> {
    match outcome {
        Ok(()) => None,
        Err(e) => if is_child_failure(e) {
            None
        } else {
            Some(error_message(e))
        },
    }
}

/// The frames once a test enters: the enclosing test marked as started, and
/// a frame for the new test on top.
pub open spec fn entered_frames(frames: Seq<TestFrame>, name: String, processes: Seq<u32>) -> Seq<
    TestFrame,
> {
    let marked = if frames.len() > 0 {
        frames.update(frames.len() - 1, TestFrame { started: true, ..frames.last() })
    } else {
        frames
    };
    marked.push(
        TestFrame {
            test_name: name,
            depth: frames.len() as usize,
            started: false,
            failed: false,
            process_start: processes.len() as usize,
            processes_at_start: Ghost(processes),
        },
    )
}

/// The frames once the innermost test finishes: its frame removed, and the
/// enclosing test marked as failed when it failed.
pub open spec fn finished_frames(frames: Seq<TestFrame>, failed: bool) -> Seq<TestFrame> {
    let rest = frames.drop_last();
    if rest.len() > 0 && failed {
        rest.update(rest.len() - 1, TestFrame { failed: true, ..rest.last() })
    } else {
        rest
    }
}

impl LibContext {
    /// The frames stand for the nesting of the tests: each frame's depth is
    /// its position, each frame's count of processes at its start is at most
    /// that of the frames inside it and of the current list, and the processes
    /// that ran when it started still open the list, in their order.
    pub open spec fn wf(&self) -> bool {
        &&& forall|i: int|
            0 <= i < self.test_frames@.len() ==> (#[trigger] self.test_frames@[i]).depth == i
        &&& forall|i: int|
            0 <= i < self.test_frames@.len() ==> (#[trigger] self.test_frames@[i]).process_start
                <= self.process_list@.len()
        &&& forall|i: int|
            0 <= i < self.test_frames@.len() ==> self.process_list@.take(
                (#[trigger] self.test_frames@[i]).process_start as int,
            ) == self.test_frames@[i].processes_at_start@
        &&& forall|i: int, j: int|
            0 <= i <= j < self.test_frames@.len() ==> (#[trigger] self.test_frames@[i]).process_start
                <= (#[trigger] self.test_frames@[j]).process_start
    }

    /// Whether the test with this name is skipped: the run is stopping, or the
    /// filter does not select it.
    pub open spec fn skips(&self, name: Seq<char>) -> bool {
        self.stop_requested || (self.test_filter matches Some(f) && !filter_matches(f, name))
    }

    /// A run that has not started a test, with the given filter and settings.
    pub fn new(test_filter: Option<FilterMode>, fail_fast: bool, verbose_print_enabled: bool) -> (r:
        LibContext)
        ensures
            r.wf(),
            r.process_list@.len() == 0,
            r.test_frames@.len() == 0,
            r.test_filter == test_filter,
            r.fail_fast == fail_fast,
            !r.stop_requested,
            !r.has_failed,
            r.test_file_name@.len() == 0,
            !r.test_file_header_printed,
            !r.test_file_heading_hidden,
            !r.any_test_file_header_printed,
            r.verbose_print_enabled == verbose_print_enabled,
    {
        LibContext {
            process_list: Vec::new(),
            test_frames: Vec::new(),
            test_filter,
            fail_fast,
            stop_requested: false,
            has_failed: false,
            test_file_name: String::new(),
            test_file_header_printed: false,
            test_file_heading_hidden: false,
            any_test_file_header_printed: false,
            verbose_print_enabled,
        }
    }

    /// The message to write to the error stream, where verbose printing is on.
    pub fn vprint(&self, msg: &str) -> (r: Option<String>)
        ensures
            opt_text(r) == (if self.verbose_print_enabled {
                Some(msg@)
            } else {
                None
            }),
    {
        if !self.verbose_print_enabled {
            return None;
        }
        Some(msg.to_owned())
    }

    /// Starts a new test file: its name, no heading printed for it yet (it
    /// gets one), and no test started in it.
    pub fn set_test_file_name(&mut self, test_file_name: String)
        requires
            old(self).wf(),
        ensures
            final(self).wf(),
            final(self).test_file_name == test_file_name,
            !final(self).test_file_header_printed,
            !final(self).test_file_heading_hidden,
            final(self).test_frames@.len() == 0,
            final(self).process_list == old(self).process_list,
            final(self).test_filter == old(self).test_filter,
            final(self).fail_fast == old(self).fail_fast,
            final(self).stop_requested == old(self).stop_requested,
            final(self).has_failed == old(self).has_failed,
            final(self).any_test_file_header_printed == old(self).any_test_file_header_printed,
            final(self).verbose_print_enabled == old(self).verbose_print_enabled,
    {
        self.test_file_name = test_file_name;
        self.test_file_header_printed = false;
        self.test_file_heading_hidden = false;
        self.test_frames.clear();
    }

    /// Starts the test file given as `test_file` on the command line (`-` for
    /// the standard input) with this script: it is reported under the name
    /// that `test_file_name` gives, and a script read from the standard input
    /// that does not name itself gets no heading.
    pub fn start_test_file(&mut self, test_file: &str, script: &str)
        requires
            old(self).wf(),
        ensures
            final(self).wf(),
            final(self).test_file_name@ == reported_file_name(test_file@, script@),
            final(self).test_file_heading_hidden == (test_file@ == stdin_name()
                && script_test_name(script@) is None),
            !final(self).test_file_header_printed,
            final(self).test_frames@.len() == 0,
            final(self).process_list == old(self).process_list,
            final(self).test_filter == old(self).test_filter,
            final(self).fail_fast == old(self).fail_fast,
            final(self).stop_requested == old(self).stop_requested,
            final(self).has_failed == old(self).has_failed,
            final(self).any_test_file_header_printed == old(self).any_test_file_header_printed,
            final(self).verbose_print_enabled == old(self).verbose_print_enabled,
    {
        self.set_test_file_name(test_file_name(test_file, script));
        let dash = "-".to_owned();
        proof {
            reveal_strlit("-");
        }
        assert(dash@ =~= stdin_name());
        let from_stdin = test_file.to_owned() == dash;
        self.test_file_heading_hidden = from_stdin && parse_test_file_name(script).is_none();
    }

    /// Whether the heading of the current test file is still to be printed: it
    /// is printed once per file, and not at all for a file whose heading is
    /// hidden.
    pub open spec fn header_due(&self) -> bool {
        !self.test_file_header_printed && !self.test_file_heading_hidden
    }

    /// The heading of the current test file, when it is due.
    pub fn print_test_file_header(&mut self) -> (r: Option<String>)
        ensures
            opt_text(r) == (if old(self).header_due() {
                Some(
                    header_text(
                        old(self).any_test_file_header_printed,
                        old(self).test_file_name@,
                    ),
                )
            } else {
                None
            }),
            *final(self) == (LibContext {
                test_file_header_printed: true,
                any_test_file_header_printed: old(self).any_test_file_header_printed
                    || old(self).header_due(),
                ..*old(self)
            }),
    {
        if self.test_file_header_printed {
            return None;
        }
        if self.test_file_heading_hidden {
            self.test_file_header_printed = true;
            return None;
        }
        let mut text: Vec<char> = Vec::new();
        if self.any_test_file_header_printed {
            text.push('\n');
        }
        text.push('\u{1F4C1}');
        text.push(' ');
        append_chars(&mut text, &to_chars(self.test_file_name.as_str()));
        text.push('\n');
        assert(text@ =~= header_text(self.any_test_file_header_printed, self.test_file_name@));
        self.test_file_header_printed = true;
        self.any_test_file_header_printed = true;
        Some(from_chars(&text))
    }

    /// What follows a test file whose script failed (`script_failed`) or ran
    /// through: a failure is reported unless the run is stopping, which is
    /// what made the script fail then; after a failure, or once the run is
    /// stopping, no further file runs.
    pub fn after_test_file(&self, script_failed: bool) -> (r: FileDecision)
        ensures
            r.report_error == (script_failed && !self.stop_requested),
            r.stop == (script_failed || self.stop_requested),
    {
        FileDecision {
            report_error: script_failed && !self.stop_requested,
            stop: script_failed || self.stop_requested,
        }
    }

    /// A background process was started; its process group id joins the end of
    /// the list.
    pub fn register_process(&mut self, pid: u32)
        requires
            old(self).wf(),
        ensures
            final(self).wf(),
            final(self).process_list@ == old(self).process_list@.push(pid),
            final(self).test_frames == old(self).test_frames,
            forall|d: int|
                0 <= d < old(self).test_frames@.len() ==> #[trigger] keeps_outer_processes(
                    *old(self),
                    *final(self),
                    d,
                ),
            final(self).test_filter == old(self).test_filter,
            final(self).fail_fast == old(self).fail_fast,
            final(self).stop_requested == old(self).stop_requested,
            final(self).has_failed == old(self).has_failed,
            final(self).test_file_name == old(self).test_file_name,
            final(self).test_file_header_printed == old(self).test_file_header_printed,
            final(self).test_file_heading_hidden == old(self).test_file_heading_hidden,
            final(self).any_test_file_header_printed == old(self).any_test_file_header_printed,
            final(self).verbose_print_enabled == old(self).verbose_print_enabled,
    {
        let ghost before = *self;
        self.process_list.push(pid);
        assert forall|d: int| 0 <= d < before.test_frames@.len() implies #[trigger] keeps_outer_processes(
            before,
            *self,
            d,
        ) by {
            let k = before.test_frames@[d].process_start as int;
            assert(self.process_list@.take(k) =~= before.process_list@.take(k));
        }
        assert forall|i: int| 0 <= i < self.test_frames@.len() implies self.process_list@.take(
            (#[trigger] self.test_frames@[i]).process_start as int,
        ) == self.test_frames@[i].processes_at_start@ by {
            let k = before.test_frames@[i].process_start as int;
            assert(self.process_list@.take(k) =~= before.process_list@.take(k));
        }
    }

    /// Decides whether a test runs and, if it does, records that it started:
    /// the file heading and the enclosing test's start line are printed once,
    /// and a frame for the test is pushed, at the depth of the frames below it
    /// and with the count of background processes at its start.
    pub fn enter_test(&mut self, test_name: &String) -> (r: TestEntry)
        requires
            old(self).wf(),
        ensures
            final(self).wf(),
            forall|d: int|
                0 <= d < old(self).test_frames@.len() ==> #[trigger] keeps_outer_processes(
                    *old(self),
                    *final(self),
                    d,
                ),
            old(self).skips(test_name@) ==> r is Skipped && *final(self) == *old(self),
            !old(self).skips(test_name@) ==> match r {
                TestEntry::Skipped => false,
                TestEntry::Started { header, parent_start } => {
                    let frames = old(self).test_frames@;
                    &&& opt_text(header) == (if old(self).header_due() {
                        Some(
                            header_text(
                                old(self).any_test_file_header_printed,
                                old(self).test_file_name@,
                            ),
                        )
                    } else {
                        None
                    })
                    &&& opt_text(parent_start) == (if frames.len() > 0 && !frames.last().started {
                        Some(start_line(frames.last().test_name@, frames.last().depth as nat))
                    } else {
                        None
                    })
                    &&& final(self).test_frames@ == entered_frames(
                        frames,
                        *test_name,
                        old(self).process_list@,
                    )
                    &&& final(self).test_file_header_printed
                    &&& final(self).any_test_file_header_printed == (
                    old(self).any_test_file_header_printed || old(self).header_due())
                    &&& final(self).process_list == old(self).process_list
                    &&& final(self).test_filter == old(self).test_filter
                    &&& final(self).fail_fast == old(self).fail_fast
                    &&& final(self).stop_requested == old(self).stop_requested
                    &&& final(self).has_failed == old(self).has_failed
                    &&& final(self).test_file_name == old(self).test_file_name
                    &&& final(self).test_file_heading_hidden == old(self).test_file_heading_hidden
                    &&& final(self).verbose_print_enabled == old(self).verbose_print_enabled
                },
            },
    {
        if self.stop_requested {
            return TestEntry::Skipped;
        }
        match &self.test_filter {
            Some(filter) => {
                if !test_match(filter, test_name.as_str()) {
                    return TestEntry::Skipped;
                }
            },
            None => {},
        }
        let ghost frames = self.test_frames@;
        let header = self.print_test_file_header();
        let n = self.test_frames.len();
        let mut parent_start: Option<String> = None;
        if n > 0 && !self.test_frames[n - 1].started {
            let mut parent = self.test_frames.pop().unwrap();
            let mut line = indent_chars(parent.depth);
            line.push('\u{231B}');
            line.push(' ');
            append_chars(&mut line, &to_chars(parent.test_name.as_str()));
            line.push('\n');
            assert(line@ =~= start_line(parent.test_name@, parent.depth as nat));
            parent_start = Some(from_chars(&line));
            parent.started = true;
            self.test_frames.push(parent);
        }
        let depth = self.test_frames.len();
        let process_start = self.process_list.len();
        self.test_frames.push(
            TestFrame {
                test_name: test_name.clone(),
                depth,
                started: false,
                failed: false,
                process_start,
                processes_at_start: Ghost(self.process_list@),
            },
        );
        assert(self.test_frames@ =~= entered_frames(frames, *test_name, self.process_list@));
        assert forall|i: int| 0 <= i < self.test_frames@.len() implies self.process_list@.take(
            (#[trigger] self.test_frames@[i]).process_start as int,
        ) == self.test_frames@[i].processes_at_start@ by {
            if i < frames.len() {
                assert(self.test_frames@[i].process_start == frames[i].process_start);
                assert(self.test_frames@[i].processes_at_start == frames[i].processes_at_start);
            } else {
                assert(self.process_list@.take(self.process_list@.len() as int) =~= self.process_list@);
            }
        }
        assert forall|d: int| 0 <= d < frames.len() implies #[trigger] keeps_outer_processes(
            *old(self),
            *self,
            d,
        ) by {
            assert(self.test_frames@[d].process_start == frames[d].process_start);
        }
        TestEntry::Started { header, parent_start }
    }

    /// Records that the innermost test's function returned with `outcome`: its
    /// frame is removed; it failed when its function failed (other than by a
    /// failure inside it, which is already counted) or a test inside it failed;
    /// a failure marks the run as failed, stops it under fail-fast, and marks
    /// the enclosing test; the background processes started since it began are
    /// taken off the list to be stopped, newest first, and the list is again
    /// the one that ran when the test started, whatever ran inside it (every
    /// step of the library keeps that list at the head of the current one).
    pub fn finish_test(&mut self, outcome: Result<(), CaughtError>) -> (r: TestFinish)
        requires
            old(self).wf(),
            old(self).test_frames@.len() > 0,
        ensures
            final(self).wf(),
            forall|d: int|
                0 <= d < final(self).test_frames@.len() ==> #[trigger] keeps_outer_processes(
                    *old(self),
                    *final(self),
                    d,
                ),
            ({
                let frames = old(self).test_frames@;
                let frame = frames.last();
                let err = own_error(outcome);
                let failed = frame.failed || err is Some;
                &&& r.output@ == test_report(frame.test_name@, frame.depth as nat, failed, err)
                &&& r.stop_processes@ == stop_order(
                    old(self).process_list@,
                    frame.process_start as int,
                )
                &&& final(self).process_list@ == kept_processes(
                    old(self).process_list@,
                    frame.process_start as int,
                )
                &&& final(self).process_list@ == frame.processes_at_start@
                &&& r.stop_processes@ == old(self).process_list@.skip(
                    frame.process_start as int,
                ).reverse()
                &&& final(self).test_frames@ == finished_frames(frames, failed)
                &&& final(self).has_failed == (old(self).has_failed || failed)
                &&& final(self).stop_requested == (old(self).stop_requested || (failed
                    && old(self).fail_fast))
                &&& r.raise_child_failure == (final(self).stop_requested || (frames.len() > 1
                    && failed))
            }),
            final(self).test_filter == old(self).test_filter,
            final(self).fail_fast == old(self).fail_fast,
            final(self).test_file_name == old(self).test_file_name,
            final(self).test_file_header_printed == old(self).test_file_header_printed,
            final(self).test_file_heading_hidden == old(self).test_file_heading_hidden,
            final(self).any_test_file_header_printed == old(self).any_test_file_header_printed,
            final(self).verbose_print_enabled == old(self).verbose_print_enabled,
    {
        let ghost frames = self.test_frames@;
        let ghost processes = self.process_list@;
        let frame = self.test_frames.pop().unwrap();
        assert(self.test_frames@ =~= frames.drop_last());
        let own: Option<String> = match &outcome {
            Ok(()) => None,
            Err(e) => {
                if is_child_test_failure(e) {
                    None
                } else {
                    Some(lua_error_message(e))
                }
            },
        };
        let failed = frame.failed || own.is_some();
        let output = test_output(frame.test_name.as_str(), frame.depth, failed, own);
        let stop_processes = kill_processes_from(&mut self.process_list, frame.process_start);
        if failed {
            self.has_failed = true;
            if self.fail_fast {
                self.stop_requested = true;
            }
        }
        let mut propagate = false;
        let n = self.test_frames.len();
        if n > 0 && failed {
            let mut parent = self.test_frames.pop().unwrap();
            parent.failed = true;
            self.test_frames.push(parent);
            propagate = true;
        }
        assert(self.test_frames@ =~= finished_frames(frames, failed));
        assert forall|i: int, j: int|
            0 <= i <= j < self.test_frames@.len() implies (#[trigger] self.test_frames@[i]).process_start
            <= (#[trigger] self.test_frames@[j]).process_start by {
            assert(self.test_frames@[i].process_start == frames[i].process_start);
            assert(self.test_frames@[j].process_start == frames[j].process_start);
        }
        assert forall|i: int| 0 <= i < self.test_frames@.len() implies (
        #[trigger] self.test_frames@[i]).process_start <= self.process_list@.len() by {
            assert(self.test_frames@[i].process_start == frames[i].process_start);
            assert(frames[i].process_start <= frame.process_start);
        }
        assert forall|i: int| 0 <= i < self.test_frames@.len() implies (
        #[trigger] self.test_frames@[i]).depth == i by {
            assert(self.test_frames@[i].depth == frames[i].depth);
        }
        assert forall|i: int| 0 <= i < self.test_frames@.len() implies self.process_list@.take(
            (#[trigger] self.test_frames@[i]).process_start as int,
        ) == self.test_frames@[i].processes_at_start@ by {
            let k = frames[i].process_start as int;
            assert(self.test_frames@[i].process_start == frames[i].process_start);
            assert(self.test_frames@[i].processes_at_start == frames[i].processes_at_start);
            assert(k <= frame.process_start);
            assert(self.process_list@.take(k) =~= processes.take(k));
        }
        assert(self.process_list@ =~= frame.processes_at_start@);
        assert(stop_processes@ =~= processes.skip(frame.process_start as int).reverse());
        assert forall|d: int| 0 <= d < self.test_frames@.len() implies #[trigger] keeps_outer_processes(
            *old(self),
            *self,
            d,
        ) by {
            let k = frames[d].process_start as int;
            assert(self.test_frames@[d].process_start == frames[d].process_start);
            assert(k <= frame.process_start);
            assert(self.process_list@.take(k) =~= processes.take(k));
        }
        TestFinish {
            stop_processes,
            output,
            raise_child_failure: self.stop_requested || propagate,
        }
    }
}

/// A test that enters and then finishes leaves the frames as they were before
/// it entered, but for the enclosing test, which is marked as started and, when
/// the test failed, as failed.
pub proof fn enter_then_finish_frames(
    frames: Seq<TestFrame>,
    name: String,
    processes: Seq<u32>,
    failed: bool,
)
    ensures
        ({
            let after = finished_frames(entered_frames(frames, name, processes), failed);
            &&& after.len() == frames.len()
            &&& forall|i: int| 0 <= i < frames.len() - 1 ==> after[i] == frames[i]
            &&& frames.len() > 0 ==> after.last() == TestFrame {
                started: true,
                failed: frames.last().failed || failed,
                ..frames.last()
            }
        }),
{
    let entered = entered_frames(frames, name, processes);
    assert(entered.drop_last().len() == frames.len());
    let after = finished_frames(entered, failed);
    if frames.len() > 0 {
        assert(after.last() == TestFrame {
            started: true,
            failed: frames.last().failed || failed,
            ..frames.last()
        });
    }
}

/// A test gives back the background processes it found: the frame that
/// `enter_test` pushes records the list as the test found it, at whatever
/// depth, and `finish_test` leaves the list as its frame records it, whatever
/// ran in between through the library (each step keeps `wf`, which keeps the
/// recorded list at the head of the current one).
pub proof fn a_test_gives_back_the_processes_it_found(
    frames: Seq<TestFrame>,
    name: String,
    processes: Seq<u32>,
)
    ensures
        entered_frames(frames, name, processes).last().processes_at_start@ == processes,
        entered_frames(frames, name, processes).len() == frames.len() + 1,
{
}

/// The background processes that a test started are the ones stopped when it
/// finishes, newest first, and those running before it are left running.
pub proof fn finishing_stops_what_the_test_started(before: Seq<u32>, started: Seq<u32>)
    ensures
        kept_processes(before + started, before.len() as int) == before,
        stop_order(before + started, before.len() as int) == started.reverse(),
{
    let all = before + started;
    if started.len() > 0 {
        assert(all.take(before.len() as int) =~= before);
        assert(stop_order(all, before.len() as int) =~= started.reverse());
    } else {
        assert(all =~= before);
        assert(stop_order(all, before.len() as int) =~= started.reverse());
    }
}

/// Steps that each keep the processes of the test at depth `d` keep them
/// together.
pub proof fn keeping_outer_processes_chains(a: LibContext, b: LibContext, c: LibContext, d: int)
    requires
        keeps_outer_processes(a, b, d),
        keeps_outer_processes(b, c, d),
    ensures
        keeps_outer_processes(a, c, d),
{
}

} // verus!
