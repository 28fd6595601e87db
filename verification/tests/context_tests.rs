use testbox::context::{
    kill_processes, kill_processes_from, test_match, test_output, FilterMode, LibContext, TestEntry,
};
use testbox::script_error::{check_merge_argument, CaughtError, CaughtKind, ScriptError};

fn started(entry: TestEntry) -> (Option<String>, Option<String>) {
    match entry {
        TestEntry::Started { header, parent_start } => (header, parent_start),
        TestEntry::Skipped => panic!("test was skipped"),
    }
}

fn helper_failure(msg: &str) -> CaughtError {
    CaughtError {
        kind: CaughtKind::Callback(Some(msg.to_string())),
        text: format!("callback error: {}", msg),
    }
}

fn child_failure() -> CaughtError {
    CaughtError {
        kind: CaughtKind::Callback(Some("__testbox_child_test_failed__".to_string())),
        text: "callback error".to_string(),
    }
}

#[test]
fn readme_passing_and_failing_tests() {
    let mut ctx = LibContext::new(None, false, false);
    ctx.start_test_file("-", "test(\"just a test\", function() end)\n");

    let (header, parent) = started(ctx.enter_test(&"just a test".to_string()));
    assert_eq!(header, None);
    assert_eq!(parent, None);
    let done = ctx.finish_test(Ok(()));
    assert_eq!(done.output, "\u{2705} just a test\n");
    assert!(!done.raise_child_failure);

    let (header, _) = started(ctx.enter_test(&"this will fail!".to_string()));
    assert_eq!(header, None);
    let done = ctx.finish_test(Err(helper_failure("Not equal!\nLeft:  1\nRight: 2")));
    assert_eq!(done.output, "\u{274C} this will fail!\nNot equal!\nLeft:  1\nRight: 2\n");
    assert!(!done.raise_child_failure);
    assert!(ctx.has_failed);
    assert!(!ctx.stop_requested);
}

#[test]
fn nested_failure_marks_the_parent_and_raises() {
    let mut ctx = LibContext::new(None, false, false);
    ctx.set_test_file_name("suite.lua".to_string());
    started(ctx.enter_test(&"outer".to_string()));
    let (header, parent) = started(ctx.enter_test(&"inner".to_string()));
    assert_eq!(header, None);
    assert_eq!(parent.as_deref(), Some("\u{231B} outer\n"));
    let inner = ctx.finish_test(Err(helper_failure("boom")));
    assert_eq!(inner.output, "  \u{274C} inner\n  boom\n");
    assert!(inner.raise_child_failure);
    assert!(ctx.test_frames[0].failed);
    let outer = ctx.finish_test(Err(child_failure()));
    assert_eq!(outer.output, "\u{274C} outer\n");
    assert!(!outer.raise_child_failure);
    assert!(ctx.test_frames.is_empty());
}

#[test]
fn fail_fast_stops_the_run_and_skips_later_tests() {
    let mut ctx = LibContext::new(None, true, false);
    ctx.set_test_file_name("a.lua".to_string());
    started(ctx.enter_test(&"first".to_string()));
    let done = ctx.finish_test(Err(helper_failure("bad")));
    assert!(done.raise_child_failure);
    assert!(ctx.stop_requested);
    assert!(matches!(ctx.enter_test(&"second".to_string()), TestEntry::Skipped));
}

#[test]
fn filters_select_tests() {
    let exact = FilterMode::Exact("Login Works".to_string());
    assert!(test_match(&exact, "login works"));
    assert!(!test_match(&exact, "login"));
    let regex = FilterMode::Regex("^api: .*users$".to_string());
    assert!(test_match(&regex, "api: list users"));
    assert!(!test_match(&regex, "api: list groups"));
    assert!(!test_match(&FilterMode::Regex("(".to_string()), "("));

    let mut ctx = LibContext::new(Some(FilterMode::Exact("wanted".to_string())), false, false);
    ctx.set_test_file_name("f.lua".to_string());
    assert!(matches!(ctx.enter_test(&"other".to_string()), TestEntry::Skipped));
    assert!(!ctx.test_file_header_printed);
    started(ctx.enter_test(&"WANTED".to_string()));
}

#[test]
fn headers_are_separated_between_files() {
    let mut ctx = LibContext::new(None, false, false);
    ctx.set_test_file_name("one.lua".to_string());
    let (h1, _) = started(ctx.enter_test(&"t".to_string()));
    ctx.finish_test(Ok(()));
    ctx.set_test_file_name("two.lua".to_string());
    let (h2, _) = started(ctx.enter_test(&"t".to_string()));
    assert_eq!(h1.as_deref(), Some("\u{1F4C1} one.lua\n"));
    assert_eq!(h2.as_deref(), Some("\n\u{1F4C1} two.lua\n"));
}

#[test]
fn a_test_stops_the_processes_it_started() {
    let mut ctx = LibContext::new(None, false, false);
    ctx.set_test_file_name("p.lua".to_string());
    ctx.register_process(10);
    started(ctx.enter_test(&"t".to_string()));
    ctx.register_process(20);
    ctx.register_process(30);
    let done = ctx.finish_test(Ok(()));
    assert_eq!(done.stop_processes, vec![30, 20]);
    assert_eq!(ctx.process_list, vec![10]);
}

#[test]
fn kill_processes_from_keeps_earlier_processes_in_order() {
    let mut list = vec![1, 2, 3, 4];
    assert_eq!(kill_processes_from(&mut list, 1), vec![4, 3, 2]);
    assert_eq!(list, vec![1]);
    let mut list = vec![1, 2];
    assert_eq!(kill_processes_from(&mut list, 5), Vec::<u32>::new());
    assert_eq!(list, vec![1, 2]);
    let mut list = vec![5, 6];
    assert_eq!(kill_processes(&mut list), vec![6, 5]);
    assert!(list.is_empty());
}

#[test]
fn output_indents_error_lines() {
    assert_eq!(test_output("t", 2, false, None), "    \u{2705} t\n");
    assert_eq!(
        test_output("t", 1, true, Some("line one\r\nline two\n".to_string())),
        "  \u{274C} t\n  line one\n  line two\n"
    );
}

#[test]
fn runtime_errors_of_scripts_are_reported_as_rendered() {
    let mut ctx = LibContext::new(None, false, false);
    ctx.set_test_file_name("r.lua".to_string());
    started(ctx.enter_test(&"t".to_string()));
    let err = CaughtError {
        kind: CaughtKind::Runtime("[string]:3: oops".to_string()),
        text: "runtime error: [string]:3: oops".to_string(),
    };
    let done = ctx.finish_test(Err(err));
    assert_eq!(done.output, "\u{274C} t\nruntime error: [string]:3: oops\n");
}

#[test]
fn verbose_printing() {
    let quiet = LibContext::new(None, false, false);
    assert_eq!(quiet.vprint("x"), None);
    let loud = LibContext::new(None, false, true);
    assert_eq!(loud.vprint("x"), Some("x".to_string()));
}

#[test]
fn a_named_script_from_stdin_gets_its_heading() {
    let mut ctx = LibContext::new(None, false, false);
    ctx.set_test_file_name("login checks".to_string());
    let (header, _) = started(ctx.enter_test(&"t".to_string()));
    assert_eq!(header.as_deref(), Some("\u{1F4C1} login checks\n"));
}

#[test]
fn nested_tests_stop_their_own_processes_and_keep_the_outer_ones() {
    let mut ctx = LibContext::new(None, false, false);
    ctx.set_test_file_name("p.lua".to_string());
    ctx.register_process(1);
    started(ctx.enter_test(&"outer".to_string()));
    ctx.register_process(2);
    started(ctx.enter_test(&"inner".to_string()));
    ctx.register_process(3);
    ctx.register_process(4);
    let inner = ctx.finish_test(Ok(()));
    assert_eq!(inner.stop_processes, vec![4, 3]);
    assert_eq!(ctx.process_list, vec![1, 2]);
    ctx.register_process(5);
    let outer = ctx.finish_test(Ok(()));
    assert_eq!(outer.stop_processes, vec![5, 2]);
    assert_eq!(ctx.process_list, vec![1]);
    assert_eq!(kill_processes(&mut ctx.process_list), vec![1]);
}

#[test]
fn what_follows_a_test_file() {
    let mut ctx = LibContext::new(None, true, false);
    let ran_through = ctx.after_test_file(false);
    assert!(!ran_through.report_error && !ran_through.stop);
    let failed = ctx.after_test_file(true);
    assert!(failed.report_error && failed.stop);
    ctx.set_test_file_name("a.lua".to_string());
    started(ctx.enter_test(&"t".to_string()));
    ctx.finish_test(Err(helper_failure("bad")));
    assert!(ctx.stop_requested);
    let stopping = ctx.after_test_file(true);
    assert!(!stopping.report_error && stopping.stop);
    let stopped_quietly = ctx.after_test_file(false);
    assert!(!stopped_quietly.report_error && stopped_quietly.stop);
}

#[test]
fn merge_takes_tables_only() {
    assert!(check_merge_argument(true, "table").is_ok());
    match check_merge_argument(false, "number") {
        Err(ScriptError::Runtime(m)) => assert_eq!(m, "merge expects tables, got number"),
        _ => panic!("a number was accepted"),
    }
}

#[test]
fn only_an_unnamed_script_from_stdin_goes_without_a_heading() {
    let mut ctx = LibContext::new(None, false, false);
    ctx.start_test_file("tests/-", "x = 1");
    assert_eq!(ctx.test_file_name, "-");
    let (header, _) = started(ctx.enter_test(&"t".to_string()));
    assert_eq!(header.as_deref(), Some("\u{1F4C1} -\n"));
    ctx.finish_test(Ok(()));

    ctx.start_test_file("-", "-- Test: -\n");
    let (header, _) = started(ctx.enter_test(&"t".to_string()));
    assert_eq!(header.as_deref(), Some("\n\u{1F4C1} -\n"));
    ctx.finish_test(Ok(()));

    ctx.start_test_file("-", "-- Test: from stdin\n");
    assert_eq!(ctx.test_file_name, "from stdin");
    let (header, _) = started(ctx.enter_test(&"t".to_string()));
    assert_eq!(header.as_deref(), Some("\n\u{1F4C1} from stdin\n"));
    ctx.finish_test(Ok(()));

    ctx.start_test_file("-", "x = 1");
    let (header, _) = started(ctx.enter_test(&"t".to_string()));
    assert_eq!(header, None);
    ctx.finish_test(Ok(()));

    ctx.set_test_file_name("-".to_string());
    let (header, _) = started(ctx.enter_test(&"t".to_string()));
    assert_eq!(header.as_deref(), Some("\n\u{1F4C1} -\n"));
}
