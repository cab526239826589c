use minizinc_diff::classify::diff_solutions;
use minizinc_diff::hhmmss::Elapsed;
use minizinc_diff::render::{evaluate_pair, print_diff, report_timeout, OutputMode, SolverErrorType};
use minizinc_diff::runner::{build_solver_args, interpret_run};
use minizinc_diff::solutions::{parse_solutions, SolverOutput};
use minizinc_diff::solver_spec::parse_solver_spec;
use minizinc_diff::CheckStatus;

fn complete(text: &str) -> SolverOutput {
    parse_solutions(text, Elapsed::from_parts(0, 10))
}

fn solutions_of(out: &SolverOutput) -> &minizinc_diff::solutions::SolutionSet {
    match out {
        SolverOutput::Complete(s, _) => s,
        SolverOutput::Timeout => panic!("expected completion"),
    }
}

#[test]
fn equal_sets_classify_as_success_with_shared_count() {
    let left = complete("1\n----------\n2\n----------\n==========");
    let right = complete("1\n----------\n2\n----------\n==========");
    let (status, _) = print_diff(&left, &right, OutputMode::Silent);
    assert_eq!(status, CheckStatus::Success);
    let d = diff_solutions(solutions_of(&left), solutions_of(&right));
    assert_eq!(d.shared, 2);
    assert_eq!(d.added.len(), 0);
    assert_eq!(d.removed.len(), 0);
}

#[test]
fn extra_solution_on_the_right_classifies_as_diff() {
    let left = complete("1\n----------\n==========");
    let right = complete("1\n----------\n2\n----------\n==========");
    let (status, _) = print_diff(&left, &right, OutputMode::Silent);
    assert_eq!(status, CheckStatus::Diff);
    let d = diff_solutions(solutions_of(&left), solutions_of(&right));
    assert_eq!(d.added, vec!["2".to_string()]);
    assert_eq!(d.removed.len(), 0);
    assert_eq!(d.shared, 1);
}

#[test]
fn diff_is_symmetric_under_side_swap() {
    let a = complete("1\n----------\n2\n----------\n==========");
    let b = complete("2\n----------\n3\n----------\n==========");
    let d_ab = diff_solutions(solutions_of(&a), solutions_of(&b));
    let d_ba = diff_solutions(solutions_of(&b), solutions_of(&a));
    assert_eq!(d_ab.added, d_ba.removed);
    assert_eq!(d_ab.removed, d_ba.added);
    assert_eq!(d_ab.shared, d_ba.shared);
    assert_eq!(d_ab.added, vec!["3".to_string()]);
    assert_eq!(d_ab.removed, vec!["1".to_string()]);
    assert_eq!(d_ab.shared, 1);
}

#[test]
fn left_timeout_classifies_as_timeout_left_with_exit_code_5() {
    let left = complete("1\n----------\n");
    assert!(matches!(left, SolverOutput::Timeout));
    let right = complete("1\n----------\n==========");
    let (status, _) = print_diff(&left, &right, OutputMode::Silent);
    assert_eq!(status, CheckStatus::TimeoutLeft);
    assert_eq!(status.exit_code(), 5);
}

#[test]
fn crash_outranks_timeout_on_the_other_side() {
    let right = complete("1\n----------\n");
    assert!(matches!(right, SolverOutput::Timeout));
    let (status, _) = evaluate_pair(
        Err("no such executable".to_string()),
        Ok(right),
        OutputMode::Silent,
    );
    assert_eq!(status, CheckStatus::CrashLeft);
}

#[test]
fn left_crash_classifies_as_crash_left_with_exit_code_1() {
    let right = complete("==========");
    let (status, _) = evaluate_pair(Err("boom".to_string()), Ok(right), OutputMode::Silent);
    assert_eq!(status, CheckStatus::CrashLeft);
    assert_eq!(status.exit_code(), 1);
}

#[test]
fn both_crashes_combine_their_messages() {
    let (status, lines) = evaluate_pair(
        Err("a".to_string()),
        Err("b".to_string()),
        OutputMode::Ascii,
    );
    assert_eq!(status, CheckStatus::CrashBoth);
    assert_eq!(
        lines,
        vec!["[FAIL] Error running both solvers: \nLeft: a\nRight: b".to_string()]
    );
}

#[test]
fn exit_codes_follow_the_bit_encoding() {
    assert_eq!(CheckStatus::Success.exit_code(), 0);
    assert_eq!(CheckStatus::Diff.exit_code(), 255);
    assert_eq!(CheckStatus::CrashLeft.exit_code(), 1);
    assert_eq!(CheckStatus::CrashRight.exit_code(), 2);
    assert_eq!(CheckStatus::CrashBoth.exit_code(), 3);
    assert_eq!(CheckStatus::TimeoutLeft.exit_code(), 5);
    assert_eq!(CheckStatus::TimeoutRight.exit_code(), 6);
    assert_eq!(CheckStatus::TimeoutBoth.exit_code(), 7);
}

#[test]
fn success_report_lists_count_and_times() {
    let left = parse_solutions("1\n----------\n==========", Elapsed::from_parts(1, 500));
    let right = parse_solutions("1\n----------\n==========", Elapsed::from_parts(0, 42));
    let (status, lines) = print_diff(&left, &right, OutputMode::Ascii);
    assert_eq!(status, CheckStatus::Success);
    assert_eq!(
        lines,
        vec![
            "[OK] All 1 solutions match.".to_string(),
            "Left time: 1500 \u{1b}[0m".to_string(),
            "Right time: 42 \u{1b}[0m".to_string(),
        ]
    );
}

#[test]
fn mismatch_report_lists_removed_then_added() {
    let left = complete("1\n----------\n==========");
    let right = complete("2\n----------\n==========");
    let (status, lines) = print_diff(&left, &right, OutputMode::Ascii);
    assert_eq!(status, CheckStatus::Diff);
    assert_eq!(
        lines,
        vec![
            "[FAIL] Mismatch found:".to_string(),
            "- 1".to_string(),
            "+ 2".to_string(),
        ]
    );
}

#[test]
fn timeout_report_names_the_side() {
    let lines = report_timeout(SolverErrorType::Both, OutputMode::Ascii);
    assert_eq!(lines, vec!["[TIMEOUT] Both solvers timed out".to_string()]);
    let rich = report_timeout(SolverErrorType::Left, OutputMode::Rich);
    assert_eq!(
        rich,
        vec!["\u{1b}[33m\u{23f3} \u{1b}[1mLeft solver\u{1b}[0m timed out\u{1b}[0m".to_string()]
    );
    let none = report_timeout(SolverErrorType::Left, OutputMode::Silent);
    assert!(none.is_empty());
}

#[test]
fn rich_success_report_uses_hhmmssxxx_durations() {
    let left = parse_solutions("1\n----------\n==========", Elapsed::from_parts(3661, 42));
    let right = parse_solutions("1\n----------\n==========", Elapsed::from_parts(0, 7));
    let (status, lines) = print_diff(&left, &right, OutputMode::Rich);
    assert_eq!(status, CheckStatus::Success);
    assert_eq!(lines.len(), 3);
    assert_eq!(
        lines[1],
        "\u{1b}[32m\u{231b} Duration of left run: 01:01:01.042 \u{1b}[0m"
    );
    assert_eq!(
        lines[2],
        "\u{1b}[32m\u{231b} Duration of right run: 00:00:00.007 \u{1b}[0m"
    );
}

#[test]
fn solver_spec_with_quoted_flags() {
    let sp = parse_solver_spec("gecode:-f --some-flag \"a b\"").unwrap();
    assert_eq!(sp.tag, "gecode");
    assert_eq!(
        sp.flags,
        vec!["-f".to_string(), "--some-flag".to_string(), "a b".to_string()]
    );
}

#[test]
fn solver_spec_without_flags() {
    let sp = parse_solver_spec("chuffed").unwrap();
    assert_eq!(sp.tag, "chuffed");
    assert!(sp.flags.is_empty());
}

#[test]
fn solver_spec_with_unclosed_quote_is_rejected() {
    let e = parse_solver_spec("gecode:'oops").unwrap_err();
    assert_eq!(e, "missing closing quote");
}

#[test]
fn solver_args_include_timeout_when_set() {
    let sp = parse_solver_spec("gecode:-f").unwrap();
    let args = build_solver_args("m.mzn", "d.dzn", &sp, Some(2500));
    assert_eq!(
        args,
        vec![
            "-a".to_string(),
            "--solver".to_string(),
            "gecode".to_string(),
            "-f".to_string(),
            "-t".to_string(),
            "2500".to_string(),
            "m.mzn".to_string(),
            "d.dzn".to_string(),
        ]
    );
    let bare = build_solver_args("m.mzn", "d.dzn", &sp, None);
    assert_eq!(
        bare,
        vec![
            "-a".to_string(),
            "--solver".to_string(),
            "gecode".to_string(),
            "-f".to_string(),
            "m.mzn".to_string(),
            "d.dzn".to_string(),
        ]
    );
}

#[test]
fn interpret_run_uses_stderr_on_failure_and_parses_on_success() {
    let bad = interpret_run(false, "ignored", "err text".to_string(), Elapsed::from_parts(0, 0));
    assert_eq!(bad.unwrap_err(), "err text");
    let good = interpret_run(true, "1\n----------\n==========", String::new(), Elapsed::from_parts(0, 0));
    match good.unwrap() {
        SolverOutput::Complete(sols, _) => assert!(sols.contains_str("1")),
        SolverOutput::Timeout => panic!("expected completion"),
    }
    let truncated = interpret_run(true, "1\n----------\n", String::new(), Elapsed::from_parts(0, 0));
    assert!(matches!(truncated.unwrap(), SolverOutput::Timeout));
}
