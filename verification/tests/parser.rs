use minizinc_diff::hhmmss::Elapsed;
use minizinc_diff::solutions::{parse_solutions, SolverOutput};

fn elapsed() -> Elapsed {
    Elapsed::from_parts(1, 500)
}

fn parse(text: &str) -> SolverOutput {
    parse_solutions(text, elapsed())
}

#[test]
fn marker_means_complete() {
    let out = parse("1\n----------\n==========");
    match out {
        SolverOutput::Complete(sols, _) => {
            assert_eq!(sols.len(), 1);
            assert!(sols.contains_str("1"));
        }
        SolverOutput::Timeout => panic!("expected completion"),
    }
}

#[test]
fn missing_marker_means_timeout_despite_separators() {
    let out = parse("1\n----------\n2\n----------\n3\n----------");
    assert!(matches!(out, SolverOutput::Timeout));
}

#[test]
fn empty_text_is_timeout() {
    assert!(matches!(parse(""), SolverOutput::Timeout));
}

#[test]
fn duplicate_blocks_collapse() {
    let out = parse("1\n----------\n1\n----------\n==========");
    match out {
        SolverOutput::Complete(sols, _) => {
            assert_eq!(sols.len(), 1);
            assert!(sols.contains_str("1"));
        }
        SolverOutput::Timeout => panic!("expected completion"),
    }
}

#[test]
fn comments_and_blanks_contribute_nothing() {
    let out = parse("% note\n\nx = 1\n% mid\n\ny = 2\n----------\n\n% tail\n==========");
    match out {
        SolverOutput::Complete(sols, _) => {
            assert_eq!(sols.len(), 1);
            assert!(sols.contains_str("x = 1\ny = 2"));
        }
        SolverOutput::Timeout => panic!("expected completion"),
    }
}

#[test]
fn lines_are_trimmed_and_joined_by_newline() {
    let out = parse("  a  \n\tb\t\n----------\n==========");
    match out {
        SolverOutput::Complete(sols, _) => {
            assert_eq!(sols.len(), 1);
            assert!(sols.contains_str("a\nb"));
        }
        SolverOutput::Timeout => panic!("expected completion"),
    }
}

#[test]
fn dangling_block_after_last_separator_is_dropped() {
    let out = parse("1\n----------\n2\n==========");
    match out {
        SolverOutput::Complete(sols, _) => {
            assert_eq!(sols.len(), 1);
            assert!(sols.contains_str("1"));
            assert!(!sols.contains_str("2"));
        }
        SolverOutput::Timeout => panic!("expected completion"),
    }
}

#[test]
fn separator_with_empty_accumulator_inserts_empty_block() {
    let out = parse("----------\n==========");
    match out {
        SolverOutput::Complete(sols, _) => {
            assert_eq!(sols.len(), 1);
            assert!(sols.contains_str(""));
        }
        SolverOutput::Timeout => panic!("expected completion"),
    }
}

#[test]
fn crlf_line_endings_are_absorbed_by_trimming() {
    let out = parse("1\r\n----------\r\n==========\r\n");
    match out {
        SolverOutput::Complete(sols, _) => {
            assert_eq!(sols.len(), 1);
            assert!(sols.contains_str("1"));
        }
        SolverOutput::Timeout => panic!("expected completion"),
    }
}

#[test]
fn marker_does_not_close_a_block() {
    // The completion marker sets the flag only: a block before it without a
    // separator is never inserted.
    let out = parse("a\n==========\nb\n----------\n==========");
    match out {
        SolverOutput::Complete(sols, _) => {
            assert_eq!(sols.len(), 1);
            assert!(sols.contains_str("a\nb"));
        }
        SolverOutput::Timeout => panic!("expected completion"),
    }
}

#[test]
fn elapsed_is_carried_through() {
    let out = parse_solutions("==========", Elapsed::from_parts(7, 250));
    match out {
        SolverOutput::Complete(_, e) => {
            assert_eq!(e.total_millis(), 7250);
        }
        SolverOutput::Timeout => panic!("expected completion"),
    }
}
