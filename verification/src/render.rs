//! Rendering of a comparison's outcome: the lines a caller prints, in a
//! plain, a decorated, or a silent style, together with the classification
//! they describe. Rendering is a pure projection: the classification never
//! depends on the chosen style.
use crate::classify::{
    classify_spec, diff_solutions, output_view, run_view, seq_minus, shared_spec,
};
use crate::hhmmss::{sms2hhmmsxxx, sms2hhmmsxxx_spec, Hhmmss};
use crate::numfmt::{dec_rep, u64_to_string};
use crate::solutions::SolverOutput;
use crate::CheckStatus;
use vstd::prelude::*;

verus! {

/// How rendered output should look: plain text, color and emoji, or nothing.
#[derive(Clone, Copy, Debug, PartialEq, Eq, Structural)]
pub enum OutputMode {
    Ascii,
    Rich,
    Silent,
}

/// Which side or sides an error or a timeout concerns.
#[derive(Clone, Copy, Debug, PartialEq, Eq, Structural)]
pub enum SolverErrorType {
    Left,
    Right,
    Both,
}

/// The capitalized name of the affected side.
pub open spec fn side_name_caps(e: SolverErrorType) -> Seq<char> {
    match e {
        SolverErrorType::Left => "Left solver"@,
        SolverErrorType::Right => "Right solver"@,
        SolverErrorType::Both => "Both solvers"@,
    }
}

/// The lower-case name of the affected side.
pub open spec fn side_name_lower(e: SolverErrorType) -> Seq<char> {
    match e {
        SolverErrorType::Left => "left solver"@,
        SolverErrorType::Right => "right solver"@,
        SolverErrorType::Both => "both solvers"@,
    }
}

/// Each element of `xs` wrapped in a prefix and a suffix.
pub open spec fn prefixed_lines(pre: Seq<char>, xs: Seq<Seq<char>>, suf: Seq<char>) -> Seq<
    Seq<char>,
> {
    xs.map_values(|x: Seq<char>| pre + x + suf)
}

/// The lines that report a timeout of the given side.
pub open spec fn timeout_lines_spec(e: SolverErrorType, mode: OutputMode) -> Seq<Seq<char>> {
    match mode {
        OutputMode::Ascii => seq!["[TIMEOUT] "@ + side_name_caps(e) + " timed out"@],
        OutputMode::Rich => seq![
            "\u{1b}[33m\u{23f3} \u{1b}[1m"@ + side_name_caps(e) + "\u{1b}[0m timed out\u{1b}[0m"@,
        ],
        OutputMode::Silent => Seq::empty(),
    }
}

/// The lines that report a crash of the given side with error text `e`.
pub open spec fn crash_lines_spec(e: Seq<char>, side: SolverErrorType, mode: OutputMode) -> Seq<
    Seq<char>,
> {
    match mode {
        OutputMode::Ascii => seq!["[FAIL] Error running "@ + side_name_lower(side) + ": "@ + e],
        OutputMode::Rich => seq![
            "\u{1b}[31m\u{26d4} Error running \u{1b}[1m"@ + side_name_lower(side)
                + "\u{1b}[0m:\u{1b}[0m"@,
            e,
        ],
        OutputMode::Silent => Seq::empty(),
    }
}

/// The crash status naming the given side.
pub open spec fn crash_status_spec(side: SolverErrorType) -> CheckStatus {
    match side {
        SolverErrorType::Left => CheckStatus::CrashLeft,
        SolverErrorType::Right => CheckStatus::CrashRight,
        SolverErrorType::Both => CheckStatus::CrashBoth,
    }
}

/// The total milliseconds of a measurement, as rendered in the plain style.
pub open spec fn millis_of(e: crate::hhmmss::Elapsed) -> nat {
    (e.secs * 1000 + e.millis) as nat
}

/// The lines that report two matching solution sets.
pub open spec fn success_lines_spec(
    n: nat,
    dl: crate::hhmmss::Elapsed,
    dr: crate::hhmmss::Elapsed,
    mode: OutputMode,
) -> Seq<Seq<char>> {
    match mode {
        OutputMode::Ascii => seq![
            "[OK] All "@ + dec_rep(n) + " solutions match."@,
            "Left time: "@ + dec_rep(millis_of(dl)) + " \u{1b}[0m"@,
            "Right time: "@ + dec_rep(millis_of(dr)) + " \u{1b}[0m"@,
        ],
        OutputMode::Rich => seq![
            "\u{1b}[32m\u{2705} All "@ + dec_rep(n) + " solutions \u{1b}[1mmatch\u{1b}[0m.\u{1b}[0m"@,
            "\u{1b}[32m\u{231b} Duration of left run: "@ + sms2hhmmsxxx_spec(
                dl.secs as int,
                dl.millis as int,
            ) + " \u{1b}[0m"@,
            "\u{1b}[32m\u{231b} Duration of right run: "@ + sms2hhmmsxxx_spec(
                dr.secs as int,
                dr.millis as int,
            ) + " \u{1b}[0m"@,
        ],
        OutputMode::Silent => Seq::empty(),
    }
}

/// The lines that report a mismatch: the left-only solutions each behind a
/// minus, then the right-only solutions each behind a plus.
pub open spec fn mismatch_lines_spec(
    added: Seq<Seq<char>>,
    removed: Seq<Seq<char>>,
    mode: OutputMode,
) -> Seq<Seq<char>> {
    match mode {
        OutputMode::Ascii => seq!["[FAIL] Mismatch found:"@] + prefixed_lines(
            "- "@,
            removed,
            Seq::empty(),
        ) + prefixed_lines("+ "@, added, Seq::empty()),
        OutputMode::Rich => seq!["\u{1b}[31m\u{274c} Mismatch found:\u{1b}[0m"@] + prefixed_lines(
            "\u{1b}[31m- "@,
            removed,
            "\u{1b}[0m"@,
        ) + prefixed_lines("\u{1b}[32m+ "@, added, "\u{1b}[0m"@),
        OutputMode::Silent => Seq::empty(),
    }
}

/// Whether a parsed output is fit to be compared and rendered.
pub open spec fn output_wf(o: SolverOutput) -> bool {
    match o {
        SolverOutput::Complete(s, e) => s.wf() && e.wf(),
        SolverOutput::Timeout => true,
    }
}

/// The lines a comparison of two parsed outputs renders.
pub open spec fn print_diff_lines_spec(
    l: SolverOutput,
    r: SolverOutput,
    mode: OutputMode,
) -> Seq<Seq<char>> {
    match (l, r) {
        (SolverOutput::Timeout, SolverOutput::Timeout) => timeout_lines_spec(
            SolverErrorType::Both,
            mode,
        ),
        (SolverOutput::Timeout, SolverOutput::Complete(_, _)) => timeout_lines_spec(
            SolverErrorType::Left,
            mode,
        ),
        (SolverOutput::Complete(_, _), SolverOutput::Timeout) => timeout_lines_spec(
            SolverErrorType::Right,
            mode,
        ),
        (SolverOutput::Complete(a, da), SolverOutput::Complete(b, db)) => {
            let added = seq_minus(b.items_seq(), a@);
            let removed = seq_minus(a.items_seq(), b@);
            if added.len() == 0 && removed.len() == 0 {
                success_lines_spec(shared_spec(a@, b@), da, db, mode)
            } else {
                mismatch_lines_spec(added, removed, mode)
            }
        },
    }
}

fn push_line(out: &mut Vec<String>, line: String)
    ensures
        final(out)@.map_values(|t: String| t@) == old(out)@.map_values(|t: String| t@).push(
            line@,
        ),
{
    let ghost pre = out@.map_values(|t: String| t@);
    out.push(line);
    proof {
        assert(out@.map_values(|t: String| t@) =~= pre.push(line@));
    }
}

fn push_prefixed(out: &mut Vec<String>, pre: &str, items: &Vec<String>, suf: &str)
    ensures
        final(out)@.map_values(|t: String| t@) == old(out)@.map_values(|t: String| t@)
            + prefixed_lines(pre@, items@.map_values(|t: String| t@), suf@),
{
    let ghost base = out@.map_values(|t: String| t@);
    let ghost xs = items@.map_values(|t: String| t@);
    let n = items.len();
    let mut i: usize = 0;
    proof {
        assert(base + prefixed_lines(pre@, xs.take(0), suf@) =~= base);
    }
    while i < n
        invariant
            0 <= i <= n,
            n == items@.len(),
            xs == items@.map_values(|t: String| t@),
            base == old(out)@.map_values(|t: String| t@),
            out@.map_values(|t: String| t@) == base + prefixed_lines(pre@, xs.take(i as int), suf@),
        decreases n - i,
    {
        let mut l = String::from_str(pre);
        l.append(items[i].as_str());
        l.append(suf);
        proof {
            assert(l@ =~= pre@ + xs[i as int] + suf@);
        }
        push_line(out, l);
        proof {
            assert(xs.take(i + 1).drop_last() =~= xs.take(i as int));
            assert((base + prefixed_lines(pre@, xs.take(i as int), suf@)).push(
                pre@ + xs[i as int] + suf@,
            ) =~= base + prefixed_lines(pre@, xs.take(i + 1), suf@));
        }
        i += 1;
    }
    proof {
        assert(xs.take(n as int) =~= xs);
    }
}

/// The lines that report a timeout of the given side, in the given style.
pub fn report_timeout(result: SolverErrorType, output: OutputMode) -> (lines: Vec<String>)
    ensures
        lines@.map_values(|t: String| t@) == timeout_lines_spec(result, output),
{
    proof {
        reveal_strlit("[TIMEOUT] ");
        reveal_strlit(" timed out");
        reveal_strlit("Left solver");
        reveal_strlit("Right solver");
        reveal_strlit("Both solvers");
        reveal_strlit("\u{1b}[33m\u{23f3} \u{1b}[1m");
        reveal_strlit("\u{1b}[0m timed out\u{1b}[0m");
    }
    let name: &str = match result {
        SolverErrorType::Left => "Left solver",
        SolverErrorType::Right => "Right solver",
        SolverErrorType::Both => "Both solvers",
    };
    let mut lines: Vec<String> = Vec::new();
    proof {
        assert(lines@.map_values(|t: String| t@) =~= Seq::<Seq<char>>::empty());
    }
    match output {
        OutputMode::Ascii => {
            let mut l = String::from_str("[TIMEOUT] ");
            l.append(name);
            l.append(" timed out");
            proof {
                assert(l@ =~= "[TIMEOUT] "@ + side_name_caps(result) + " timed out"@);
            }
            push_line(&mut lines, l);
            proof {
                assert(lines@.map_values(|t: String| t@) =~= timeout_lines_spec(result, output));
            }
        },
        OutputMode::Rich => {
            let mut l = String::from_str("\u{1b}[33m\u{23f3} \u{1b}[1m");
            l.append(name);
            l.append("\u{1b}[0m timed out\u{1b}[0m");
            proof {
                assert(l@ =~= "\u{1b}[33m\u{23f3} \u{1b}[1m"@ + side_name_caps(result)
                    + "\u{1b}[0m timed out\u{1b}[0m"@);
            }
            push_line(&mut lines, l);
            proof {
                assert(lines@.map_values(|t: String| t@) =~= timeout_lines_spec(result, output));
            }
        },
        OutputMode::Silent => {
        },
    }
    lines
}

/// The classification and the lines for a crash of the given side, with the
/// captured error text.
pub fn report_crash(e: String, solvers: SolverErrorType, output: OutputMode) -> (r: (
    CheckStatus,
    Vec<String>,
))
    ensures
        r.0 == crash_status_spec(solvers),
        r.1@.map_values(|t: String| t@) == crash_lines_spec(e@, solvers, output),
{
    proof {
        reveal_strlit("[FAIL] Error running ");
        reveal_strlit(": ");
        reveal_strlit("left solver");
        reveal_strlit("right solver");
        reveal_strlit("both solvers");
        reveal_strlit("\u{1b}[31m\u{26d4} Error running \u{1b}[1m");
        reveal_strlit("\u{1b}[0m:\u{1b}[0m");
    }
    let ghost e_view = e@;
    let name: &str = match solvers {
        SolverErrorType::Left => "left solver",
        SolverErrorType::Right => "right solver",
        SolverErrorType::Both => "both solvers",
    };
    let mut lines: Vec<String> = Vec::new();
    proof {
        assert(lines@.map_values(|t: String| t@) =~= Seq::<Seq<char>>::empty());
    }
    match output {
        OutputMode::Ascii => {
            let mut l = String::from_str("[FAIL] Error running ");
            l.append(name);
            l.append(": ");
            l.append(e.as_str());
            proof {
                assert(l@ =~= "[FAIL] Error running "@ + side_name_lower(solvers) + ": "@ + e@);
            }
            push_line(&mut lines, l);
            proof {
                assert(lines@.map_values(|t: String| t@) =~= crash_lines_spec(
                    e@,
                    solvers,
                    output,
                ));
            }
        },
        OutputMode::Rich => {
            let mut l = String::from_str("\u{1b}[31m\u{26d4} Error running \u{1b}[1m");
            l.append(name);
            l.append("\u{1b}[0m:\u{1b}[0m");
            proof {
                assert(l@ =~= "\u{1b}[31m\u{26d4} Error running \u{1b}[1m"@ + side_name_lower(
                    solvers,
                ) + "\u{1b}[0m:\u{1b}[0m"@);
            }
            push_line(&mut lines, l);
            push_line(&mut lines, e);
            proof {
                assert(lines@.map_values(|t: String| t@) =~= crash_lines_spec(
                    e_view,
                    solvers,
                    output,
                ));
            }
        },
        OutputMode::Silent => {
        },
    }
    let status = match solvers {
        SolverErrorType::Left => CheckStatus::CrashLeft,
        SolverErrorType::Right => CheckStatus::CrashRight,
        SolverErrorType::Both => CheckStatus::CrashBoth,
    };
    (status, lines)
}

/// Compare two parsed outputs: classify the pair and render the lines of the
/// report. Timeouts on either side are reported as such; two complete runs
/// are diffed, succeeding exactly when their solution sets are equal.
pub fn print_diff(set_left: &SolverOutput, set_right: &SolverOutput, output: OutputMode) -> (r: (
    CheckStatus,
    Vec<String>,
))
    requires
        output_wf(*set_left),
        output_wf(*set_right),
    ensures
        r.0 == classify_spec(output_view(*set_left), output_view(*set_right)),
        r.1@.map_values(|t: String| t@) == print_diff_lines_spec(*set_left, *set_right, output),
{
    match (set_left, set_right) {
        (SolverOutput::Timeout, SolverOutput::Timeout) => {
            let lines = report_timeout(SolverErrorType::Both, output);
            (CheckStatus::TimeoutBoth, lines)
        },
        (SolverOutput::Timeout, SolverOutput::Complete(_, _)) => {
            let lines = report_timeout(SolverErrorType::Left, output);
            (CheckStatus::TimeoutLeft, lines)
        },
        (SolverOutput::Complete(_, _), SolverOutput::Timeout) => {
            let lines = report_timeout(SolverErrorType::Right, output);
            (CheckStatus::TimeoutRight, lines)
        },
        (SolverOutput::Complete(a, da), SolverOutput::Complete(b, db)) => {
            let d = diff_solutions(a, b);
            let mut lines: Vec<String> = Vec::new();
            proof {
                assert(lines@.map_values(|t: String| t@) =~= Seq::<Seq<char>>::empty());
            }
            let is_match = d.added.len() == 0 && d.removed.len() == 0;
            if is_match {
                proof {
                    reveal_strlit("[OK] All ");
                    reveal_strlit(" solutions match.");
                    reveal_strlit("Left time: ");
                    reveal_strlit("Right time: ");
                    reveal_strlit(" \u{1b}[0m");
                    reveal_strlit("\u{1b}[32m\u{2705} All ");
                    reveal_strlit(" solutions \u{1b}[1mmatch\u{1b}[0m.\u{1b}[0m");
                    reveal_strlit("\u{1b}[32m\u{231b} Duration of left run: ");
                    reveal_strlit("\u{1b}[32m\u{231b} Duration of right run: ");
                }
                match output {
                    OutputMode::Ascii => {
                        let mut l0 = String::from_str("[OK] All ");
                        l0.append(u64_to_string(d.shared as u64).as_str());
                        l0.append(" solutions match.");
                        push_line(&mut lines, l0);
                        let mut l1 = String::from_str("Left time: ");
                        l1.append(u64_to_string(da.total_millis()).as_str());
                        l1.append(" \u{1b}[0m");
                        push_line(&mut lines, l1);
                        let mut l2 = String::from_str("Right time: ");
                        l2.append(u64_to_string(db.total_millis()).as_str());
                        l2.append(" \u{1b}[0m");
                        push_line(&mut lines, l2);
                        proof {
                            assert(lines@.map_values(|t: String| t@) =~= success_lines_spec(
                                shared_spec(a@, b@),
                                *da,
                                *db,
                                output,
                            ));
                        }
                    },
                    OutputMode::Rich => {
                        let mut l0 = String::from_str("\u{1b}[32m\u{2705} All ");
                        l0.append(u64_to_string(d.shared as u64).as_str());
                        l0.append(" solutions \u{1b}[1mmatch\u{1b}[0m.\u{1b}[0m");
                        push_line(&mut lines, l0);
                        let (s1, ms1) = da.sms();
                        let mut l1 = String::from_str("\u{1b}[32m\u{231b} Duration of left run: ");
                        l1.append(sms2hhmmsxxx(s1, ms1).as_str());
                        l1.append(" \u{1b}[0m");
                        push_line(&mut lines, l1);
                        let (s2, ms2) = db.sms();
                        let mut l2 = String::from_str("\u{1b}[32m\u{231b} Duration of right run: ");
                        l2.append(sms2hhmmsxxx(s2, ms2).as_str());
                        l2.append(" \u{1b}[0m");
                        push_line(&mut lines, l2);
                        proof {
                            assert(lines@.map_values(|t: String| t@) =~= success_lines_spec(
                                shared_spec(a@, b@),
                                *da,
                                *db,
                                output,
                            ));
                        }
                    },
                    OutputMode::Silent => {
                    },
                }
                proof {
                    assert(a@ =~= b@);
                }
                (CheckStatus::Success, lines)
            } else {
                proof {
                    reveal_strlit("[FAIL] Mismatch found:");
                    reveal_strlit("- ");
                    reveal_strlit("+ ");
                    reveal_strlit("");
                    reveal_strlit("\u{1b}[31m\u{274c} Mismatch found:\u{1b}[0m");
                    reveal_strlit("\u{1b}[31m- ");
                    reveal_strlit("\u{1b}[32m+ ");
                    reveal_strlit("\u{1b}[0m");
                }
                match output {
                    OutputMode::Ascii => {
                        push_line(&mut lines, String::from_str("[FAIL] Mismatch found:"));
                        push_prefixed(&mut lines, "- ", &d.removed, "");
                        push_prefixed(&mut lines, "+ ", &d.added, "");
                        proof {
                            assert(lines@.map_values(|t: String| t@) =~= mismatch_lines_spec(
                                seq_minus(b.items_seq(), a@),
                                seq_minus(a.items_seq(), b@),
                                output,
                            ));
                        }
                    },
                    OutputMode::Rich => {
                        push_line(
                            &mut lines,
                            String::from_str("\u{1b}[31m\u{274c} Mismatch found:\u{1b}[0m"),
                        );
                        push_prefixed(&mut lines, "\u{1b}[31m- ", &d.removed, "\u{1b}[0m");
                        push_prefixed(&mut lines, "\u{1b}[32m+ ", &d.added, "\u{1b}[0m");
                        proof {
                            assert(lines@.map_values(|t: String| t@) =~= mismatch_lines_spec(
                                seq_minus(b.items_seq(), a@),
                                seq_minus(a.items_seq(), b@),
                                output,
                            ));
                        }
                    },
                    OutputMode::Silent => {
                    },
                }
                (CheckStatus::Diff, lines)
            }
        },
    }
}

/// The combined error text when both sides crashed.
pub open spec fn both_error_spec(el: Seq<char>, er: Seq<char>) -> Seq<char> {
    "\nLeft: "@ + el + "\nRight: "@ + er
}

/// The lines a whole pair of run outcomes renders.
pub open spec fn evaluate_lines_spec(
    left: Result<SolverOutput, String>,
    right: Result<SolverOutput, String>,
    mode: OutputMode,
) -> Seq<Seq<char>> {
    match (left, right) {
        (Ok(l), Ok(r)) => print_diff_lines_spec(l, r, mode),
        (Err(e), Ok(_)) => crash_lines_spec(e@, SolverErrorType::Left, mode),
        (Ok(_), Err(e)) => crash_lines_spec(e@, SolverErrorType::Right, mode),
        (Err(el), Err(er)) => crash_lines_spec(
            both_error_spec(el@, er@),
            SolverErrorType::Both,
            mode,
        ),
    }
}

/// Whether a run outcome is fit to be compared and rendered.
pub open spec fn outcome_wf(o: Result<SolverOutput, String>) -> bool {
    match o {
        Ok(out) => output_wf(out),
        Err(_) => true,
    }
}

/// Classify a pair of run outcomes and render the report: a crash on either
/// side outranks everything else, a crash on both sides combines the two
/// error texts under side labels, and two successful runs are diffed.
pub fn evaluate_pair(
    left: Result<SolverOutput, String>,
    right: Result<SolverOutput, String>,
    output: OutputMode,
) -> (r: (CheckStatus, Vec<String>))
    requires
        outcome_wf(left),
        outcome_wf(right),
    ensures
        r.0 == classify_spec(run_view(left), run_view(right)),
        r.1@.map_values(|t: String| t@) == evaluate_lines_spec(left, right, output),
{
    match (left, right) {
        (Ok(l), Ok(r)) => print_diff(&l, &r, output),
        (Err(e), Ok(_)) => report_crash(e, SolverErrorType::Left, output),
        (Ok(_), Err(e)) => report_crash(e, SolverErrorType::Right, output),
        (Err(e_left), Err(e_right)) => {
            proof {
                reveal_strlit("\nLeft: ");
                reveal_strlit("\nRight: ");
            }
            let mut msg = String::from_str("\nLeft: ");
            msg.append(e_left.as_str());
            msg.append("\nRight: ");
            msg.append(e_right.as_str());
            proof {
                assert(msg@ =~= both_error_spec(e_left@, e_right@));
            }
            report_crash(msg, SolverErrorType::Both, output)
        },
    }
}

} // verus!
