//! The compute half of one solver run: the command-line arguments the
//! external solver is invoked with, and the interpretation of what the
//! process left behind.
use crate::hhmmss::Elapsed;
use crate::numfmt::{dec_rep, u64_to_string};
use crate::render::output_wf;
use crate::solutions::{
    complete_spec, parse_solutions, solutions_spec, SolverOutput,
};
use crate::solver_spec::SolverSpec;
use vstd::prelude::*;

verus! {

/// The arguments of one solver invocation: request all solutions, name the
/// backend, pass the extra flags through, inject a millisecond time limit
/// when one is set, then the model path and the instance path.
pub open spec fn solver_args_spec(
    model: Seq<char>,
    instance: Seq<char>,
    tag: Seq<char>,
    flags: Seq<Seq<char>>,
    timeout_ms: Option<u64>,
) -> Seq<Seq<char>> {
    seq!["-a"@, "--solver"@, tag] + flags + (match timeout_ms {
        Some(ms) => seq!["-t"@, dec_rep(ms as nat)],
        None => Seq::empty(),
    }) + seq![model, instance]
}

/// Build the argument list of one solver invocation.
pub fn build_solver_args(
    model: &str,
    instance: &str,
    solver: &SolverSpec,
    timeout_ms: Option<u64>,
) -> (r: Vec<String>)
    ensures
        r@.map_values(|t: String| t@) == solver_args_spec(
            model@,
            instance@,
            solver.tag@,
            solver.flags@.map_values(|t: String| t@),
            timeout_ms,
        ),
{
    proof {
        reveal_strlit("-a");
        reveal_strlit("--solver");
        reveal_strlit("-t");
    }
    let ghost flag_views = solver.flags@.map_values(|t: String| t@);
    let mut r: Vec<String> = Vec::new();
    r.push(String::from_str("-a"));
    r.push(String::from_str("--solver"));
    r.push(String::from_str(solver.tag.as_str()));
    proof {
        assert(r@.map_values(|t: String| t@) =~= seq!["-a"@, "--solver"@, solver.tag@]);
    }
    let n = solver.flags.len();
    let mut i: usize = 0;
    proof {
        assert(seq!["-a"@, "--solver"@, solver.tag@] + flag_views.take(0) =~= seq![
            "-a"@,
            "--solver"@,
            solver.tag@,
        ]);
    }
    while i < n
        invariant
            0 <= i <= n,
            n == solver.flags@.len(),
            flag_views == solver.flags@.map_values(|t: String| t@),
            r@.map_values(|t: String| t@) == seq!["-a"@, "--solver"@, solver.tag@]
                + flag_views.take(i as int),
        decreases n - i,
    {
        let ghost pre = r@.map_values(|t: String| t@);
        r.push(String::from_str(solver.flags[i].as_str()));
        proof {
            assert(r@.map_values(|t: String| t@) =~= pre.push(flag_views[i as int]));
            assert(pre.push(flag_views[i as int]) =~= seq!["-a"@, "--solver"@, solver.tag@]
                + flag_views.take(i + 1));
        }
        i += 1;
    }
    proof {
        assert(flag_views.take(n as int) =~= flag_views);
    }
    match timeout_ms {
        Some(ms) => {
            let ghost pre = r@.map_values(|t: String| t@);
            r.push(String::from_str("-t"));
            r.push(u64_to_string(ms));
            proof {
                assert(r@.map_values(|t: String| t@) =~= pre + seq!["-t"@, dec_rep(ms as nat)]);
            }
        },
        None => {
        },
    }
    let ghost pre = r@.map_values(|t: String| t@);
    r.push(String::from_str(model));
    r.push(String::from_str(instance));
    proof {
        assert(r@.map_values(|t: String| t@) =~= pre + seq![model@, instance@]);
        assert(r@.map_values(|t: String| t@) =~= solver_args_spec(
            model@,
            instance@,
            solver.tag@,
            flag_views,
            timeout_ms,
        ));
    }
    r
}

/// Interpret what a finished solver process left behind. A process that
/// exited badly fails with its captured standard-error text; a process that
/// exited well has its standard output parsed, and the absence of the
/// completion marker counts as a timeout whatever the exit status said.
pub fn interpret_run(exit_ok: bool, stdout: &str, stderr: String, elapsed: Elapsed) -> (r: Result<
    SolverOutput,
    String,
>)
    requires
        elapsed.wf(),
    ensures
        !exit_ok ==> (r matches Err(m) && m@ == stderr@),
        exit_ok ==> r is Ok,
        exit_ok && complete_spec(stdout@) ==> (r matches Ok(o) && o matches
            SolverOutput::Complete(sols, e) && sols@ == solutions_spec(stdout@) && e == elapsed),
        exit_ok && !complete_spec(stdout@) ==> (r matches Ok(o) && o is Timeout),
        exit_ok ==> (r matches Ok(o) && output_wf(o)),
{
    if !exit_ok {
        Err(stderr)
    } else {
        Ok(parse_solutions(stdout, elapsed))
    }
}

} // verus!
