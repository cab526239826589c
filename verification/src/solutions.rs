//! Parsing of a solver's textual output into a set of distinct solution
//! blocks plus a completion status.
//!
//! The output is read line by line, each line trimmed of surrounding
//! whitespace. A separator line closes the block accumulated so far and
//! inserts it into the solution set; a completion-marker line records that
//! the solver enumerated every solution; blank lines and comment lines are
//! ignored; every other line extends the current block. Without the
//! completion marker the run counts as timed out and any partially collected
//! blocks are discarded.
use crate::hhmmss::Elapsed;
use crate::text::{lemma_split_nl_first, lemma_split_nl_len, split_nl, str_eq, trim_spec, trim_str};
use vstd::prelude::*;

verus! {

broadcast use vstd::set::group_set_axioms;

/// A line that contributes nothing: blank, or a comment starting with `'%'`.
pub open spec fn line_ignored(l: Seq<char>) -> bool {
    l.len() == 0 || l[0] == '%'
}

/// A block extended by one more line: the two joined by a newline, or the
/// line itself when the block is still empty.
pub open spec fn joined(cur: Seq<char>, l: Seq<char>) -> Seq<char> {
    if cur.len() == 0 {
        l
    } else {
        cur + seq!['\n'] + l
    }
}

/// The parser's state: the solutions collected so far, the block being
/// accumulated, and whether the completion marker was seen.
pub ghost struct ParseState {
    pub sols: Set<Seq<char>>,
    pub cur: Seq<char>,
    pub complete: bool,
}

/// The initial parser state: nothing collected, nothing accumulated.
pub open spec fn init_state() -> ParseState {
    ParseState { sols: Set::empty(), cur: Seq::empty(), complete: false }
}

/// One step of the parser on one raw line.
pub open spec fn step_line(st: ParseState, raw: Seq<char>) -> ParseState {
    let l = trim_spec(raw);
    if line_ignored(l) {
        st
    } else if l == "----------"@ {
        ParseState { sols: st.sols.insert(st.cur), cur: Seq::empty(), complete: st.complete }
    } else if l == "=========="@ {
        ParseState { sols: st.sols, cur: st.cur, complete: true }
    } else {
        ParseState { sols: st.sols, cur: joined(st.cur, l), complete: st.complete }
    }
}

/// The parser run over a sequence of raw lines, first line first.
pub open spec fn run_lines(st: ParseState, lines: Seq<Seq<char>>) -> ParseState
    decreases lines.len(),
{
    if lines.len() == 0 {
        st
    } else {
        run_lines(step_line(st, lines[0]), lines.drop_first())
    }
}

/// The parser's final state on a whole output text.
pub open spec fn parse_spec(text: Seq<char>) -> ParseState {
    run_lines(init_state(), split_nl(text))
}

/// The distinct solution blocks an output text closes with separators.
pub open spec fn solutions_spec(text: Seq<char>) -> Set<Seq<char>> {
    parse_spec(text).sols
}

/// Whether an output text holds the completion marker.
pub open spec fn complete_spec(text: Seq<char>) -> bool {
    parse_spec(text).complete
}

/// How many lines of a line sequence are separator lines.
pub open spec fn separator_count(ls: Seq<Seq<char>>) -> nat
    decreases ls.len(),
{
    if ls.len() == 0 {
        0
    } else {
        (if trim_spec(ls[0]) == "----------"@ {
            1nat
        } else {
            0nat
        }) + separator_count(ls.drop_first())
    }
}

/// A line sequence with its blank lines and comment lines removed.
pub open spec fn content_lines(ls: Seq<Seq<char>>) -> Seq<Seq<char>>
    decreases ls.len(),
{
    if ls.len() == 0 {
        Seq::empty()
    } else if line_ignored(trim_spec(ls[0])) {
        content_lines(ls.drop_first())
    } else {
        seq![ls[0]] + content_lines(ls.drop_first())
    }
}

proof fn lemma_run_lines_complete(st: ParseState, ls: Seq<Seq<char>>)
    ensures
        run_lines(st, ls).complete == (st.complete || exists|i: int|
            0 <= i < ls.len() && trim_spec(ls[i]) == "=========="@),
    decreases ls.len(),
{
    reveal_strlit("==========");
    reveal_strlit("----------");
    let m = "=========="@;
    if ls.len() != 0 {
        let st1 = step_line(st, ls[0]);
        lemma_run_lines_complete(st1, ls.drop_first());
        if trim_spec(ls[0]) == m {
            assert(!line_ignored(m));
            assert(st1.complete);
        }
        if exists|i: int|
            0 <= i < ls.drop_first().len() && trim_spec(ls.drop_first()[i]) == m {
            let i = choose|i: int|
                0 <= i < ls.drop_first().len() && trim_spec(ls.drop_first()[i]) == m;
            assert(ls.drop_first()[i] == ls[i + 1]);
            assert(trim_spec(ls[i + 1]) == m);
        }
        if exists|i: int| 0 <= i < ls.len() && trim_spec(ls[i]) == m {
            let i = choose|i: int| 0 <= i < ls.len() && trim_spec(ls[i]) == m;
            if i > 0 {
                assert(ls.drop_first()[i - 1] == ls[i]);
                assert(exists|j: int|
                    0 <= j < ls.drop_first().len() && trim_spec(ls.drop_first()[j]) == m);
            }
        }
    }
}

/// The parse of a text reports completion exactly when some line of the text
/// trims to the completion marker — however many separators came before a
/// truncation point.
pub proof fn lemma_complete_iff_marker(text: Seq<char>)
    ensures
        complete_spec(text) <==> exists|i: int|
            0 <= i < split_nl(text).len() && trim_spec(split_nl(text)[i]) == "=========="@,
{
    lemma_run_lines_complete(init_state(), split_nl(text));
}

proof fn lemma_run_lines_sols_len(st: ParseState, ls: Seq<Seq<char>>)
    requires
        st.sols.finite(),
    ensures
        run_lines(st, ls).sols.finite(),
        run_lines(st, ls).sols.len() <= st.sols.len() + separator_count(ls),
    decreases ls.len(),
{
    if ls.len() != 0 {
        let st1 = step_line(st, ls[0]);
        assert(st1.sols.finite() && st1.sols.len() <= st.sols.len() + (if trim_spec(ls[0])
            == "----------"@ {
            1int
        } else {
            0int
        }));
        lemma_run_lines_sols_len(st1, ls.drop_first());
    }
}

/// Duplicate blocks collapse: a parse never yields more distinct solutions
/// than the text has separator lines.
pub proof fn lemma_solutions_at_most_separators(text: Seq<char>)
    ensures
        solutions_spec(text).finite(),
        solutions_spec(text).len() <= separator_count(split_nl(text)),
{
    lemma_run_lines_sols_len(init_state(), split_nl(text));
}

proof fn lemma_content_lines_only(st: ParseState, ls: Seq<Seq<char>>)
    ensures
        run_lines(st, ls) == run_lines(st, content_lines(ls)),
    decreases ls.len(),
{
    if ls.len() != 0 {
        let st1 = step_line(st, ls[0]);
        if line_ignored(trim_spec(ls[0])) {
            assert(st1 == st);
            lemma_content_lines_only(st, ls.drop_first());
        } else {
            lemma_content_lines_only(st1, ls.drop_first());
            let c = seq![ls[0]] + content_lines(ls.drop_first());
            assert(c[0] == ls[0]);
            assert(c.drop_first() =~= content_lines(ls.drop_first()));
            assert(run_lines(st, c) == run_lines(st1, content_lines(ls.drop_first())));
        }
    }
}

/// Blank lines and comment lines never contribute, wherever they stand: the
/// parse of any line sequence equals the parse of that sequence with every
/// such line removed — and no such line remains after the removal.
pub proof fn lemma_ignored_lines_contribute_nothing(st: ParseState, ls: Seq<Seq<char>>)
    ensures
        run_lines(st, ls) == run_lines(st, content_lines(ls)),
        forall|i: int|
            0 <= i < content_lines(ls).len() ==> !line_ignored(
                trim_spec(#[trigger] content_lines(ls)[i]),
            ),
    decreases ls.len(),
{
    lemma_content_lines_only(st, ls);
    if ls.len() != 0 {
        lemma_ignored_lines_contribute_nothing(st, ls.drop_first());
        if !line_ignored(trim_spec(ls[0])) {
            let c = seq![ls[0]] + content_lines(ls.drop_first());
            assert forall|i: int| 0 <= i < c.len() implies !line_ignored(
                trim_spec(#[trigger] c[i]),
            ) by {
                if i > 0 {
                    assert(c[i] == content_lines(ls.drop_first())[i - 1]);
                }
            }
        }
    }
}

/// A set of distinct solution blocks, kept in first-insertion order.
#[derive(Debug)]
pub struct SolutionSet {
    items: Vec<String>,
}

impl View for SolutionSet {
    type V = Set<Seq<char>>;

    open spec fn view(&self) -> Set<Seq<char>> {
        self.items_seq().to_set()
    }
}

impl SolutionSet {
    /// The blocks in first-insertion order.
    pub closed spec fn items_seq(&self) -> Seq<Seq<char>> {
        self.items@.map_values(|s: String| s@)
    }

    /// No block occurs twice.
    pub open spec fn wf(&self) -> bool {
        forall|i: int, j: int|
            0 <= i < j < self.items_seq().len() ==> self.items_seq()[i] != self.items_seq()[j]
    }

    pub fn new() -> (r: SolutionSet)
        ensures
            r.wf(),
            r@ == Set::<Seq<char>>::empty(),
            r.items_seq() == Seq::<Seq<char>>::empty(),
    {
        let r = SolutionSet { items: Vec::new() };
        proof {
            assert(r.items_seq() =~= Seq::<Seq<char>>::empty());
            assert(r@ =~= Set::<Seq<char>>::empty());
        }
        r
    }

    /// Whether some held block equals `s`.
    pub fn contains_str(&self, s: &str) -> (r: bool)
        ensures
            r == self@.contains(s@),
    {
        let n = self.items.len();
        let mut i: usize = 0;
        while i < n
            invariant
                0 <= i <= n,
                n == self.items.len(),
                forall|j: int| 0 <= j < i ==> self.items_seq()[j] != s@,
            decreases n - i,
        {
            if str_eq(self.items[i].as_str(), s) {
                proof {
                    assert(self.items_seq()[i as int] == s@);
                    assert(self.items_seq().contains(s@));
                }
                return true;
            }
            i += 1;
        }
        proof {
            assert(!self.items_seq().contains(s@));
        }
        false
    }

    /// Insert a block; a block already present is not duplicated.
    pub fn insert(&mut self, s: String)
        requires
            old(self).wf(),
        ensures
            final(self).wf(),
            final(self)@ == old(self)@.insert(s@),
            old(self)@.contains(s@) ==> final(self).items_seq() == old(self).items_seq(),
            !old(self)@.contains(s@) ==> final(self).items_seq() == old(self).items_seq().push(
                s@,
            ),
    {
        if !self.contains_str(s.as_str()) {
            let ghost pre = self.items_seq();
            self.items.push(s);
            proof {
                assert(self.items_seq() =~= pre.push(s@));
                pre.lemma_push_to_set_commute(s@);
                assert(self@ =~= old(self)@.insert(s@));
            }
        } else {
            proof {
                assert(self@ =~= old(self)@.insert(s@));
            }
        }
    }

    /// How many distinct blocks are held.
    pub fn len(&self) -> (r: usize)
        ensures
            r == self.items_seq().len(),
    {
        self.items.len()
    }

    /// Read one block.
    pub fn get(&self, i: usize) -> (r: &String)
        requires
            i < self.items_seq().len(),
        ensures
            r@ == self.items_seq()[i as int],
    {
        &self.items[i]
    }
}

/// What one solver run produced: every solution plus the completion marker,
/// or a truncated enumeration.
#[derive(Debug)]
pub enum SolverOutput {
    Complete(SolutionSet, Elapsed),
    Timeout,
}

/// Parse a solver's raw standard output. When the text holds the completion
/// marker the result carries every solution block the text closed plus the
/// measured duration; otherwise the enumeration was truncated and the run
/// counts as timed out.
pub fn parse_solutions(output: &str, elapsed: Elapsed) -> (r: SolverOutput)
    ensures
        complete_spec(output@) ==> (r matches SolverOutput::Complete(sols, e) && sols@
            == solutions_spec(output@) && sols.wf() && e == elapsed),
        !complete_spec(output@) ==> r is Timeout,
{
    let ghost lines = split_nl(output@);
    proof {
        lemma_split_nl_len(output@);
        assert(output@.skip(0) =~= output@);
    }
    let n = output.unicode_len();
    let mut sols = SolutionSet::new();
    let mut cur = String::new();
    let mut complete = false;
    let mut pos: usize = 0;
    let ghost mut k: int = 0;
    let mut done = false;
    proof {
        assert(lines.skip(0) =~= lines);
        assert(ParseState { sols: sols@, cur: cur@, complete } == init_state());
    }
    while !done
        invariant
            lines == split_nl(output@),
            n == output@.len(),
            0 <= pos <= n,
            0 <= k <= lines.len(),
            sols.wf(),
            !done ==> k < lines.len(),
            !done ==> split_nl(output@.skip(pos as int)) == lines.skip(k),
            done ==> k == lines.len(),
            run_lines(ParseState { sols: sols@, cur: cur@, complete }, lines.skip(k))
                == parse_spec(output@),
        decreases 2 * (lines.len() - k) + (if done {
            0int
        } else {
            1int
        }),
    {
        let ghost rem = output@.skip(pos as int);
        let ghost st0 = ParseState { sols: sols@, cur: cur@, complete };
        let line_end: usize;
        match crate::text::find_char_from(output, pos, '\n') {
            Some(i) => {
                line_end = i;
                proof {
                    assert forall|j: int| 0 <= j < i - pos implies rem[j] != '\n' by {
                        assert(rem[j] == output@[j + pos]);
                    }
                    assert(rem[i - pos] == output@[i as int]);
                    lemma_split_nl_first(rem, i - pos);
                    assert(rem.take(i - pos) =~= output@.subrange(pos as int, i as int));
                    assert(rem.skip(i - pos + 1) =~= output@.skip(i + 1));
                }
            },
            None => {
                line_end = n;
                proof {
                    assert forall|j: int| 0 <= j < rem.len() implies rem[j] != '\n' by {
                        assert(rem[j] == output@[j + pos]);
                    }
                    lemma_split_nl_first(rem, rem.len() as int);
                    assert(rem.take(n - pos) =~= rem);
                    assert(rem =~= output@.subrange(pos as int, n as int));
                }
                done = true;
            },
        }
        let ghost raw = lines[k];
        proof {
            assert(lines.skip(k)[0] == lines[k]);
            assert(raw == output@.subrange(pos as int, line_end as int));
        }
        let line = output.substring_char(pos, line_end);
        let t = trim_str(line);
        proof {
            assert(t@ == trim_spec(raw));
        }
        let tn = t.unicode_len();
        if tn == 0 {
            proof {
                assert(step_line(st0, raw) == st0);
            }
        } else if t.get_char(0) == '%' {
            proof {
                assert(step_line(st0, raw) == st0);
            }
        } else if str_eq(t, "----------") {
            proof {
                reveal_strlit("----------");
                reveal_strlit("==========");
                assert(!line_ignored(t@));
            }
            let block = cur;
            cur = String::new();
            sols.insert(block);
            proof {
                assert(step_line(st0, raw) == ParseState { sols: sols@, cur: cur@, complete });
            }
        } else if str_eq(t, "==========") {
            proof {
                reveal_strlit("----------");
                reveal_strlit("==========");
                assert(!line_ignored(t@));
            }
            complete = true;
            proof {
                assert(step_line(st0, raw) == ParseState { sols: sols@, cur: cur@, complete });
            }
        } else {
            proof {
                reveal_strlit("\n");
            }
            if cur.as_str().unicode_len() != 0 {
                cur.append("\n");
            }
            cur.append(t);
            proof {
                assert(cur@ =~= joined(st0.cur, t@));
                assert(step_line(st0, raw) == ParseState { sols: sols@, cur: cur@, complete });
            }
        }
        proof {
            assert(lines.skip(k).drop_first() =~= lines.skip(k + 1));
            assert(run_lines(st0, lines.skip(k)) == run_lines(
                step_line(st0, raw),
                lines.skip(k + 1),
            ));
            if !done {
                lemma_split_nl_len(output@.skip(line_end + 1));
            }
        }
        pos = if line_end < n {
            line_end + 1
        } else {
            n
        };
        proof {
            k = k + 1;
        }
    }
    proof {
        assert(lines.skip(k) =~= Seq::<Seq<char>>::empty());
        assert(run_lines(ParseState { sols: sols@, cur: cur@, complete }, lines.skip(k))
            == ParseState { sols: sols@, cur: cur@, complete });
    }
    if complete {
        SolverOutput::Complete(sols, elapsed)
    } else {
        SolverOutput::Timeout
    }
}

} // verus!
