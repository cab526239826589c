//! Parsing of a solver specification of the form `tag` or `tag:flags`: the
//! backend tag stands before the first colon, and the flags text after it is
//! tokenized under shell-style quoting and escaping rules.
use crate::text::find_char_from;
use vstd::prelude::*;

verus! {

/// One side's solver configuration: the backend tag and its extra
/// command-line flags, in order.
#[derive(Debug)]
pub struct SolverSpec {
    pub tag: String,
    pub flags: Vec<String>,
}

/// What shell-style tokenization of a flags text yields: the tokens, honoring
/// quotes and escapes, or nothing when a quote is left unclosed.
pub uninterp spec fn shell_tokens(s: Seq<char>) -> Option<Seq<Seq<char>>>;

/// Relies on shell_words::split: the tokens of a string under shell-style
/// quoting and escaping rules, a function of the characters alone; splitting
/// fails exactly on an unclosed quote, and the error renders as
/// "missing closing quote".
#[verifier::external_body]
fn shell_split(s: &str) -> (r: Result<Vec<String>, String>)
    ensures
        match r {
            Ok(v) => shell_tokens(s@) == Some(v@.map_values(|t: String| t@)),
            Err(m) => shell_tokens(s@) is None && m@ == "missing closing quote"@,
        },
{
    shell_words::split(s).map_err(|e| e.to_string())
}

/// The position of the first colon of `s`, or the length when there is none.
pub open spec fn first_colon(s: Seq<char>) -> int
    decreases s.len(),
{
    if s.len() == 0 {
        0
    } else if s[0] == ':' {
        0
    } else {
        1 + first_colon(s.drop_first())
    }
}

/// The backend tag of a solver specification: everything before the first
/// colon, or the whole text when there is none.
pub open spec fn tag_spec(s: Seq<char>) -> Seq<char> {
    s.take(first_colon(s))
}

/// The flags text of a solver specification: everything after the first
/// colon, when there is one.
pub open spec fn flags_src(s: Seq<char>) -> Option<Seq<char>> {
    if first_colon(s) < s.len() {
        Some(s.skip(first_colon(s) + 1))
    } else {
        None
    }
}

proof fn lemma_first_colon_at(s: Seq<char>, i: int)
    requires
        0 <= i <= s.len(),
        forall|j: int| 0 <= j < i ==> s[j] != ':',
        i < s.len() ==> s[i] == ':',
    ensures
        first_colon(s) == i,
    decreases i,
{
    if s.len() != 0 && i != 0 {
        lemma_first_colon_at(s.drop_first(), i - 1);
    }
}

/// Parse a solver specification. The tag is everything before the first
/// colon (or the whole text); the flags are the shell-style tokens of what
/// follows the colon, and an unclosed quote there rejects the whole
/// specification.
pub fn parse_solver_spec(s: &str) -> (r: Result<SolverSpec, String>)
    ensures
        match r {
            Ok(sp) => sp.tag@ == tag_spec(s@) && (match flags_src(s@) {
                Some(f) => shell_tokens(f) == Some(sp.flags@.map_values(|t: String| t@)),
                None => sp.flags@.len() == 0,
            }),
            Err(m) => (flags_src(s@) matches Some(f) && shell_tokens(f) is None) && m@
                == "missing closing quote"@,
        },
{
    let n = s.unicode_len();
    match find_char_from(s, 0, ':') {
        Some(i) => {
            proof {
                lemma_first_colon_at(s@, i as int);
            }
            let tag = String::from_str(s.substring_char(0, i));
            let flags_text = s.substring_char(i + 1, n);
            proof {
                assert(flags_text@ == flags_src(s@).unwrap());
            }
            match shell_split(flags_text) {
                Ok(flags) => Ok(SolverSpec { tag, flags }),
                Err(m) => Err(m),
            }
        },
        None => {
            proof {
                lemma_first_colon_at(s@, s@.len() as int);
                assert(s@.take(s@.len() as int) =~= s@);
            }
            Ok(SolverSpec { tag: String::from_str(s), flags: Vec::new() })
        },
    }
}

} // verus!
