//! Parsing of an instance-generator parameter: either the single-constraint
//! shape, or the market-split shape with up to four colon-separated numeric
//! parameters falling back to defaults.
use crate::numfmt::{parse_u32, parse_uint, parse_usize};
use crate::text::{split_char, split_str, str_eq};
use vstd::prelude::*;

verus! {

/// Which family of models and instances to generate, with its parameters.
#[derive(Clone, Copy, Debug, PartialEq, Eq, Structural)]
pub enum InstanceShape {
    MarketSplit { n_samples: usize, n_constraints: usize, n_variables: usize, coef_range: u32 },
    SingleConstraint,
}

/// The message rejecting one unparsable market-split parameter.
pub open spec fn ms_err_spec(tok: Seq<char>, s: Seq<char>) -> Seq<char> {
    "Failed to parse `"@ + tok + "` as part of the market split configuration `"@ + s + "`"@
}

/// The message rejecting an unknown generator name.
pub open spec fn unknown_err_spec(p0: Seq<char>) -> Seq<char> {
    "Unknown instance generator `"@ + p0 + "`"@
}

/// The variable count derived from a constraint count when none is given
/// explicitly; the multiplication wraps at the machine-word bound.
pub open spec fn derived_vars(nc: int) -> int {
    if nc <= 1 {
        10
    } else {
        (10 * (nc - 1)) % (usize::MAX as int + 1)
    }
}

/// What parsing an instance-shape text yields. The first colon-separated
/// part names the generator; the market-split generator takes a sample
/// count, a constraint count, a variable count and a coefficient range, each
/// optional with a default, rejected at the first unparsable one.
pub open spec fn shape_spec(s: Seq<char>) -> Result<InstanceShape, Seq<char>> {
    let parts = split_char(s, ':');
    if parts[0] == "single"@ {
        Ok(InstanceShape::SingleConstraint)
    } else if parts[0] == "market-split"@ {
        if parts.len() >= 2 && parse_uint(parts[1], usize::MAX as nat) is None {
            Err(ms_err_spec(parts[1], s))
        } else if parts.len() >= 3 && parse_uint(parts[2], usize::MAX as nat) is None {
            Err(ms_err_spec(parts[2], s))
        } else if parts.len() >= 4 && parse_uint(parts[3], usize::MAX as nat) is None {
            Err(ms_err_spec(parts[3], s))
        } else if parts.len() >= 5 && parse_uint(parts[4], u32::MAX as nat) is None {
            Err(ms_err_spec(parts[4], s))
        } else {
            let n_samples = if parts.len() >= 2 {
                parse_uint(parts[1], usize::MAX as nat).unwrap() as int
            } else {
                10
            };
            let n_constraints = if parts.len() >= 3 {
                parse_uint(parts[2], usize::MAX as nat).unwrap() as int
            } else {
                2
            };
            let n_variables = if parts.len() >= 4 {
                parse_uint(parts[3], usize::MAX as nat).unwrap() as int
            } else {
                derived_vars(n_constraints)
            };
            let coef_range = if parts.len() >= 5 {
                parse_uint(parts[4], u32::MAX as nat).unwrap() as int
            } else {
                100
            };
            Ok(
                InstanceShape::MarketSplit {
                    n_samples: n_samples as usize,
                    n_constraints: n_constraints as usize,
                    n_variables: n_variables as usize,
                    coef_range: coef_range as u32,
                },
            )
        }
    } else {
        Err(unknown_err_spec(parts[0]))
    }
}

fn ms_err(tok: &String, s: &str) -> (r: String)
    ensures
        r@ == ms_err_spec(tok@, s@),
{
    proof {
        reveal_strlit("Failed to parse `");
        reveal_strlit("` as part of the market split configuration `");
        reveal_strlit("`");
    }
    let mut r = String::from_str("Failed to parse `");
    r.append(tok.as_str());
    r.append("` as part of the market split configuration `");
    r.append(s);
    r.append("`");
    proof {
        assert(r@ =~= ms_err_spec(tok@, s@));
    }
    r
}

/// Parse an instance-shape text; each rejection carries the message the
/// specification gives for it.
pub fn parse_instance_shape(s: &str) -> (r: Result<InstanceShape, String>)
    ensures
        match r {
            Ok(sh) => shape_spec(s@) == Result::<InstanceShape, Seq<char>>::Ok(sh),
            Err(m) => shape_spec(s@) == Result::<InstanceShape, Seq<char>>::Err(m@),
        },
{
    proof {
        reveal_strlit("single");
        reveal_strlit("market-split");
        reveal_strlit("Unknown instance generator `");
        reveal_strlit("`");
    }
    let parts = split_str(s, ':');
    if str_eq(parts[0].as_str(), "single") {
        Ok(InstanceShape::SingleConstraint)
    } else if str_eq(parts[0].as_str(), "market-split") {
        let mut n_samples: usize = 10;
        let mut n_constraints: usize = 2;
        let mut n_variables: usize = 10;
        let mut coef_range: u32 = 100;
        if parts.len() >= 2 {
            match parse_usize(parts[1].as_str()) {
                Some(v) => {
                    n_samples = v;
                },
                None => {
                    return Err(ms_err(&parts[1], s));
                },
            }
        }
        if parts.len() >= 3 {
            match parse_usize(parts[2].as_str()) {
                Some(v) => {
                    n_constraints = v;
                    n_variables = if n_constraints <= 1 {
                        10
                    } else {
                        let q: u128 = 10u128 * ((n_constraints - 1) as u128);
                        (q % (usize::MAX as u128 + 1)) as usize
                    };
                    proof {
                        assert(n_variables as int == derived_vars(n_constraints as int));
                    }
                },
                None => {
                    return Err(ms_err(&parts[2], s));
                },
            }
        }
        if parts.len() >= 4 {
            match parse_usize(parts[3].as_str()) {
                Some(v) => {
                    n_variables = v;
                },
                None => {
                    return Err(ms_err(&parts[3], s));
                },
            }
        }
        if parts.len() >= 5 {
            match parse_u32(parts[4].as_str()) {
                Some(v) => {
                    coef_range = v;
                },
                None => {
                    return Err(ms_err(&parts[4], s));
                },
            }
        }
        Ok(InstanceShape::MarketSplit { n_samples, n_constraints, n_variables, coef_range })
    } else {
        let mut m = String::from_str("Unknown instance generator `");
        m.append(parts[0].as_str());
        m.append("`");
        proof {
            assert(m@ =~= unknown_err_spec(split_char(s@, ':')[0]));
        }
        Err(m)
    }
}

} // verus!
