//! The texts of the single-constraint model family: one model per constraint
//! kind, and one data file per size pair.
use crate::numfmt::dec_rep;
use crate::numfmt::u64_to_string;
use vstd::prelude::*;

verus! {

/// The constraint line of one model of the family.
pub open spec fn single_constraint_code(c: Seq<char>) -> Seq<char> {
    if c == "eq"@ {
        "constraint sum(i in 1..n_bin)(x[i]) + sum(i in 1..n_int)(y[i]) = 5;"@
    } else if c == "le"@ {
        "constraint sum(i in 1..n_bin)(x[i]) + sum(i in 1..n_int)(y[i]) <= 5;"@
    } else {
        "constraint alldifferent(y);"@
    }
}

/// The whole model text: declarations, the constraint, and the output item.
pub open spec fn single_model_spec(c: Seq<char>) -> Seq<char> {
    "include \"alldifferent.mzn\";\nint: n_bin;\narray[1..n_bin] of var 0..1: x;\n\nint: n_int;\narray[1..n_int] of var 1..5: y;\n\n"@
        + single_constraint_code(c)
        + "\n\nsolve satisfy;\noutput [\"x=\" ++ show(x) ++ \" y=\" ++ show(y)];\n"@
}

/// The model text for one constraint kind.
pub fn single_model_content(constraint: &str) -> (r: String)
    requires
        constraint@ == "eq"@ || constraint@ == "le"@ || constraint@ == "alldiff"@,
    ensures
        r@ == single_model_spec(constraint@),
{
    proof {
        reveal_strlit("eq");
        reveal_strlit("le");
        reveal_strlit("alldiff");
        reveal_strlit(
            "include \"alldifferent.mzn\";\nint: n_bin;\narray[1..n_bin] of var 0..1: x;\n\nint: n_int;\narray[1..n_int] of var 1..5: y;\n\n",
        );
        reveal_strlit("constraint sum(i in 1..n_bin)(x[i]) + sum(i in 1..n_int)(y[i]) = 5;");
        reveal_strlit("constraint sum(i in 1..n_bin)(x[i]) + sum(i in 1..n_int)(y[i]) <= 5;");
        reveal_strlit("constraint alldifferent(y);");
        reveal_strlit("\n\nsolve satisfy;\noutput [\"x=\" ++ show(x) ++ \" y=\" ++ show(y)];\n");
    }
    let code: &str = if crate::text::str_eq(constraint, "eq") {
        "constraint sum(i in 1..n_bin)(x[i]) + sum(i in 1..n_int)(y[i]) = 5;"
    } else if crate::text::str_eq(constraint, "le") {
        "constraint sum(i in 1..n_bin)(x[i]) + sum(i in 1..n_int)(y[i]) <= 5;"
    } else {
        "constraint alldifferent(y);"
    };
    let mut r = String::from_str(
        "include \"alldifferent.mzn\";\nint: n_bin;\narray[1..n_bin] of var 0..1: x;\n\nint: n_int;\narray[1..n_int] of var 1..5: y;\n\n",
    );
    r.append(code);
    r.append("\n\nsolve satisfy;\noutput [\"x=\" ++ show(x) ++ \" y=\" ++ show(y)];\n");
    proof {
        assert(r@ =~= single_model_spec(constraint@));
    }
    r
}

/// The name of one data file of the family.
pub open spec fn single_data_filename_spec(n_bin: nat, n_int: nat) -> Seq<char> {
    "data_"@ + dec_rep(n_bin) + "_"@ + dec_rep(n_int) + ".dzn"@
}

pub fn single_data_filename(n_bin: usize, n_int: usize) -> (r: String)
    ensures
        r@ == single_data_filename_spec(n_bin as nat, n_int as nat),
{
    proof {
        reveal_strlit("data_");
        reveal_strlit("_");
        reveal_strlit(".dzn");
    }
    let mut r = String::from_str("data_");
    r.append(u64_to_string(n_bin as u64).as_str());
    r.append("_");
    r.append(u64_to_string(n_int as u64).as_str());
    r.append(".dzn");
    proof {
        assert(r@ =~= single_data_filename_spec(n_bin as nat, n_int as nat));
    }
    r
}

/// The text of one data file of the family.
pub open spec fn single_data_content_spec(n_bin: nat, n_int: nat) -> Seq<char> {
    "n_bin = "@ + dec_rep(n_bin) + ";\nn_int = "@ + dec_rep(n_int) + ";\n"@
}

pub fn single_data_content(n_bin: usize, n_int: usize) -> (r: String)
    ensures
        r@ == single_data_content_spec(n_bin as nat, n_int as nat),
{
    proof {
        reveal_strlit("n_bin = ");
        reveal_strlit(";\nn_int = ");
        reveal_strlit(";\n");
    }
    let mut r = String::from_str("n_bin = ");
    r.append(u64_to_string(n_bin as u64).as_str());
    r.append(";\nn_int = ");
    r.append(u64_to_string(n_int as u64).as_str());
    r.append(";\n");
    proof {
        assert(r@ =~= single_data_content_spec(n_bin as nat, n_int as nat));
    }
    r
}

} // verus!
