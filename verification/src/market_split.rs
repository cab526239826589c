//! The texts of the market-split model family: a fixed model, and data files
//! of random coefficient rows where each row's target is half its sum.
use crate::numfmt::{dec_rep, u64_to_string};
use vstd::arithmetic::mul::lemma_mul_inequality;
use vstd::prelude::*;

verus! {

#[verifier::external_type_specification]
#[verifier::external_body]
pub struct ExSmallRng(rand::rngs::SmallRng);

/// Relies on rand's SeedableRng::seed_from_u64 for SmallRng: builds a
/// generator from a word-sized seed. Nothing is assumed of the state.
#[verifier::external_body]
pub fn seed_small_rng(seed: u64) -> (r: rand::rngs::SmallRng) {
    rand::SeedableRng::seed_from_u64(seed)
}

/// Relies on rand's Rng::random_range over `1..=hi`: every drawn value lies
/// in that range; nothing else is assumed of the draw.
#[verifier::external_body]
pub fn draw_coef(rng: &mut rand::rngs::SmallRng, hi: u32) -> (r: u32)
    requires
        hi >= 1,
    ensures
        1 <= r <= hi,
{
    rand::Rng::random_range(rng, 1..=hi)
}

/// The fixed market-split model text.
pub fn market_split_model_content() -> (r: String)
    ensures
        r@ == "\nint: m;\nint: n;\n\narray[1..m, 1..n+1] of int: a;\n\narray[1..n] of var 0..1: x;\n\nconstraint\n    forall(i in 1..m)(\n        sum(j in 1..n)( a[i,j]*x[j] ) = a[i,n+1]\n    );\n\nsolve :: int_search(x, input_order, indomain_min, complete)\n  satisfy;\n\noutput [show(x)];\n"@,
{
    String::from_str(
        "\nint: m;\nint: n;\n\narray[1..m, 1..n+1] of int: a;\n\narray[1..n] of var 0..1: x;\n\nconstraint\n    forall(i in 1..m)(\n        sum(j in 1..n)( a[i,j]*x[j] ) = a[i,n+1]\n    );\n\nsolve :: int_search(x, input_order, indomain_min, complete)\n  satisfy;\n\noutput [show(x)];\n",
    )
}

/// The name of one market-split data file.
pub open spec fn ms_data_filename_spec(nc: nat, nv: nat, cr: nat, idx: nat) -> Seq<char> {
    dec_rep(nc) + "_"@ + dec_rep(nv) + "_"@ + dec_rep(cr) + "_"@ + dec_rep(idx) + ".dzn"@
}

pub fn market_split_data_filename(
    n_constraints: usize,
    n_variables: usize,
    coef_range: u32,
    run_index: usize,
) -> (r: String)
    ensures
        r@ == ms_data_filename_spec(
            n_constraints as nat,
            n_variables as nat,
            coef_range as nat,
            run_index as nat,
        ),
{
    proof {
        reveal_strlit("_");
        reveal_strlit(".dzn");
    }
    let mut r = u64_to_string(n_constraints as u64);
    r.append("_");
    r.append(u64_to_string(n_variables as u64).as_str());
    r.append("_");
    r.append(u64_to_string(coef_range as u64).as_str());
    r.append("_");
    r.append(u64_to_string(run_index as u64).as_str());
    r.append(".dzn");
    proof {
        assert(r@ =~= ms_data_filename_spec(
            n_constraints as nat,
            n_variables as nat,
            coef_range as nat,
            run_index as nat,
        ));
    }
    r
}

/// A well-formed coefficient matrix: the requested number of rows, each of
/// the requested width, every entry within the coefficient range.
pub open spec fn rows_wf(rows: Seq<Seq<u32>>, nc: nat, nv: nat, cr: nat) -> bool {
    rows.len() == nc && (forall|i: int| 0 <= i < rows.len() ==> (#[trigger] rows[i]).len() == nv)
        && (forall|i: int, j: int|
        0 <= i < rows.len() && 0 <= j < rows[i].len() ==> 1 <= #[trigger] rows[i][j] <= cr)
}

/// The sum of one coefficient row.
pub open spec fn row_sum(row: Seq<u32>) -> int
    decreases row.len(),
{
    if row.len() == 0 {
        0
    } else {
        row_sum(row.drop_last()) + row.last()
    }
}

/// One row's coefficients as text, each followed by a comma and a space.
pub open spec fn coefs_text(row: Seq<u32>) -> Seq<char>
    decreases row.len(),
{
    if row.len() == 0 {
        Seq::empty()
    } else {
        coefs_text(row.drop_last()) + dec_rep(row.last() as nat) + ", "@
    }
}

/// One data row as text: a newline, the coefficients, then half the row's
/// sum as the target, closed by the row separator.
pub open spec fn row_text(row: Seq<u32>) -> Seq<char> {
    "\n"@ + coefs_text(row) + dec_rep((row_sum(row) / 2) as nat) + " |"@
}

/// All data rows as text, in order.
pub open spec fn rows_text(rows: Seq<Seq<u32>>) -> Seq<char>
    decreases rows.len(),
{
    if rows.len() == 0 {
        Seq::empty()
    } else {
        rows_text(rows.drop_last()) + row_text(rows.last())
    }
}

/// The whole market-split data file for a coefficient matrix.
pub open spec fn ms_data_content_spec(nc: nat, nv: nat, rows: Seq<Seq<u32>>) -> Seq<char> {
    "m = "@ + dec_rep(nc) + ";\nn = "@ + dec_rep(nv) + ";\na=[|"@ + rows_text(rows) + "];\n"@
}

/// Draw a coefficient matrix: `n_constraints` rows of `n_variables` values,
/// each drawn from `1..=coef_range`.
pub fn draw_rows(
    rng: &mut rand::rngs::SmallRng,
    n_constraints: usize,
    n_variables: usize,
    coef_range: u32,
) -> (rows: Vec<Vec<u32>>)
    requires
        coef_range >= 1,
    ensures
        rows_wf(
            rows@.map_values(|v: Vec<u32>| v@),
            n_constraints as nat,
            n_variables as nat,
            coef_range as nat,
        ),
{
    let mut rows: Vec<Vec<u32>> = Vec::new();
    let mut i: usize = 0;
    while i < n_constraints
        invariant
            0 <= i <= n_constraints,
            coef_range >= 1,
            rows@.len() == i,
            forall|a: int|
                0 <= a < rows@.len() ==> (#[trigger] rows@[a])@.len() == n_variables,
            forall|a: int, b: int|
                0 <= a < rows@.len() && 0 <= b < rows@[a]@.len() ==> 1 <= #[trigger] rows@[a]@[b]
                    <= coef_range,
        decreases n_constraints - i,
    {
        let mut row: Vec<u32> = Vec::new();
        let mut j: usize = 0;
        while j < n_variables
            invariant
                0 <= j <= n_variables,
                coef_range >= 1,
                row@.len() == j,
                forall|b: int| 0 <= b < row@.len() ==> 1 <= #[trigger] row@[b] <= coef_range,
            decreases n_variables - j,
        {
            let c = draw_coef(rng, coef_range);
            row.push(c);
            j += 1;
        }
        rows.push(row);
        i += 1;
    }
    proof {
        assert(rows_wf(
            rows@.map_values(|v: Vec<u32>| v@),
            n_constraints as nat,
            n_variables as nat,
            coef_range as nat,
        ));
    }
    rows
}

/// Render a coefficient matrix as a market-split data file. Each row lists
/// its coefficients and targets half its sum.
pub fn market_split_data_content(
    rows: &Vec<Vec<u32>>,
    n_constraints: usize,
    n_variables: usize,
    coef_range: u32,
) -> (r: String)
    requires
        rows_wf(
            rows@.map_values(|v: Vec<u32>| v@),
            n_constraints as nat,
            n_variables as nat,
            coef_range as nat,
        ),
        n_variables * coef_range <= u32::MAX,
    ensures
        r@ == ms_data_content_spec(
            n_constraints as nat,
            n_variables as nat,
            rows@.map_values(|v: Vec<u32>| v@),
        ),
{
    proof {
        reveal_strlit("m = ");
        reveal_strlit(";\nn = ");
        reveal_strlit(";\na=[|");
        reveal_strlit("];\n");
        reveal_strlit("\n");
        reveal_strlit(", ");
        reveal_strlit(" |");
    }
    let ghost rws = rows@.map_values(|v: Vec<u32>| v@);
    let mut r = String::from_str("m = ");
    r.append(u64_to_string(n_constraints as u64).as_str());
    r.append(";\nn = ");
    r.append(u64_to_string(n_variables as u64).as_str());
    r.append(";\na=[|");
    let ghost head = r@;
    proof {
        assert(head =~= "m = "@ + dec_rep(n_constraints as nat) + ";\nn = "@ + dec_rep(
            n_variables as nat,
        ) + ";\na=[|"@);
        assert(rws.take(0) =~= Seq::<Seq<u32>>::empty());
    }
    let mut i: usize = 0;
    while i < n_constraints
        invariant
            0 <= i <= n_constraints,
            n_variables * coef_range <= u32::MAX,
            rws == rows@.map_values(|v: Vec<u32>| v@),
            rows_wf(rws, n_constraints as nat, n_variables as nat, coef_range as nat),
            head == "m = "@ + dec_rep(n_constraints as nat) + ";\nn = "@ + dec_rep(
                n_variables as nat,
            ) + ";\na=[|"@,
            r@ == head + rows_text(rws.take(i as int)),
        decreases n_constraints - i,
    {
        r.append("\n");
        let row = &rows[i];
        let ghost rw = rws[i as int];
        let n = row.len();
        proof {
            assert(rw == row@);
            assert(n == n_variables);
            assert(rw.take(0) =~= Seq::<u32>::empty());
        }
        let ghost row_head = r@;
        let mut total: u32 = 0;
        let mut j: usize = 0;
        while j < n
            invariant
                0 <= j <= n,
                n == rw.len(),
                rw == row@,
                n == n_variables,
                n_variables * coef_range <= u32::MAX,
                forall|b: int| 0 <= b < rw.len() ==> 1 <= #[trigger] rw[b] <= coef_range,
                total == row_sum(rw.take(j as int)),
                total <= j * coef_range,
                r@ == row_head + coefs_text(rw.take(j as int)),
            decreases n - j,
        {
            let c = row[j];
            proof {
                assert(rw.take(j + 1).drop_last() =~= rw.take(j as int));
                assert(rw.take(j + 1).last() == rw[j as int]);
                lemma_mul_inequality(j as int + 1, n_variables as int, coef_range as int);
                assert((j as int + 1) * (coef_range as int) == j as int * (coef_range as int)
                    + coef_range as int) by (nonlinear_arith);
            }
            r.append(u64_to_string(c as u64).as_str());
            r.append(", ");
            total = total + c;
            j += 1;
        }
        proof {
            assert(rw.take(n as int) =~= rw);
        }
        r.append(u64_to_string((total / 2) as u64).as_str());
        r.append(" |");
        proof {
            assert(r@ =~= row_head + coefs_text(rw) + dec_rep((row_sum(rw) / 2) as nat) + " |"@);
            assert(rws.take(i + 1).drop_last() =~= rws.take(i as int));
            assert(rws.take(i + 1).last() == rws[i as int]);
            assert(r@ =~= head + rows_text(rws.take(i + 1)));
        }
        i += 1;
    }
    proof {
        assert(rws.take(n_constraints as int) =~= rws);
    }
    r.append("];\n");
    proof {
        assert(r@ =~= ms_data_content_spec(n_constraints as nat, n_variables as nat, rws));
    }
    r
}

} // verus!
