use minizinc_diff::generate::{parse_instance_shape, InstanceShape};
use minizinc_diff::hhmmss::{Elapsed, Hhmmss, _s2hhmmss, sms2hhmmsxxx};
use minizinc_diff::market_split::{
    draw_rows, market_split_data_content, market_split_data_filename, seed_small_rng,
};
use minizinc_diff::numfmt::{parse_u32, parse_usize, u64_to_string};
use minizinc_diff::single::{single_data_content, single_data_filename, single_model_content};

#[test]
fn seconds_render_as_hhmmss() {
    assert_eq!(_s2hhmmss(0), "00:00:00");
    assert_eq!(_s2hhmmss(3661), "01:01:01");
    assert_eq!(_s2hhmmss(-61), "-00:01:01");
    assert_eq!(_s2hhmmss(360000), "100:00:00");
}

#[test]
fn seconds_and_millis_render_as_hhmmssxxx() {
    assert_eq!(sms2hhmmsxxx(3661, 42), "01:01:01.042");
    assert_eq!(sms2hhmmsxxx(0, 0), "00:00:00.000");
    assert_eq!(sms2hhmmsxxx(-61, 250), "-00:01:01.-250");
}

#[test]
fn elapsed_implements_the_duration_readings() {
    let e = Elapsed::from_parts(3661, 42);
    assert_eq!(e.sms(), (3661, 42));
    assert_eq!(e._hhmmss(), "01:01:01");
    assert_eq!(e.hhmmssxxx(), "01:01:01.042");
    assert_eq!(e.total_millis(), 3661042);
}

#[test]
fn decimal_rendering_has_no_leading_zeros() {
    assert_eq!(u64_to_string(0), "0");
    assert_eq!(u64_to_string(1234567890), "1234567890");
    assert_eq!(u64_to_string(u64::MAX), "18446744073709551615");
}

#[test]
fn unsigned_parsing_accepts_plus_and_rejects_junk() {
    assert_eq!(parse_usize("42"), Some(42));
    assert_eq!(parse_usize("+42"), Some(42));
    assert_eq!(parse_usize(""), None);
    assert_eq!(parse_usize("+"), None);
    assert_eq!(parse_usize("4x2"), None);
    assert_eq!(parse_usize("-1"), None);
    assert_eq!(parse_usize("99999999999999999999999999"), None);
    assert_eq!(parse_u32("4294967295"), Some(u32::MAX));
    assert_eq!(parse_u32("4294967296"), None);
}

#[test]
fn instance_shape_single() {
    assert_eq!(
        parse_instance_shape("single").unwrap(),
        InstanceShape::SingleConstraint
    );
}

#[test]
fn instance_shape_market_split_defaults() {
    assert_eq!(
        parse_instance_shape("market-split").unwrap(),
        InstanceShape::MarketSplit {
            n_samples: 10,
            n_constraints: 2,
            n_variables: 10,
            coef_range: 100,
        }
    );
}

#[test]
fn instance_shape_market_split_derives_variable_count() {
    assert_eq!(
        parse_instance_shape("market-split:5:3").unwrap(),
        InstanceShape::MarketSplit {
            n_samples: 5,
            n_constraints: 3,
            n_variables: 20,
            coef_range: 100,
        }
    );
    assert_eq!(
        parse_instance_shape("market-split:5:1").unwrap(),
        InstanceShape::MarketSplit {
            n_samples: 5,
            n_constraints: 1,
            n_variables: 10,
            coef_range: 100,
        }
    );
}

#[test]
fn instance_shape_market_split_explicit_parameters() {
    assert_eq!(
        parse_instance_shape("market-split:4:3:7:9").unwrap(),
        InstanceShape::MarketSplit {
            n_samples: 4,
            n_constraints: 3,
            n_variables: 7,
            coef_range: 9,
        }
    );
}

#[test]
fn instance_shape_rejects_bad_number() {
    let e = parse_instance_shape("market-split:x").unwrap_err();
    assert_eq!(
        e,
        "Failed to parse `x` as part of the market split configuration `market-split:x`"
    );
    let e2 = parse_instance_shape("market-split:5:3:7:zz").unwrap_err();
    assert_eq!(
        e2,
        "Failed to parse `zz` as part of the market split configuration `market-split:5:3:7:zz`"
    );
}

#[test]
fn instance_shape_rejects_unknown_generator() {
    let e = parse_instance_shape("circuit").unwrap_err();
    assert_eq!(e, "Unknown instance generator `circuit`");
}

#[test]
fn single_model_text_carries_the_constraint() {
    let m = single_model_content("eq");
    assert_eq!(
        m,
        "include \"alldifferent.mzn\";\nint: n_bin;\narray[1..n_bin] of var 0..1: x;\n\nint: n_int;\narray[1..n_int] of var 1..5: y;\n\nconstraint sum(i in 1..n_bin)(x[i]) + sum(i in 1..n_int)(y[i]) = 5;\n\nsolve satisfy;\noutput [\"x=\" ++ show(x) ++ \" y=\" ++ show(y)];\n"
    );
    let a = single_model_content("alldiff");
    assert!(a.contains("constraint alldifferent(y);"));
}

#[test]
fn single_data_texts_are_exact() {
    assert_eq!(single_data_filename(2, 1), "data_2_1.dzn");
    assert_eq!(single_data_content(3, 2), "n_bin = 3;\nn_int = 2;\n");
}

#[test]
fn market_split_data_filename_is_exact() {
    assert_eq!(market_split_data_filename(2, 10, 100, 1), "2_10_100_1.dzn");
}

#[test]
fn market_split_data_content_targets_half_the_row_sum() {
    let rows = vec![vec![2u32, 4u32], vec![6u32, 9u32]];
    let text = market_split_data_content(&rows, 2, 2, 9);
    assert_eq!(text, "m = 2;\nn = 2;\na=[|\n2, 4, 3 |\n6, 9, 7 |];\n");
}

#[test]
fn drawn_rows_have_the_requested_shape_and_range() {
    let mut rng = seed_small_rng(1);
    let rows = draw_rows(&mut rng, 3, 10, 5);
    assert_eq!(rows.len(), 3);
    for row in &rows {
        assert_eq!(row.len(), 10);
        for &c in row {
            assert!(1 <= c && c <= 5);
        }
    }
}
