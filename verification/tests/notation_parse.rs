//! Tests of the operator notation parser.

use polyhedrator::Kis;
use polyhedrator::Operator;

fn kis(side_count: u32) -> Operator {
    Operator::Kis(Kis {
        side_count,
        apex_scale_bits: 0,
    })
}

#[test]
fn parses_single_letters() {
    assert_eq!(Operator::try_parse("a"), Ok(vec![Operator::Ambo]));
    assert_eq!(Operator::try_parse("d"), Ok(vec![Operator::Dual]));
    assert_eq!(Operator::try_parse("k"), Ok(vec![kis(0)]));
}

#[test]
fn parses_operator_sequences_in_order() {
    assert_eq!(
        Operator::try_parse("adk4"),
        Ok(vec![Operator::Ambo, Operator::Dual, kis(4)])
    );
    assert_eq!(
        Operator::try_parse("k3k4d"),
        Ok(vec![kis(3), kis(4), Operator::Dual])
    );
    assert_eq!(
        Operator::try_parse("kka"),
        Ok(vec![kis(0), kis(0), Operator::Ambo])
    );
}

#[test]
fn parses_multi_digit_side_counts() {
    assert_eq!(Operator::try_parse("k12"), Ok(vec![kis(12)]));
    assert_eq!(Operator::try_parse("k007"), Ok(vec![kis(7)]));
    assert_eq!(
        Operator::try_parse("k4294967295"),
        Ok(vec![kis(u32::MAX)])
    );
}

#[test]
fn rejects_malformed_input_atomically() {
    assert_eq!(Operator::try_parse("x"), Err(()));
    assert_eq!(Operator::try_parse("ax"), Err(()));
    assert_eq!(Operator::try_parse("a d"), Err(()));
    assert_eq!(Operator::try_parse("4"), Err(()));
    // A side count past 32 bits is malformed, not truncated.
    assert_eq!(Operator::try_parse("k4294967296"), Err(()));
}

#[test]
fn empty_notation_is_the_empty_sequence() {
    assert_eq!(Operator::try_parse(""), Ok(Vec::new()));
}
