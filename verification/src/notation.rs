//! The compact textual operator notation.
//!
//! A notation string is a stream of operator tokens: the letter `a` means
//! ambo, `d` means dual, and `k`, optionally followed by a decimal integer,
//! means kis (restricted to faces with that many sides; unrestricted without
//! a number). Parsed operators carry a zero apex scale. Malformed input — an
//! unknown letter, or a side count too large for 32 bits — fails atomically:
//! no partial operator sequence is returned.

use vstd::prelude::*;

use crate::operators::Kis;
use crate::operators::Operator;

verus! {

/// A decimal digit.
pub open spec fn is_digit(c: char) -> bool {
    '0' <= c && c <= '9'
}

/// The kis operator a parsed `k` token denotes: restricted to `side_count`
/// sides (unrestricted when zero), with a zero apex scale.
pub open spec fn kis_op(side_count: u32) -> Operator {
    Operator::Kis(Kis { side_count, apex_scale_bits: 0u64 })
}

/// The operators denoted by the notation from position `i` on.
pub open spec fn spec_parse_ops(s: Seq<char>, i: int) -> Result<Seq<Operator>, ()>
    decreases s.len() - i, 0int,
{
    if i < 0 || i >= s.len() {
        Ok(Seq::empty())
    } else if s[i] == 'a' {
        match spec_parse_ops(s, i + 1) {
            Ok(rest) => Ok(seq![Operator::Ambo] + rest),
            Err(e) => Err(e),
        }
    } else if s[i] == 'd' {
        match spec_parse_ops(s, i + 1) {
            Ok(rest) => Ok(seq![Operator::Dual] + rest),
            Err(e) => Err(e),
        }
    } else if s[i] == 'k' {
        spec_parse_kis(s, i + 1, 0)
    } else {
        Err(())
    }
}

/// The operators denoted from position `i` on, while reading the decimal
/// side count of a `k` token (`acc` holds the digits read so far); a count
/// past 32 bits is malformed.
pub open spec fn spec_parse_kis(s: Seq<char>, i: int, acc: u32) -> Result<Seq<Operator>, ()>
    decreases s.len() - i, 1int,
{
    if i < 0 || i >= s.len() || !is_digit(s[i]) {
        match spec_parse_ops(s, i) {
            Ok(rest) => Ok(seq![kis_op(acc)] + rest),
            Err(e) => Err(e),
        }
    } else {
        let d = s[i] as int - 48;
        if acc as int * 10 + d > u32::MAX {
            Err(())
        } else {
            spec_parse_kis(s, i + 1, (acc as int * 10 + d) as u32)
        }
    }
}

impl Operator {
    /// Parses a notation string into its ordered operator sequence, per
    /// [`spec_parse_ops`]; malformed input is rejected without a partial
    /// result.
    pub fn try_parse(value: &str) -> (r: Result<Vec<Operator>, ()>)
        ensures
            match r {
                Ok(ops) => spec_parse_ops(value@, 0) == Ok::<Seq<Operator>, ()>(ops@),
                Err(e) => spec_parse_ops(value@, 0) == Err::<Seq<Operator>, ()>(e),
            },
    {
        let n = value.unicode_len();
        let mut ops: Vec<Operator> = Vec::new();
        let mut i: usize = 0;
        proof {
            match spec_parse_ops(value@, 0) {
                Ok(rest) => {
                    assert(ops@ + rest =~= rest);
                },
                Err(_) => {},
            }
        }
        while i < n
            invariant
                0 <= i <= n,
                n == value@.len(),
                spec_parse_ops(value@, 0) == match spec_parse_ops(value@, i as int) {
                    Ok(rest) => Ok::<Seq<Operator>, ()>(ops@ + rest),
                    Err(e) => Err::<Seq<Operator>, ()>(e),
                },
            decreases n - i,
        {
            let c = value.get_char(i);
            let ghost pre = ops@;
            if c == 'a' {
                ops.push(Operator::Ambo);
                proof {
                    match spec_parse_ops(value@, i as int + 1) {
                        Ok(rest) => {
                            assert(pre + (seq![Operator::Ambo] + rest) =~= ops@ + rest);
                        },
                        Err(_) => {},
                    }
                }
                i = i + 1;
            } else if c == 'd' {
                ops.push(Operator::Dual);
                proof {
                    match spec_parse_ops(value@, i as int + 1) {
                        Ok(rest) => {
                            assert(pre + (seq![Operator::Dual] + rest) =~= ops@ + rest);
                        },
                        Err(_) => {},
                    }
                }
                i = i + 1;
            } else if c == 'k' {
                i = i + 1;
                let ghost i_entry = i as int;
                let mut acc: u32 = 0;
                while i < n
                    invariant_except_break
                        i_entry <= i as int,
                        0 <= i <= n,
                        n == value@.len(),
                        spec_parse_ops(value@, 0) == match spec_parse_kis(value@, i as int, acc) {
                            Ok(rest) => Ok::<Seq<Operator>, ()>(pre + rest),
                            Err(e) => Err::<Seq<Operator>, ()>(e),
                        },
                        ops@ == pre,
                    ensures
                        i_entry <= i as int,
                        0 <= i <= n,
                        n == value@.len(),
                        spec_parse_ops(value@, 0) == match spec_parse_kis(value@, i as int, acc) {
                            Ok(rest) => Ok::<Seq<Operator>, ()>(pre + rest),
                            Err(e) => Err::<Seq<Operator>, ()>(e),
                        },
                        ops@ == pre,
                        i < n ==> !is_digit(value@[i as int]),
                    decreases n - i,
                {
                    let c2 = value.get_char(i);
                    if !('0' <= c2 && c2 <= '9') {
                        break ;
                    }
                    let d = c2 as u32 - 48;
                    let next = acc as u64 * 10 + d as u64;
                    if next > u32::MAX as u64 {
                        proof {
                            assert(is_digit(value@[i as int]));
                            assert(spec_parse_kis(value@, i as int, acc) == Err::<Seq<Operator>, ()>(
                                (),
                            ));
                        }
                        return Err(());
                    }
                    acc = next as u32;
                    i = i + 1;
                }
                ops.push(Operator::Kis(Kis { side_count: acc, apex_scale_bits: 0 }));
                proof {
                    match spec_parse_ops(value@, i as int) {
                        Ok(rest) => {
                            assert(pre + (seq![kis_op(acc)] + rest) =~= ops@ + rest);
                        },
                        Err(_) => {},
                    }
                }
            } else {
                proof {
                    assert(spec_parse_ops(value@, i as int) == Err::<Seq<Operator>, ()>(()));
                }
                return Err(());
            }
        }
        proof {
            assert(spec_parse_ops(value@, n as int) == Ok::<Seq<Operator>, ()>(Seq::empty()));
            match spec_parse_ops(value@, 0) {
                Ok(rest2) => {
                    assert(ops@ + Seq::<Operator>::empty() =~= ops@);
                },
                Err(_) => {},
            }
        }
        Ok(ops)
    }
}

} // verus!
