//! Validation and parsing of an incoming record payload.
//!
//! A command reaches the index as one argument of the form
//! `<non-negative integer>:<any text>`: the exit code, a colon, and the
//! command text.  A payload that does not have this form is rejected and
//! the operation fails.

use vstd::prelude::*;

verus! {

/// A decimal digit.
pub open spec fn is_digit(c: char) -> bool {
    '0' <= c && c <= '9'
}

/// The payload has the indexable form: one or more digits, then a colon,
/// then anything.
pub open spec fn spec_indexable(text: Seq<char>) -> bool {
    exists|n: int|
        1 <= n < text.len() && #[trigger] text[n] == ':' && forall|k: int|
            0 <= k < n ==> is_digit(#[trigger] text[k])
}

/// Whether `text` is a well-formed record payload:
/// `<non-negative integer>:<any text>`.
pub fn indexable_command(text: &Vec<char>) -> (r: bool)
    ensures
        r == spec_indexable(text@),
{
    let mut i: usize = 0;
    while i < text.len() && text[i] >= '0' && text[i] <= '9'
        invariant
            i <= text@.len(),
            forall|k: int| 0 <= k < i ==> is_digit(#[trigger] text@[k]),
        decreases text@.len() - i,
    {
        i = i + 1;
    }
    if i >= 1 && i < text.len() && text[i] == ':' {
        proof {
            assert(text@[i as int] == ':');
            assert(spec_indexable(text@));
        }
        true
    } else {
        proof {
            assert forall|n: int|
                1 <= n < text@.len() && #[trigger] text@[n] == ':' implies !(forall|k: int|
                0 <= k < n ==> is_digit(#[trigger] text@[k])) by {
                if forall|k: int| 0 <= k < n ==> is_digit(#[trigger] text@[k]) {
                    if i < text@.len() && n > i {
                        assert(is_digit(text@[i as int]));
                    } else {
                        assert(n <= i);
                        assert(is_digit(text@[n]));
                    }
                }
            }
        }
        false
    }
}

/// Numeric value of the digits `text[0..n]`.
pub open spec fn spec_digits_value(text: Seq<char>, n: int) -> int
    decreases n,
{
    if n <= 0 {
        0
    } else {
        spec_digits_value(text, n - 1) * 10 + (text[n - 1] as int - '0' as int)
    }
}

/// Position of the first colon in `text`, which must be there.
pub open spec fn spec_colon_pos(text: Seq<char>) -> int {
    choose|n: int| 0 <= n < text.len() && #[trigger] text[n] == ':' && forall|k: int|
        0 <= k < n ==> text[k] != ':'
}

/// A parsed record payload: the exit code and the command text.
pub struct ParsedRecord {
    /// The exit code named before the colon.
    pub exit_code: u64,
    /// The command text after the colon.
    pub command: Vec<char>,
}

/// Splits a well-formed payload at its first colon into the exit code and
/// the command text.  `None` when the digits name a value that does not
/// fit the exit-code field.
pub fn parse_record(text: &Vec<char>) -> (r: Option<ParsedRecord>)
    requires
        spec_indexable(text@),
    ensures
        match r {
            Some(p) => {
                let n = spec_colon_pos(text@);
                &&& p.exit_code as int == spec_digits_value(text@, n)
                &&& p.command@ == text@.skip(n + 1)
            },
            None => spec_digits_value(text@, spec_colon_pos(text@)) > u64::MAX,
        },
{
    let ghost witness = choose|n: int|
        1 <= n < text@.len() && #[trigger] text@[n] == ':' && forall|k: int|
            0 <= k < n ==> is_digit(#[trigger] text@[k]);
    let mut i: usize = 0;
    let mut value: u64 = 0;
    let mut overflow: bool = false;
    while i < text.len() && text[i] != ':'
        invariant
            i <= text@.len(),
            forall|k: int| 0 <= k < i ==> text@[k] != ':',
            i <= witness,
            1 <= witness < text@.len(),
            text@[witness] == ':',
            forall|k: int| 0 <= k < witness ==> is_digit(#[trigger] text@[k]),
            !overflow ==> value as int == spec_digits_value(text@, i as int),
            overflow ==> spec_digits_value(text@, i as int) > u64::MAX,
        decreases text@.len() - i,
    {
        let c = text[i];
        proof {
            if i < witness {
            } else {
                assert(i == witness);
                assert(false);
            }
        }
        let d: u64 = (c as u32 as u64) - ('0' as u32 as u64);
        proof {
            assert(is_digit(text@[i as int]));
            assert(d as int == text@[i as int] as int - '0' as int);
            assert(0 <= d <= 9);
        }
        if !overflow {
            if value > (u64::MAX - d) / 10 {
                overflow = true;
                proof {
                    let v = spec_digits_value(text@, i as int);
                    assert(v == value as int);
                    assert(v * 10 + d > u64::MAX) by (nonlinear_arith)
                        requires
                            v == value as int,
                            value > ((u64::MAX - d) / 10) as int,
                            0 <= d <= 9,
                    ;
                }
            } else {
                proof {
                    let v = spec_digits_value(text@, i as int);
                    assert(v * 10 + d <= u64::MAX) by (nonlinear_arith)
                        requires
                            v == value as int,
                            value <= ((u64::MAX - d) / 10) as int,
                            0 <= d <= 9,
                    ;
                }
                value = value * 10 + d;
            }
        } else {
            proof {
                let v = spec_digits_value(text@, i as int);
                assert(v * 10 + d > u64::MAX) by (nonlinear_arith)
                    requires
                        v > u64::MAX as int,
                        0 <= d,
                ;
            }
        }
        i = i + 1;
    }
    proof {
        assert(i == witness) by {
            if i < witness {
                assert(i < text@.len());
                assert(text@[i as int] == ':');
                assert(is_digit(text@[i as int]));
            }
        }
        assert(spec_colon_pos(text@) == witness) by {
            assert(0 <= witness < text@.len() && text@[witness] == ':' && forall|k: int|
                0 <= k < witness ==> text@[k] != ':') by {
                assert forall|k: int| 0 <= k < witness implies text@[k] != ':' by {
                    assert(is_digit(text@[k]));
                }
            }
            let p = spec_colon_pos(text@);
            assert(0 <= p < text@.len() && text@[p] == ':' && forall|k: int|
                0 <= k < p ==> text@[k] != ':');
            if p < witness {
                assert(text@[p] != ':');
            }
            if witness < p {
                assert(text@[witness] != ':');
            }
        }
    }
    if overflow {
        return None;
    }
    let mut command: Vec<char> = Vec::new();
    let mut j: usize = i + 1;
    while j < text.len()
        invariant
            i + 1 <= j <= text@.len(),
            command@ =~= text@.subrange(i as int + 1, j as int),
        decreases text@.len() - j,
    {
        command.push(text[j]);
        assert(command@ =~= text@.subrange(i as int + 1, j as int + 1));
        j = j + 1;
    }
    proof {
        assert(command@ =~= text@.skip(i as int + 1));
    }
    Some(ParsedRecord { exit_code: value, command })
}

} // verus!
