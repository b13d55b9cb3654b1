//! The text by which a binding failure is reported to the host.
use vstd::prelude::*;
use vstd::string::StringExecFns;

use crate::binder::{BindError, BindFault};

verus! {

/// The decimal digit `d`.
pub open spec fn digit_char(d: nat) -> char {
    if d == 0 {
        '0'
    } else if d == 1 {
        '1'
    } else if d == 2 {
        '2'
    } else if d == 3 {
        '3'
    } else if d == 4 {
        '4'
    } else if d == 5 {
        '5'
    } else if d == 6 {
        '6'
    } else if d == 7 {
        '7'
    } else if d == 8 {
        '8'
    } else {
        '9'
    }
}

/// `n` written in decimal, without leading zeros.
pub open spec fn decimal_of(n: nat) -> Seq<char>
    decreases n,
{
    if n < 10 {
        seq![digit_char(n)]
    } else {
        decimal_of(n / 10).push(digit_char(n % 10))
    }
}

/// The name by which a failure names the function: the given one, else
/// `function`.
pub open spec fn function_label(fname: Option<Seq<char>>) -> Seq<char> {
    match fname {
        Some(f) => f,
        None => "function"@,
    }
}

/// The text that reports `fault` in the function labelled `f`.
pub open spec fn message_of(fault: BindFault, f: Seq<char>) -> Seq<char> {
    match fault {
        BindFault::Duplicate(n) => f + " got multiple values for argument: "@ + n,
        BindFault::MissingKeyword(n) => f + " missing required keyword-only argument: "@ + n,
        BindFault::MissingPositional(n) => f + " missing required positional argument: "@ + n,
        BindFault::Unexpected(n) => f + " got an unexpected keyword argument: "@ + n,
        BindFault::TooMany(used, got) => f + " takes at most "@ + decimal_of(used)
            + " positional argument"@ + (if used == 1 {
            ""@
        } else {
            "s"@
        }) + " ("@ + decimal_of(got) + " given)"@,
    }
}

/// The decimal digit `d` as text.
fn digit_text(d: usize) -> (r: &'static str)
    requires
        d < 10,
    ensures
        r@ == seq![digit_char(d as nat)],
{
    proof {
        reveal_strlit("0");
        reveal_strlit("1");
        reveal_strlit("2");
        reveal_strlit("3");
        reveal_strlit("4");
        reveal_strlit("5");
        reveal_strlit("6");
        reveal_strlit("7");
        reveal_strlit("8");
        reveal_strlit("9");
    }
    if d == 0 {
        "0"
    } else if d == 1 {
        "1"
    } else if d == 2 {
        "2"
    } else if d == 3 {
        "3"
    } else if d == 4 {
        "4"
    } else if d == 5 {
        "5"
    } else if d == 6 {
        "6"
    } else if d == 7 {
        "7"
    } else if d == 8 {
        "8"
    } else {
        "9"
    }
}

/// `n` written in decimal.
pub fn decimal(n: usize) -> (r: String)
    ensures
        r@ == decimal_of(n as nat),
    decreases n,
{
    if n < 10 {
        String::from_str(digit_text(n))
    } else {
        let mut r = decimal(n / 10);
        r.append(digit_text(n % 10));
        r
    }
}

impl BindError {
    /// The text that reports this failure in the function `fname`, or in
    /// `function` when no name is given.
    pub fn message(&self, fname: Option<&str>) -> (r: String)
        ensures
            r@ == message_of(
                self@,
                function_label(
                    match fname {
                        Some(f) => Some(f@),
                        None => None,
                    },
                ),
            ),
    {
        let mut r = match fname {
            Some(f) => String::from_str(f),
            None => String::from_str("function"),
        };
        match self {
            BindError::DuplicateArgument(n) => {
                r.append(" got multiple values for argument: ");
                r.append(n.as_str());
            },
            BindError::MissingRequiredKeywordArgument(n) => {
                r.append(" missing required keyword-only argument: ");
                r.append(n.as_str());
            },
            BindError::MissingRequiredPositionalArgument(n) => {
                r.append(" missing required positional argument: ");
                r.append(n.as_str());
            },
            BindError::UnexpectedKeywordArgument(n) => {
                r.append(" got an unexpected keyword argument: ");
                r.append(n.as_str());
            },
            BindError::TooManyPositionalArguments { expected, got } => {
                r.append(" takes at most ");
                r.append(decimal(*expected).as_str());
                r.append(" positional argument");
                if *expected == 1 {
                    r.append("");
                } else {
                    r.append("s");
                }
                r.append(" (");
                r.append(decimal(*got).as_str());
                r.append(" given)");
            },
        }
        r
    }
}

} // verus!
