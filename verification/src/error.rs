//! What can go wrong when a planet is configured, built or queried.

use vstd::prelude::*;
use vstd::string::StringExecFns;

verus! {

/// The three kinds of failure.
#[derive(Debug, Clone)]
pub enum VoronoiError {
    /// A configuration value was refused when the configuration was put
    /// together.
    InvalidConfig(String),
    /// The seed points gave no usable triangulation.
    GenerationFailed(String),
    /// No cell has the given id.
    CellNotFound(usize),
}

/// The character of a decimal digit.
pub open spec fn digit_char(digit: nat) -> char {
    if digit == 0 {
        '0'
    } else if digit == 1 {
        '1'
    } else if digit == 2 {
        '2'
    } else if digit == 3 {
        '3'
    } else if digit == 4 {
        '4'
    } else if digit == 5 {
        '5'
    } else if digit == 6 {
        '6'
    } else if digit == 7 {
        '7'
    } else if digit == 8 {
        '8'
    } else {
        '9'
    }
}

/// A number written in decimal, without leading zeros.
pub open spec fn decimal(n: nat) -> Seq<char>
    decreases n,
{
    if n < 10 {
        seq![digit_char(n)]
    } else {
        decimal(n / 10).push(digit_char(n % 10))
    }
}

/// The text of one decimal digit.
fn digit_text(digit: usize) -> (text: &'static str)
    requires
        digit < 10,
    ensures
        text@ == seq![digit_char(digit as nat)],
{
    proof {
        reveal_strlit("0");
        reveal_strlit("1");
        reveal_strlit("2");
        reveal_strlit("3");
        reveal_strlit("4");
        reveal_strlit("5");
        reveal_strlit("6");
        reveal_strlit("7");
        reveal_strlit("8");
        reveal_strlit("9");
    }
    let text = if digit == 0 {
        "0"
    } else if digit == 1 {
        "1"
    } else if digit == 2 {
        "2"
    } else if digit == 3 {
        "3"
    } else if digit == 4 {
        "4"
    } else if digit == 5 {
        "5"
    } else if digit == 6 {
        "6"
    } else if digit == 7 {
        "7"
    } else if digit == 8 {
        "8"
    } else {
        "9"
    };
    assert(text@ =~= seq![digit_char(digit as nat)]);
    text
}

/// Writes `n` in decimal at the end of `text`.
pub fn append_decimal(text: &mut String, n: usize)
    ensures
        final(text)@ == old(text)@ + decimal(n as nat),
    decreases n,
{
    if n >= 10 {
        append_decimal(text, n / 10);
    }
    text.append(digit_text(n % 10));
    proof {
        if n >= 10 {
            assert(old(text)@ + decimal(n as nat / 10).push(digit_char(n as nat % 10)) =~= old(
                text,
            )@ + decimal(n as nat / 10) + seq![digit_char(n as nat % 10)]);
        }
    }
}

impl VoronoiError {
    /// What precedes the detail in the message of each kind.
    pub open spec fn prefix(self) -> Seq<char> {
        match self {
            VoronoiError::InvalidConfig(_) => "invalid configuration: "@,
            VoronoiError::GenerationFailed(_) => "generation failed: "@,
            VoronoiError::CellNotFound(_) => "cell not found: "@,
        }
    }

    /// The detail: the text that the error carries, or its id in decimal.
    pub open spec fn detail(self) -> Seq<char> {
        match self {
            VoronoiError::InvalidConfig(text) => text@,
            VoronoiError::GenerationFailed(text) => text@,
            VoronoiError::CellNotFound(id) => decimal(id as nat),
        }
    }

    /// The message a reader sees: the kind, a colon, and the detail.
    pub fn message(&self) -> (text: String)
        ensures
            text@ == self.prefix() + self.detail(),
    {
        match self {
            VoronoiError::InvalidConfig(detail) => {
                String::from_str("invalid configuration: ").concat(detail.as_str())
            },
            VoronoiError::GenerationFailed(detail) => {
                String::from_str("generation failed: ").concat(detail.as_str())
            },
            VoronoiError::CellNotFound(id) => {
                let mut text = String::from_str("cell not found: ");
                append_decimal(&mut text, *id);
                text
            },
        }
    }
}

} // verus!
