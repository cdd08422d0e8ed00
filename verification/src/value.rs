//! Scalar values and their canonical text.
use vstd::prelude::*;
use vstd::string::StringExecFns;

verus! {

/// The character that stands for one decimal digit.
pub open spec fn digit_char(d: nat) -> char {
    if d == 0 {
        '0'
    } else if d == 1 {
        '1'
    } else if d == 2 {
        '2'
    } else if d == 3 {
        '3'
    } else if d == 4 {
        '4'
    } else if d == 5 {
        '5'
    } else if d == 6 {
        '6'
    } else if d == 7 {
        '7'
    } else if d == 8 {
        '8'
    } else {
        '9'
    }
}

/// The decimal digits of a natural number, most significant first, without
/// leading zeros (zero itself is the single digit `0`).
pub open spec fn digits(n: nat) -> Seq<char>
    decreases n,
{
    if n < 10 {
        seq![digit_char(n)]
    } else {
        digits(n / 10).push(digit_char(n % 10))
    }
}

/// The decimal form of an integer: a minus sign for a negative number, then
/// the digits of its magnitude.
pub open spec fn decimal(n: int) -> Seq<char> {
    if n < 0 {
        seq!['-'] + digits((-n) as nat)
    } else {
        digits(n as nat)
    }
}

/// The text of a truth value.
pub open spec fn bool_text(b: bool) -> Seq<char> {
    if b {
        seq!['t', 'r', 'u', 'e']
    } else {
        seq!['f', 'a', 'l', 's', 'e']
    }
}

fn digit_str(d: u8) -> (s: &'static str)
    requires
        d < 10,
    ensures
        s@ == seq![digit_char(d as nat)],
{
    proof {
        reveal_strlit("0");
        reveal_strlit("1");
        reveal_strlit("2");
        reveal_strlit("3");
        reveal_strlit("4");
        reveal_strlit("5");
        reveal_strlit("6");
        reveal_strlit("7");
        reveal_strlit("8");
        reveal_strlit("9");
    }
    let s = if d == 0 {
        "0"
    } else if d == 1 {
        "1"
    } else if d == 2 {
        "2"
    } else if d == 3 {
        "3"
    } else if d == 4 {
        "4"
    } else if d == 5 {
        "5"
    } else if d == 6 {
        "6"
    } else if d == 7 {
        "7"
    } else if d == 8 {
        "8"
    } else {
        "9"
    };
    assert(s@ =~= seq![digit_char(d as nat)]);
    s
}

fn magnitude_text(m: u128) -> (out: String)
    ensures
        out@ == digits(m as nat),
{
    let mut out = String::from_str(digit_str((m % 10) as u8));
    let mut rest: u128 = m / 10;
    proof {
        if rest > 0 {
            assert(digits(m as nat) =~= digits(rest as nat) + out@);
        }
    }
    while rest > 0
        invariant
            rest > 0 ==> digits(m as nat) =~= digits(rest as nat) + out@,
            rest == 0 ==> digits(m as nat) == out@,
        decreases rest,
    {
        let low = String::from_str(digit_str((rest % 10) as u8));
        let ghost before = out@;
        out = low.concat(out.as_str());
        let next: u128 = rest / 10;
        proof {
            if next > 0 {
                assert(digits(rest as nat) =~= digits(next as nat) + low@);
                assert(digits(m as nat) =~= digits(next as nat) + out@);
            } else {
                assert(digits(rest as nat) =~= low@);
                assert(digits(m as nat) =~= out@);
            }
        }
        rest = next;
    }
    out
}

/// Writes an integer in decimal.
pub fn decimal_text(n: i128) -> (out: String)
    ensures
        out@ == decimal(n as int),
{
    if n < 0 {
        let m: u128 = (-(n + 1)) as u128 + 1;
        let sign = String::from_str("-");
        proof {
            reveal_strlit("-");
        }
        let body = magnitude_text(m);
        let out = sign.concat(body.as_str());
        assert(out@ =~= decimal(n as int));
        out
    } else {
        magnitude_text(n as u128)
    }
}

/// A scalar that a field can hold.
#[derive(Debug, PartialEq, Eq)]
pub enum Value {
    /// Text, written as it stands.
    Str(String),
    /// An integer, written in decimal.
    Int(i128),
    /// A truth value, written `true` or `false`.
    Bool(bool),
}

impl Value {
    /// The canonical text of the value.
    pub open spec fn text(&self) -> Seq<char> {
        match self {
            Value::Str(s) => s@,
            Value::Int(n) => decimal(*n as int),
            Value::Bool(b) => bool_text(*b),
        }
    }

    /// A copy of the value.
    pub fn duplicate(&self) -> (out: Value)
        ensures
            out == *self,
    {
        match self {
            Value::Str(s) => Value::Str(s.clone()),
            Value::Int(n) => Value::Int(*n),
            Value::Bool(b) => Value::Bool(*b),
        }
    }

    /// Writes the value in its canonical form.
    pub fn to_text(&self) -> (out: String)
        ensures
            out@ == self.text(),
    {
        match self {
            Value::Str(s) => s.clone(),
            Value::Int(n) => decimal_text(*n),
            Value::Bool(b) => {
                proof {
                    reveal_strlit("true");
                    reveal_strlit("false");
                }
                let out = if *b {
                    String::from_str("true")
                } else {
                    String::from_str("false")
                };
                assert(out@ =~= bool_text(*b));
                out
            },
        }
    }
}

} // verus!
