use vstd::prelude::*;
use vstd::string::StringExecFns;

verus! {

/// An integer as a rule bound or a field value holds it: any value of the
/// signed and of the unsigned 128-bit range.
#[derive(Clone, Copy, Debug)]
pub enum Number {
    Signed(i128),
    Unsigned(u128),
}

impl Number {
    /// The mathematical integer this number stands for.
    pub open spec fn value(self) -> int {
        match self {
            Number::Signed(v) => v as int,
            Number::Unsigned(v) => v as int,
        }
    }

    /// The number of bytes, items or the like that `len` counts.
    pub fn from_length(len: usize) -> (n: Number)
        ensures
            n.value() == len,
    {
        Number::Unsigned(len as u128)
    }

    /// Strictly below `other`, by value.
    pub fn less_than(&self, other: &Number) -> (below: bool)
        ensures
            below == (self.value() < other.value()),
    {
        match (*self, *other) {
            (Number::Signed(a), Number::Signed(b)) => a < b,
            (Number::Unsigned(a), Number::Unsigned(b)) => a < b,
            (Number::Signed(a), Number::Unsigned(b)) => a < 0 || (a as u128) < b,
            (Number::Unsigned(a), Number::Signed(b)) => b >= 0 && a < (b as u128),
        }
    }

    /// The same integer as `other`, whichever way either is held.
    pub fn same_value(&self, other: &Number) -> (same: bool)
        ensures
            same == (self.value() == other.value()),
    {
        match (*self, *other) {
            (Number::Signed(a), Number::Signed(b)) => a == b,
            (Number::Unsigned(a), Number::Unsigned(b)) => a == b,
            (Number::Signed(a), Number::Unsigned(b)) => a >= 0 && (a as u128) == b,
            (Number::Unsigned(a), Number::Signed(b)) => b >= 0 && a == (b as u128),
        }
    }

    /// The number in decimal, as it is embedded in messages.
    pub fn to_decimal(&self) -> (text: String)
        ensures
            text@ == decimal(self.value()),
    {
        match *self {
            Number::Unsigned(v) => unsigned_decimal(v),
            Number::Signed(v) => {
                if v >= 0 {
                    unsigned_decimal(v as u128)
                } else {
                    let magnitude: u128 = ((-(v + 1)) as u128) + 1;
                    let sign = String::from_str("-");
                    let digits = unsigned_decimal(magnitude);
                    proof {
                        reveal_strlit("-");
                        assert(sign@ =~= seq!['-']);
                    }
                    sign.concat(digits.as_str())
                }
            },
        }
    }
}

/// The character that writes the digit `d`.
pub open spec fn digit_char(d: nat) -> char {
    if d == 0 {
        '0'
    } else if d == 1 {
        '1'
    } else if d == 2 {
        '2'
    } else if d == 3 {
        '3'
    } else if d == 4 {
        '4'
    } else if d == 5 {
        '5'
    } else if d == 6 {
        '6'
    } else if d == 7 {
        '7'
    } else if d == 8 {
        '8'
    } else {
        '9'
    }
}

/// The decimal digits of `n`, most significant first, without leading zeros.
pub open spec fn decimal_digits(n: nat) -> Seq<char>
    decreases n,
{
    if n < 10 {
        seq![digit_char(n)]
    } else {
        decimal_digits(n / 10).push(digit_char(n % 10))
    }
}

/// The decimal notation of `n`: its digits, after a minus sign where `n` is negative.
pub open spec fn decimal(n: int) -> Seq<char> {
    if n >= 0 {
        decimal_digits(n as nat)
    } else {
        seq!['-'] + decimal_digits((-n) as nat)
    }
}

fn digit_text(d: u8) -> (text: &'static str)
    requires
        d < 10,
    ensures
        text@ == seq![digit_char(d as nat)],
{
    proof {
        reveal_strlit("0");
        reveal_strlit("1");
        reveal_strlit("2");
        reveal_strlit("3");
        reveal_strlit("4");
        reveal_strlit("5");
        reveal_strlit("6");
        reveal_strlit("7");
        reveal_strlit("8");
        reveal_strlit("9");
    }
    let text = if d == 0 {
        "0"
    } else if d == 1 {
        "1"
    } else if d == 2 {
        "2"
    } else if d == 3 {
        "3"
    } else if d == 4 {
        "4"
    } else if d == 5 {
        "5"
    } else if d == 6 {
        "6"
    } else if d == 7 {
        "7"
    } else if d == 8 {
        "8"
    } else {
        "9"
    };
    assert(text@ =~= seq![digit_char(d as nat)]);
    text
}

fn unsigned_decimal(n: u128) -> (text: String)
    ensures
        text@ == decimal_digits(n as nat),
    decreases n,
{
    if n < 10 {
        String::from_str(digit_text(n as u8))
    } else {
        let head = unsigned_decimal(n / 10);
        let last = digit_text((n % 10) as u8);
        let text = head.concat(last);
        assert(text@ =~= decimal_digits((n / 10) as nat).push(digit_char((n % 10) as nat)));
        text
    }
}

} // verus!
