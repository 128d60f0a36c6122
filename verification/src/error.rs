use vstd::prelude::*;
use vstd::string::StringExecFns;

verus! {

/// The decimal digit character for `d`.
pub open spec fn dec_digit(d: int) -> char {
    if d == 0 {
        '0'
    } else if d == 1 {
        '1'
    } else if d == 2 {
        '2'
    } else if d == 3 {
        '3'
    } else if d == 4 {
        '4'
    } else if d == 5 {
        '5'
    } else if d == 6 {
        '6'
    } else if d == 7 {
        '7'
    } else if d == 8 {
        '8'
    } else {
        '9'
    }
}

/// The decimal digits of a byte value, without leading zeroes.
pub open spec fn u8_decimal(v: int) -> Seq<char> {
    if v < 10 {
        seq![dec_digit(v)]
    } else if v < 100 {
        seq![dec_digit(v / 10), dec_digit(v % 10)]
    } else {
        seq![dec_digit(v / 100), dec_digit((v / 10) % 10), dec_digit(v % 10)]
    }
}

/// Recoverable error carrying a descriptive message; every decode or encode
/// failure in this crate is reported through it. Its view is the message's
/// characters.
#[derive(Debug)]
pub struct AppError {
    message: String,
}

impl View for AppError {
    type V = Seq<char>;

    closed spec fn view(&self) -> Seq<char> {
        self.message@
    }
}

impl AppError {
    pub fn new(message: &str) -> (r: AppError)
        ensures
            r@ == message@,
    {
        AppError { message: String::from_str(message) }
    }

    /// An error whose message is `prefix` followed by the decimal value of
    /// the offending byte.
    pub fn with_byte(prefix: &str, value: u8) -> (r: AppError)
        ensures
            r@ == prefix@ + u8_decimal(value as int),
    {
        let mut m = String::from_str(prefix);
        let d = decimal_of_u8(value);
        m.append(d.as_str());
        AppError { message: m }
    }

    /// An error whose message is `prefix` followed by the four offending
    /// byte values in decimal, separated by spaces.
    pub fn with_four_bytes(prefix: &str, b0: u8, b1: u8, b2: u8, b3: u8) -> (r: AppError)
        ensures
            r@ == prefix@ + u8_decimal(b0 as int) + " "@ + u8_decimal(b1 as int) + " "@
                + u8_decimal(b2 as int) + " "@ + u8_decimal(b3 as int),
    {
        let mut m = String::from_str(prefix);
        let d0 = decimal_of_u8(b0);
        m.append(d0.as_str());
        m.append(" ");
        let d1 = decimal_of_u8(b1);
        m.append(d1.as_str());
        m.append(" ");
        let d2 = decimal_of_u8(b2);
        m.append(d2.as_str());
        m.append(" ");
        let d3 = decimal_of_u8(b3);
        m.append(d3.as_str());
        proof {
            assert(m@ =~= prefix@ + u8_decimal(b0 as int) + " "@ + u8_decimal(b1 as int) + " "@
                + u8_decimal(b2 as int) + " "@ + u8_decimal(b3 as int));
        }
        AppError { message: m }
    }

    pub fn message(&self) -> (r: &str)
        ensures
            r@ == self@,
    {
        self.message.as_str()
    }
}

/// The one-character string for a decimal digit.
fn digit_str(d: u8) -> (r: &'static str)
    requires
        d < 10,
    ensures
        r@ == seq![dec_digit(d as int)],
{
    if d == 0 {
        proof {
            reveal_strlit("0");
            assert("0"@ =~= seq![dec_digit(0int)]);
        }
        "0"
    } else if d == 1 {
        proof {
            reveal_strlit("1");
            assert("1"@ =~= seq![dec_digit(1int)]);
        }
        "1"
    } else if d == 2 {
        proof {
            reveal_strlit("2");
            assert("2"@ =~= seq![dec_digit(2int)]);
        }
        "2"
    } else if d == 3 {
        proof {
            reveal_strlit("3");
            assert("3"@ =~= seq![dec_digit(3int)]);
        }
        "3"
    } else if d == 4 {
        proof {
            reveal_strlit("4");
            assert("4"@ =~= seq![dec_digit(4int)]);
        }
        "4"
    } else if d == 5 {
        proof {
            reveal_strlit("5");
            assert("5"@ =~= seq![dec_digit(5int)]);
        }
        "5"
    } else if d == 6 {
        proof {
            reveal_strlit("6");
            assert("6"@ =~= seq![dec_digit(6int)]);
        }
        "6"
    } else if d == 7 {
        proof {
            reveal_strlit("7");
            assert("7"@ =~= seq![dec_digit(7int)]);
        }
        "7"
    } else if d == 8 {
        proof {
            reveal_strlit("8");
            assert("8"@ =~= seq![dec_digit(8int)]);
        }
        "8"
    } else {
        proof {
            reveal_strlit("9");
            assert("9"@ =~= seq![dec_digit(9int)]);
        }
        "9"
    }
}

/// The decimal rendering of a byte value.
fn decimal_of_u8(v: u8) -> (r: String)
    ensures
        r@ == u8_decimal(v as int),
{
    if v < 10 {
        String::from_str(digit_str(v))
    } else if v < 100 {
        let mut s = String::from_str(digit_str(v / 10));
        s.append(digit_str(v % 10));
        proof {
            assert(s@ =~= u8_decimal(v as int));
        }
        s
    } else {
        let mut s = String::from_str(digit_str(v / 100));
        s.append(digit_str((v / 10) % 10));
        s.append(digit_str(v % 10));
        proof {
            assert(s@ =~= u8_decimal(v as int));
        }
        s
    }
}

} // verus!
