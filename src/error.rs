//! What can go wrong while decoding a message.

use vstd::prelude::*;
use vstd::string::StringExecFns;

verus! {

/// A malformed or hostile buffer, found while resolving a reference.
#[derive(Debug, Clone, Copy, PartialEq, Eq, Structural)]
pub enum Error {
    /// A text body is not valid UTF-8.
    Utf8(),
    /// An object would end at the first position, past the buffer's length
    /// (the second).
    InvalidPointer(usize, usize),
    /// A stored 48-bit value does not fit in a `usize`.
    Overflow(),
    /// A type tag was found (the first) where another (the second) was expected.
    BadMagic(u32, u32),
    /// A union's discriminant names no member that the reader knows.
    BadUnion(u16),
}

/// The decimal digit `d`.
pub open spec fn digit(d: nat) -> char {
    if d == 0 {
        '0'
    } else if d == 1 {
        '1'
    } else if d == 2 {
        '2'
    } else if d == 3 {
        '3'
    } else if d == 4 {
        '4'
    } else if d == 5 {
        '5'
    } else if d == 6 {
        '6'
    } else if d == 7 {
        '7'
    } else if d == 8 {
        '8'
    } else {
        '9'
    }
}

/// `v` written in decimal, without leading zeros.
pub open spec fn decimal(v: nat) -> Seq<char>
    decreases v,
{
    if v < 10 {
        seq![digit(v)]
    } else {
        decimal(v / 10) + seq![digit(v % 10)]
    }
}

/// The text that describes an error.
pub open spec fn error_text(e: Error) -> Seq<char> {
    let head = "Scalgo proto error: "@;
    match e {
        Error::Utf8() => head + "utf8"@,
        Error::InvalidPointer(o, s) => head + "Invalid pointer at "@ + decimal(o as nat)
            + " size is "@ + decimal(s as nat),
        Error::Overflow() => head + "Overflow"@,
        Error::BadMagic(got, expected) => head + "Bad magic got "@ + decimal(got as nat)
            + " expected "@ + decimal(expected as nat),
        Error::BadUnion(t) => head + "Bad union type "@ + decimal(t as nat),
    }
}

fn digit_text(d: u64) -> (r: &'static str)
    requires
        d < 10,
    ensures
        r@ == seq![digit(d as nat)],
{
    proof {
        reveal_strlit("0");
        reveal_strlit("1");
        reveal_strlit("2");
        reveal_strlit("3");
        reveal_strlit("4");
        reveal_strlit("5");
        reveal_strlit("6");
        reveal_strlit("7");
        reveal_strlit("8");
        reveal_strlit("9");
    }
    if d == 0 {
        "0"
    } else if d == 1 {
        "1"
    } else if d == 2 {
        "2"
    } else if d == 3 {
        "3"
    } else if d == 4 {
        "4"
    } else if d == 5 {
        "5"
    } else if d == 6 {
        "6"
    } else if d == 7 {
        "7"
    } else if d == 8 {
        "8"
    } else {
        "9"
    }
}

/// Appends `v` in decimal.
fn push_decimal(s: &mut String, v: u64)
    ensures
        final(s)@ == old(s)@ + decimal(v as nat),
    decreases v,
{
    if v >= 10 {
        push_decimal(s, v / 10);
        s.append(digit_text(v % 10));
        assert(final(s)@ =~= old(s)@ + decimal(v as nat));
    } else {
        s.append(digit_text(v));
    }
}

impl Error {
    /// A description of the error, for people.
    pub fn to_string(&self) -> (r: String)
        ensures
            r@ == error_text(*self),
    {
        let mut s = String::from_str("Scalgo proto error: ");
        match self {
            Error::Utf8() => s.append("utf8"),
            Error::InvalidPointer(o, z) => {
                s.append("Invalid pointer at ");
                push_decimal(&mut s, *o as u64);
                s.append(" size is ");
                push_decimal(&mut s, *z as u64);
            },
            Error::Overflow() => s.append("Overflow"),
            Error::BadMagic(got, expected) => {
                s.append("Bad magic got ");
                push_decimal(&mut s, *got as u64);
                s.append(" expected ");
                push_decimal(&mut s, *expected as u64);
            },
            Error::BadUnion(t) => {
                s.append("Bad union type ");
                push_decimal(&mut s, *t as u64);
            },
        }
        s
    }
}

} // verus!
