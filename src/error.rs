use vstd::prelude::*;

verus! {

/// Error type for date and time operations.
#[non_exhaustive]
#[derive(Copy, Clone, Debug, PartialEq, Eq, Structural)]
pub enum Error {
    /// One or more of the arguments to a function are invalid.
    InvalidParameter,
    /// The result, or an intermediate value, would be out of range.
    DateOutOfRange,
    /// A date or datetime does not exist, such as a time in a DST gap.
    InvalidDate,
    /// Some of the date or time components are not consistent with each other,
    /// or an ambiguous local time was collapsed to a single answer.
    Inconsistent,
    /// Character does not match with the expected format, at the given byte index.
    InvalidCharacter(u32),
    /// Value is not allowed by the format, at the given byte index.
    InvalidValue(u32),
    /// The format string holds an unsupported specifier, at the given byte index.
    UnsupportedSpecifier(u32),
    /// Given field is out of permitted range.
    FieldOutOfRange,
    /// There is no possible date and time value with given set of fields.
    FieldImpossible,
    /// Given set of fields is not enough to make a requested date and time value.
    FieldNotEnough,
    /// The input string has some invalid character sequence.
    InvalidInput,
    /// The input string has been prematurely ended.
    InputTooShort,
    /// All formatting items have been read but there is a remaining input.
    InputTooLong,
    /// There was an error on the formatting string.
    BadFormat,
    /// The binary time-zone database or a recurring rule is malformed.
    InvalidTzData,
}

impl Error {
    /// Whether the error names a byte position of its input.
    pub open spec fn has_position(self) -> bool {
        self is InvalidCharacter || self is InvalidValue || self is UnsupportedSpecifier
    }

    /// The byte position that the error names, if any.
    pub fn position(&self) -> (r: Option<u32>)
        ensures
            r is Some <==> self.has_position(),
            *self matches Error::InvalidCharacter(i) ==> r == Some(i),
            *self matches Error::InvalidValue(i) ==> r == Some(i),
            *self matches Error::UnsupportedSpecifier(i) ==> r == Some(i),
    {
        match self {
            Error::InvalidCharacter(i) => Some(*i),
            Error::InvalidValue(i) => Some(*i),
            Error::UnsupportedSpecifier(i) => Some(*i),
            _ => None,
        }
    }

    /// The message of each kind of error.
    pub open spec fn message_spec(self) -> Seq<char> {
        match self {
            Error::InvalidParameter => "invalid parameter"@,
            Error::DateOutOfRange => "date outside of the supported range"@,
            Error::InvalidDate => "date or datetime does not exist"@,
            Error::Inconsistent => "some of the date or time components are not consistent with each other"@,
            Error::InvalidCharacter(_) => "input doesn't match with the expected format"@,
            Error::InvalidValue(_) => "input has a value not allowed by the format"@,
            Error::UnsupportedSpecifier(_) => "format string contains a formatting specifier that is not supported"@,
            Error::FieldOutOfRange => "input is out of range"@,
            Error::FieldImpossible => "no possible date and time matching input"@,
            Error::FieldNotEnough => "input is not enough for unique date and time"@,
            Error::InvalidInput => "input contains invalid characters"@,
            Error::InputTooShort => "premature end of input"@,
            Error::InputTooLong => "trailing input"@,
            Error::BadFormat => "bad or unsupported format string"@,
            Error::InvalidTzData => "malformed time zone data"@,
        }
    }

    /// A short description of the error, in words; the byte position of the
    /// errors that name one is given by `position`.
    pub fn message(&self) -> (r: &'static str)
        ensures
            r@ == self.message_spec(),
            *self == Error::InvalidParameter ==> r@ == "invalid parameter"@,
            *self == Error::DateOutOfRange ==> r@ == "date outside of the supported range"@,
            *self == Error::InvalidDate ==> r@ == "date or datetime does not exist"@,
            *self == Error::Inconsistent ==> r@ == "some of the date or time components are not consistent with each other"@,
            self is InvalidCharacter ==> r@ == "input doesn't match with the expected format"@,
            self is InvalidValue ==> r@ == "input has a value not allowed by the format"@,
            self is UnsupportedSpecifier ==> r@ == "format string contains a formatting specifier that is not supported"@,
            *self == Error::FieldOutOfRange ==> r@ == "input is out of range"@,
            *self == Error::FieldImpossible ==> r@ == "no possible date and time matching input"@,
            *self == Error::FieldNotEnough ==> r@ == "input is not enough for unique date and time"@,
            *self == Error::InvalidInput ==> r@ == "input contains invalid characters"@,
            *self == Error::InputTooShort ==> r@ == "premature end of input"@,
            *self == Error::InputTooLong ==> r@ == "trailing input"@,
            *self == Error::BadFormat ==> r@ == "bad or unsupported format string"@,
            *self == Error::InvalidTzData ==> r@ == "malformed time zone data"@,
    {
        let m = match self {
            Error::InvalidParameter => "invalid parameter",
            Error::DateOutOfRange => "date outside of the supported range",
            Error::InvalidDate => "date or datetime does not exist",
            Error::Inconsistent => "some of the date or time components are not consistent with each other",
            Error::InvalidCharacter(_) => "input doesn't match with the expected format",
            Error::InvalidValue(_) => "input has a value not allowed by the format",
            Error::UnsupportedSpecifier(_) => "format string contains a formatting specifier that is not supported",
            Error::FieldOutOfRange => "input is out of range",
            Error::FieldImpossible => "no possible date and time matching input",
            Error::FieldNotEnough => "input is not enough for unique date and time",
            Error::InvalidInput => "input contains invalid characters",
            Error::InputTooShort => "premature end of input",
            Error::InputTooLong => "trailing input",
            Error::BadFormat => "bad or unsupported format string",
            Error::InvalidTzData => "malformed time zone data",
        };
        proof {
            reveal_strlit("invalid parameter");
            reveal_strlit("date outside of the supported range");
            reveal_strlit("date or datetime does not exist");
            reveal_strlit("some of the date or time components are not consistent with each other");
            reveal_strlit("input doesn't match with the expected format");
            reveal_strlit("input has a value not allowed by the format");
            reveal_strlit("format string contains a formatting specifier that is not supported");
            reveal_strlit("input is out of range");
            reveal_strlit("no possible date and time matching input");
            reveal_strlit("input is not enough for unique date and time");
            reveal_strlit("input contains invalid characters");
            reveal_strlit("premature end of input");
            reveal_strlit("trailing input");
            reveal_strlit("bad or unsupported format string");
            reveal_strlit("malformed time zone data");
        }
        m
    }
}

/// The character of decimal digit `d`.
pub open spec fn digit_char(d: int) -> char {
    if d == 0 {
        '0'
    } else if d == 1 {
        '1'
    } else if d == 2 {
        '2'
    } else if d == 3 {
        '3'
    } else if d == 4 {
        '4'
    } else if d == 5 {
        '5'
    } else if d == 6 {
        '6'
    } else if d == 7 {
        '7'
    } else if d == 8 {
        '8'
    } else {
        '9'
    }
}

/// The decimal digits of `n`, without leading zeros.
pub open spec fn decimal(n: nat) -> Seq<char>
    decreases n,
{
    if n < 10 {
        seq![digit_char(n as int)]
    } else {
        decimal(n / 10) + seq![digit_char((n % 10) as int)]
    }
}

fn digit_str(d: u32) -> (r: &'static str)
    requires
        d < 10,
    ensures
        r@ == seq![digit_char(d as int)],
{
    proof {
        reveal_strlit("0");
        reveal_strlit("1");
        reveal_strlit("2");
        reveal_strlit("3");
        reveal_strlit("4");
        reveal_strlit("5");
        reveal_strlit("6");
        reveal_strlit("7");
        reveal_strlit("8");
        reveal_strlit("9");
    }
    if d == 0 {
        "0"
    } else if d == 1 {
        "1"
    } else if d == 2 {
        "2"
    } else if d == 3 {
        "3"
    } else if d == 4 {
        "4"
    } else if d == 5 {
        "5"
    } else if d == 6 {
        "6"
    } else if d == 7 {
        "7"
    } else if d == 8 {
        "8"
    } else {
        "9"
    }
}

/// Appends the decimal digits of `n` to `s`.
fn append_decimal(s: &mut String, n: u32)
    ensures
        final(s)@ == old(s)@ + decimal(n as nat),
    decreases n,
{
    if n >= 10 {
        append_decimal(s, n / 10);
    }
    s.append(digit_str(n % 10));
    proof {
        if n >= 10 {
            assert(final(s)@ =~= old(s)@ + decimal(n as nat));
        } else {
            assert(final(s)@ =~= old(s)@ + decimal(n as nat));
        }
    }
}

impl Error {
    /// The full description of the error: its message, followed for
    /// `InvalidCharacter` and `InvalidValue` by ` at position ` and the
    /// position in decimal.
    pub open spec fn describe_spec(self) -> Seq<char> {
        match self {
            Error::InvalidCharacter(i) => "input doesn't match with the expected format at position "@
                + decimal(i as nat),
            Error::InvalidValue(i) => "input has a value not allowed by the format at position "@
                + decimal(i as nat),
            _ => self.message_spec(),
        }
    }

    pub fn describe(&self) -> (r: String)
        ensures
            r@ == self.describe_spec(),
    {
        match self {
            Error::InvalidCharacter(i) => {
                let mut s = String::from_str("input doesn't match with the expected format at position ");
                append_decimal(&mut s, *i);
                s
            },
            Error::InvalidValue(i) => {
                let mut s = String::from_str("input has a value not allowed by the format at position ");
                append_decimal(&mut s, *i);
                s
            },
            _ => String::from_str(self.message()),
        }
    }
}

} // verus!
