use vstd::prelude::*;
use vstd::string::*;

verus! {

/// The error from parsing a decimal number.
#[verifier::external_type_specification]
#[verifier::external_body]
pub struct ExParseBigDecimalError(bigdecimal::ParseBigDecimalError);

/// Why a conversion between a domain value and its wire form failed.
#[derive(Debug)]
pub enum Error {
    /// The JSON codec rejected a value or a byte sequence, for the reason given.
    Json { message: String },
    /// An opaque payload carries a type tag other than the JSON one.
    JsonTypeUrlUnknown { type_url: String },
    /// A required value is absent on the wire.
    ValueNotPresent,
    /// A required field is absent on the wire.
    FieldValueNotPresent { field_name: &'static str },
    /// A structured value nests deeper than the bridge allows.
    JsonValueNestedTooDeeply,
    /// The element at `index` of a list failed to convert.
    ListElement { source: Box<Error>, index: usize },
    /// An entry of a map failed to convert.
    MapEntry { source: Box<Error> },
    /// A text is not a decimal number.
    ParseBigDecimal { source: bigdecimal::ParseBigDecimalError },
    /// An integer is not a declared discriminant of the named enum.
    EnumDiscriminantNotFound { enum_name: &'static str, discriminant: i32 },
    /// A duration cannot be represented on the other side.
    ParseDuration { message: String },
    /// A timestamp lies outside the range of the calendar.
    TimestampOutOfRange { seconds: i64, nanos: i32 },
}

/// The parser's account of why a text is not a decimal number.
pub uninterp spec fn decimal_error_text_of(e: bigdecimal::ParseBigDecimalError) -> Seq<char>;

/// Relies on `bigdecimal::ParseBigDecimalError: Display`: the parser's account of a failure.
#[verifier::external_body]
fn decimal_error_text(e: &bigdecimal::ParseBigDecimalError) -> (r: String)
    ensures
        r@ == decimal_error_text_of(*e),
{
    e.to_string()
}

/// The character of a decimal digit.
pub open spec fn digit_char(d: nat) -> char {
    if d == 0 {
        '0'
    } else if d == 1 {
        '1'
    } else if d == 2 {
        '2'
    } else if d == 3 {
        '3'
    } else if d == 4 {
        '4'
    } else if d == 5 {
        '5'
    } else if d == 6 {
        '6'
    } else if d == 7 {
        '7'
    } else if d == 8 {
        '8'
    } else {
        '9'
    }
}

/// The decimal digits of `n`, most significant first.
pub open spec fn digits_of(n: nat) -> Seq<char>
    decreases n,
{
    if n < 10 {
        seq![digit_char(n)]
    } else {
        digits_of(n / 10) + seq![digit_char(n % 10)]
    }
}

/// The decimal text of `i`, with a leading minus sign when it is negative.
pub open spec fn integer_text(i: int) -> Seq<char> {
    if i < 0 {
        seq!['-'] + digits_of((-i) as nat)
    } else {
        digits_of(i as nat)
    }
}

/// The text of one decimal digit.
fn digit_text(d: u64) -> (r: String)
    requires
        d < 10,
    ensures
        r@ == seq![digit_char(d as nat)],
{
    proof {
        reveal_strlit("0");
        reveal_strlit("1");
        reveal_strlit("2");
        reveal_strlit("3");
        reveal_strlit("4");
        reveal_strlit("5");
        reveal_strlit("6");
        reveal_strlit("7");
        reveal_strlit("8");
        reveal_strlit("9");
    }
    let r = if d == 0 {
        String::from_str("0")
    } else if d == 1 {
        String::from_str("1")
    } else if d == 2 {
        String::from_str("2")
    } else if d == 3 {
        String::from_str("3")
    } else if d == 4 {
        String::from_str("4")
    } else if d == 5 {
        String::from_str("5")
    } else if d == 6 {
        String::from_str("6")
    } else if d == 7 {
        String::from_str("7")
    } else if d == 8 {
        String::from_str("8")
    } else {
        String::from_str("9")
    };
    assert(r@ =~= seq![digit_char(d as nat)]);
    r
}

/// The decimal digits of `n`.
fn digits_text(n: u64) -> (r: String)
    ensures
        r@ == digits_of(n as nat),
    decreases n,
{
    if n < 10 {
        digit_text(n)
    } else {
        let tail = digit_text(n % 10);
        digits_text(n / 10).concat(tail.as_str())
    }
}

/// The decimal text of `i`.
fn integer_text_of(i: i64) -> (r: String)
    ensures
        r@ == integer_text(i as int),
{
    if i < 0 {
        let magnitude = (0 - (i as i128)) as u64;
        let digits = digits_text(magnitude);
        proof {
            reveal_strlit("-");
            assert("-"@ =~= seq!['-']);
        }
        String::from_str("-").concat(digits.as_str())
    } else {
        digits_text(i as u64)
    }
}

/// The human-readable account of an error; a wrapped error's account follows its context.
pub open spec fn error_text(e: Error) -> Seq<char>
    decreases e,
{
    match e {
        Error::Json { message } => "JSON error: "@ + message@,
        Error::JsonTypeUrlUnknown { type_url } => "Could not convert json value from type_url: "@
            + type_url@,
        Error::ValueNotPresent => "Could not unpack a non-optional value from null"@,
        Error::FieldValueNotPresent { field_name } => "Could not unpack field '"@ + field_name@
            + "' from null"@,
        Error::JsonValueNestedTooDeeply => "JSON value nested too deeply"@,
        Error::ListElement { source, index } => "List element "@ + integer_text(index as int)
            + ": "@ + error_text(*source),
        Error::MapEntry { source } => "Map entry: "@ + error_text(*source),
        Error::ParseBigDecimal { source } => "Parse decimal error: "@ + decimal_error_text_of(
            source,
        ),
        Error::EnumDiscriminantNotFound { enum_name, discriminant } =>
            "Enum discriminant is not found: enum type = "@ + enum_name@ + ", discriminant = "@
            + integer_text(discriminant as int),
        Error::ParseDuration { message } => "Could not convert duration: "@ + message@,
        Error::TimestampOutOfRange { seconds, nanos } => "Timestamp out of range: seconds = "@
            + integer_text(seconds as int) + ", nanos = "@ + integer_text(nanos as int),
    }
}

impl Error {
    /// A human-readable account of the error; a wrapped error's account follows its
    /// context.
    pub fn message(&self) -> (r: String)
        ensures
            r@ == error_text(*self),
        decreases self,
    {
        match self {
            Error::Json { message } => String::from_str("JSON error: ").concat(message.as_str()),
            Error::JsonTypeUrlUnknown { type_url } => String::from_str(
                "Could not convert json value from type_url: ",
            ).concat(type_url.as_str()),
            Error::ValueNotPresent => String::from_str("Could not unpack a non-optional value from null"),
            Error::FieldValueNotPresent { field_name } => String::from_str(
                "Could not unpack field '",
            ).concat(field_name).concat("' from null"),
            Error::JsonValueNestedTooDeeply => String::from_str("JSON value nested too deeply"),
            Error::ListElement { source, index } => {
                let inner = source.message();
                let number = digits_text(*index as u64);
                String::from_str("List element ").concat(number.as_str()).concat(": ").concat(
                    inner.as_str(),
                )
            },
            Error::MapEntry { source } => {
                let inner = source.message();
                String::from_str("Map entry: ").concat(inner.as_str())
            },
            Error::ParseBigDecimal { source } => {
                let inner = decimal_error_text(source);
                String::from_str("Parse decimal error: ").concat(inner.as_str())
            },
            Error::EnumDiscriminantNotFound { enum_name, discriminant } => {
                let number = integer_text_of(*discriminant as i64);
                String::from_str("Enum discriminant is not found: enum type = ").concat(
                    enum_name,
                ).concat(", discriminant = ").concat(number.as_str())
            },
            Error::ParseDuration { message } => String::from_str("Could not convert duration: ").concat(
                message.as_str(),
            ),
            Error::TimestampOutOfRange { seconds, nanos } => {
                let s = integer_text_of(*seconds);
                let n = integer_text_of(*nanos as i64);
                String::from_str("Timestamp out of range: seconds = ").concat(s.as_str()).concat(
                    ", nanos = ",
                ).concat(n.as_str())
            },
        }
    }
}

} // verus!
