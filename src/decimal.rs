use vstd::prelude::*;

use crate::result::Error;
use crate::{S2ProtoPack, S2ProtoUnpack};

verus! {

/// An arbitrary-precision decimal number; the wire carries it as text.
#[verifier::external_type_specification]
#[verifier::external_body]
pub struct ExBigDecimal(bigdecimal::BigDecimal);

/// Whether the decimal parser accepts a text.
pub uninterp spec fn is_decimal_text(s: Seq<char>) -> bool;

/// The decimal number that the parser reads from an accepted text.
pub uninterp spec fn decimal_of_text(s: Seq<char>) -> bigdecimal::BigDecimal;

/// The canonical text of a decimal number.
pub uninterp spec fn decimal_text_of(d: bigdecimal::BigDecimal) -> Seq<char>;

/// Relies on `bigdecimal::BigDecimal: FromStr`: the decimal number a text spells, or why it
/// spells none; both depend on the text alone.
#[verifier::external_body]
fn parse_decimal(s: &str) -> (r: Result<bigdecimal::BigDecimal, bigdecimal::ParseBigDecimalError>)
    ensures
        r is Ok <==> is_decimal_text(s@),
        r matches Ok(d) ==> d == decimal_of_text(s@),
{
    s.parse::<bigdecimal::BigDecimal>()
}

/// Relies on `bigdecimal::BigDecimal: Display`: the canonical text of a decimal number.
#[verifier::external_body]
fn decimal_to_text(d: &bigdecimal::BigDecimal) -> (r: String)
    ensures
        r@ == decimal_text_of(*d),
{
    d.to_string()
}

/// A decimal packs to its canonical text, which never fails.
impl S2ProtoPack<String> for bigdecimal::BigDecimal {
    open spec fn pack_spec(self, r: Result<String, Error>) -> bool {
        r matches Ok(t) && t@ == decimal_text_of(self)
    }

    fn pack(self) -> (r: Result<String, Error>) {
        Ok(decimal_to_text(&self))
    }
}

/// A text unpacks to the decimal it spells; one that spells none fails with
/// `ParseBigDecimal`.
impl S2ProtoUnpack<String> for bigdecimal::BigDecimal {
    open spec fn unpack_spec(value: String, r: Result<bigdecimal::BigDecimal, Error>) -> bool {
        match r {
            Ok(d) => is_decimal_text(value@) && d == decimal_of_text(value@),
            Err(e) => !is_decimal_text(value@) && e is ParseBigDecimal,
        }
    }

    fn unpack(value: String) -> (r: Result<bigdecimal::BigDecimal, Error>) {
        match parse_decimal(value.as_str()) {
            Ok(d) => Ok(d),
            Err(source) => Err(Error::ParseBigDecimal { source }),
        }
    }
}

/// A borrowed text unpacks as an owned one does.
impl<'a> S2ProtoUnpack<&'a str> for bigdecimal::BigDecimal {
    open spec fn unpack_spec(value: &'a str, r: Result<bigdecimal::BigDecimal, Error>) -> bool {
        match r {
            Ok(d) => is_decimal_text(value@) && d == decimal_of_text(value@),
            Err(e) => !is_decimal_text(value@) && e is ParseBigDecimal,
        }
    }

    fn unpack(value: &'a str) -> (r: Result<bigdecimal::BigDecimal, Error>) {
        match parse_decimal(value) {
            Ok(d) => Ok(d),
            Err(source) => Err(Error::ParseBigDecimal { source }),
        }
    }
}

} // verus!
