use vstd::prelude::*;

use crate::convert::{pack_present, unpack_present};
use crate::result::Error;
use crate::{S2ProtoPack, S2ProtoUnpack};

verus! {

/// How deep the structured-value bridge descends before it gives up.
pub const MAX_JSON_NEST: usize = 100;

/// A JSON number, as the host's dynamic value holds it.
#[derive(Debug, Clone, Copy, PartialEq, Eq, Structural)]
pub enum JsonNumber {
    /// A non-negative integer.
    PosInt(u64),
    /// A negative integer.
    NegInt(i64),
    /// A finite floating-point number, given by its IEEE-754 bits.
    Float(u64),
}

/// The host's dynamic JSON value.
///
/// An object is a list of entries, in order; in a well-formed value the keys of each object
/// are distinct (`json_keys_distinct`), and the bridge keeps them so.
#[derive(Debug, PartialEq)]
pub enum JsonValue {
    Null,
    Bool(bool),
    Number(JsonNumber),
    String(String),
    Array(Vec<JsonValue>),
    Object(Vec<(String, JsonValue)>),
}

/// The kind of a wire value.
///
/// A number is given by the IEEE-754 bits of a double.
/// A struct is a list of fields, in order; in a well-formed value the names of each struct
/// are distinct (`value_keys_distinct`), and the bridge keeps them so.
#[derive(Debug, PartialEq)]
pub enum Kind {
    NullValue(i32),
    NumberValue(u64),
    StringValue(String),
    BoolValue(bool),
    StructValue(Vec<(String, Value)>),
    ListValue(Vec<Value>),
}

/// The wire's self-describing value; an absent kind reads as null.
#[derive(Debug, PartialEq)]
pub struct Value {
    pub kind: Option<Kind>,
}

/// Whether the bits of a double stand for a finite number (the exponent is not all ones).
pub open spec fn is_finite_bits(bits: u64) -> bool {
    (bits >> 52u64) & 0x7ffu64 != 0x7ffu64
}

/// The double nearest to an integer, given by its bits, as the JSON codec computes it.
pub uninterp spec fn integer_f64_bits(i: int) -> Option<u64>;

/// The number as a double, given by its bits.
pub open spec fn number_f64_bits(n: JsonNumber) -> Option<u64> {
    match n {
        JsonNumber::PosInt(u) => integer_f64_bits(u as int),
        JsonNumber::NegInt(i) => integer_f64_bits(i as int),
        JsonNumber::Float(bits) => Some(bits),
    }
}

/// Whether `j` nests within `budget` levels: the value itself takes one.
pub open spec fn json_fits(j: JsonValue, budget: int) -> bool
    decreases j,
{
    &&& budget > 0
    &&& match j {
        JsonValue::Array(items) => forall|i: int|
            0 <= i < items@.len() ==> json_fits(#[trigger] items@[i], budget - 1),
        JsonValue::Object(fields) => forall|i: int|
            0 <= i < fields@.len() ==> json_fits((#[trigger] fields@[i]).1, budget - 1),
        _ => true,
    }
}

/// Whether `w` nests within `budget` levels: the value itself takes one.
pub open spec fn value_fits(w: Value, budget: int) -> bool
    decreases w,
{
    &&& budget > 0
    &&& match w.kind {
        Some(Kind::ListValue(values)) => forall|i: int|
            0 <= i < values@.len() ==> value_fits(#[trigger] values@[i], budget - 1),
        Some(Kind::StructValue(fields)) => forall|i: int|
            0 <= i < fields@.len() ==> value_fits((#[trigger] fields@[i]).1, budget - 1),
        _ => true,
    }
}

/// Whether `w` is the wire form of `j`: entries and elements keep their order.
pub open spec fn packs_json(j: JsonValue, w: Value) -> bool
    decreases j,
{
    match j {
        JsonValue::Null => w.kind == Some(Kind::NullValue(0)),
        JsonValue::Bool(b) => w.kind == Some(Kind::BoolValue(b)),
        JsonValue::Number(n) => number_f64_bits(n) matches Some(bits) && w.kind == Some(
            Kind::NumberValue(bits),
        ),
        JsonValue::String(s) => w.kind matches Some(Kind::StringValue(t)) && t@ == s@,
        JsonValue::Array(items) => {
            &&& w.kind matches Some(Kind::ListValue(values))
            &&& values@.len() == items@.len()
            &&& forall|i: int|
                0 <= i < items@.len() ==> packs_json(#[trigger] items@[i], values@[i])
        },
        JsonValue::Object(entries) => {
            &&& w.kind matches Some(Kind::StructValue(fields))
            &&& fields@.len() == entries@.len()
            &&& forall|i: int|
                0 <= i < entries@.len() ==> fields@[i].0@ == (#[trigger] entries@[i]).0@
                    && packs_json(entries@[i].1, fields@[i].1)
        },
    }
}

/// Whether `j` is the JSON form of `w`: an absent kind and a non-finite number read as null.
pub open spec fn unpacks_value(w: Value, j: JsonValue) -> bool
    decreases w,
{
    match w.kind {
        None => j is Null,
        Some(Kind::NullValue(_)) => j is Null,
        Some(Kind::NumberValue(bits)) => if is_finite_bits(bits) {
            j == JsonValue::Number(JsonNumber::Float(bits))
        } else {
            j is Null
        },
        Some(Kind::StringValue(s)) => j matches JsonValue::String(t) && t@ == s@,
        Some(Kind::BoolValue(b)) => j == JsonValue::Bool(b),
        Some(Kind::ListValue(values)) => {
            &&& j matches JsonValue::Array(items)
            &&& items@.len() == values@.len()
            &&& forall|i: int|
                0 <= i < values@.len() ==> unpacks_value(#[trigger] values@[i], items@[i])
        },
        Some(Kind::StructValue(fields)) => {
            &&& j matches JsonValue::Object(entries)
            &&& entries@.len() == fields@.len()
            &&& forall|i: int|
                0 <= i < fields@.len() ==> entries@[i].0@ == (#[trigger] fields@[i]).0@
                    && unpacks_value(fields@[i].1, entries@[i].1)
        },
    }
}

/// Whether `j` is `n` arrays, each holding only the next, around a value that is no
/// container.
pub open spec fn json_array_chain(j: JsonValue, n: nat) -> bool
    decreases n,
{
    if n == 0 {
        !(j is Array) && !(j is Object)
    } else {
        j matches JsonValue::Array(items) && items@.len() == 1 && json_array_chain(
            items@[0],
            (n - 1) as nat,
        )
    }
}

/// Whether `w` is `n` lists, each holding only the next, around a value that is no
/// container.
pub open spec fn value_list_chain(w: Value, n: nat) -> bool
    decreases n,
{
    if n == 0 {
        !(w.kind matches Some(Kind::ListValue(_))) && !(w.kind matches Some(Kind::StructValue(_)))
    } else {
        w.kind matches Some(Kind::ListValue(values)) && values@.len() == 1 && value_list_chain(
            values@[0],
            (n - 1) as nat,
        )
    }
}

/// `n` nested arrays fit in `budget` levels exactly when `n` is under it: with the limit of
/// `MAX_JSON_NEST`, 99 nested arrays convert and 100 fail.
pub proof fn lemma_array_chain_fits(j: JsonValue, n: nat, budget: int)
    requires
        json_array_chain(j, n),
    ensures
        json_fits(j, budget) <==> n < budget,
    decreases n,
{
    if n > 0 {
        let items = j->Array_0;
        lemma_array_chain_fits(items@[0], (n - 1) as nat, budget - 1);
        if n < budget {
            assert forall|i: int| 0 <= i < items@.len() implies json_fits(#[trigger] items@[i], budget - 1) by {
                assert(i == 0);
            }
        }
    }
}

/// `n` nested lists fit in `budget` levels exactly when `n` is under it: with the limit of
/// `MAX_JSON_NEST`, 99 nested lists convert and 100 fail.
pub proof fn lemma_list_chain_fits(w: Value, n: nat, budget: int)
    requires
        value_list_chain(w, n),
    ensures
        value_fits(w, budget) <==> n < budget,
    decreases n,
{
    if n > 0 {
        let values = w.kind->0->ListValue_0;
        lemma_list_chain_fits(values@[0], (n - 1) as nat, budget - 1);
        if n < budget {
            assert forall|i: int| 0 <= i < values@.len() implies value_fits(#[trigger] values@[i], budget - 1) by {
                assert(i == 0);
            }
        }
    }
}

/// Whether two JSON values are the same: equal scalars, texts with equal characters, and
/// equal elements and entries in the same order.
pub open spec fn json_same(a: JsonValue, b: JsonValue) -> bool
    decreases a,
{
    match a {
        JsonValue::String(s) => b matches JsonValue::String(t) && t@ == s@,
        JsonValue::Array(xs) => {
            &&& b matches JsonValue::Array(ys)
            &&& ys@.len() == xs@.len()
            &&& forall|i: int| 0 <= i < xs@.len() ==> json_same(#[trigger] xs@[i], ys@[i])
        },
        JsonValue::Object(xs) => {
            &&& b matches JsonValue::Object(ys)
            &&& ys@.len() == xs@.len()
            &&& forall|i: int|
                0 <= i < xs@.len() ==> ys@[i].0@ == (#[trigger] xs@[i]).0@ && json_same(xs@[i].1, ys@[i].1)
        },
        _ => b == a,
    }
}

/// Whether every number in `j` is a finite floating-point number.
pub open spec fn finite_floats_only(j: JsonValue) -> bool
    decreases j,
{
    match j {
        JsonValue::Number(n) => n matches JsonNumber::Float(bits) && is_finite_bits(bits),
        JsonValue::Array(xs) => forall|i: int| 0 <= i < xs@.len() ==> finite_floats_only(#[trigger] xs@[i]),
        JsonValue::Object(xs) => forall|i: int| 0 <= i < xs@.len() ==> finite_floats_only((#[trigger] xs@[i]).1),
        _ => true,
    }
}

/// The wire form of a JSON value nests no deeper than the value.
pub proof fn lemma_packed_fits(j: JsonValue, w: Value, budget: int)
    requires
        packs_json(j, w),
        json_fits(j, budget),
    ensures
        value_fits(w, budget),
    decreases j,
{
    match j {
        JsonValue::Array(items) => {
            let values = w.kind->0->ListValue_0;
            assert forall|i: int| 0 <= i < values@.len() implies value_fits(#[trigger] values@[i], budget - 1) by {
                lemma_packed_fits(items@[i], values@[i], budget - 1);
            }
        },
        JsonValue::Object(entries) => {
            let fields = w.kind->0->StructValue_0;
            assert forall|i: int| 0 <= i < fields@.len() implies value_fits((#[trigger] fields@[i]).1, budget - 1) by {
                lemma_packed_fits(entries@[i].1, fields@[i].1, budget - 1);
            }
        },
        _ => {},
    }
}

proof fn lemma_unpack_packed(j: JsonValue, w: Value, back: JsonValue)
    requires
        packs_json(j, w),
        unpacks_value(w, back),
        finite_floats_only(j),
    ensures
        json_same(j, back),
    decreases j,
{
    match j {
        JsonValue::Array(items) => {
            let values = w.kind->0->ListValue_0;
            let ys = back->Array_0;
            assert forall|i: int| 0 <= i < items@.len() implies json_same(#[trigger] items@[i], ys@[i]) by {
                lemma_unpack_packed(items@[i], values@[i], ys@[i]);
            }
        },
        JsonValue::Object(entries) => {
            let fields = w.kind->0->StructValue_0;
            let ys = back->Object_0;
            assert forall|i: int| 0 <= i < entries@.len() implies
                ys@[i].0@ == (#[trigger] entries@[i]).0@ && json_same(entries@[i].1, ys@[i].1) by {
                lemma_unpack_packed(entries@[i].1, fields@[i].1, ys@[i].1);
            }
        },
        _ => {},
    }
}

/// A JSON value that nests at most `MAX_JSON_NEST` levels and holds only finite
/// floating-point numbers packs, and its wire form unpacks to the same value.
pub proof fn lemma_json_round_trip(j: JsonValue)
    requires
        json_fits(j, MAX_JSON_NEST as int),
        finite_floats_only(j),
    ensures
        forall|w: Value| #[trigger] packs_json(j, w) ==> value_fits(w, MAX_JSON_NEST as int),
        forall|w: Value, back: JsonValue|
            #[trigger] packs_json(j, w) && #[trigger] unpacks_value(w, back) ==> json_same(j, back),
{
    assert forall|w: Value| #[trigger] packs_json(j, w) implies value_fits(w, MAX_JSON_NEST as int) by {
        lemma_packed_fits(j, w, MAX_JSON_NEST as int);
    }
    assert forall|w: Value, back: JsonValue|
        #[trigger] packs_json(j, w) && #[trigger] unpacks_value(w, back) implies json_same(j, back) by {
        lemma_unpack_packed(j, w, back);
    }
}

/// Whether no two entries share a key.
pub open spec fn distinct_keys<T>(entries: Seq<(String, T)>) -> bool {
    forall|a: int, b: int|
        0 <= a < entries.len() && 0 <= b < entries.len() && a != b
            ==> (#[trigger] entries[a]).0@ != (#[trigger] entries[b]).0@
}

/// Whether every object in `j`, at any depth, has distinct keys.
pub open spec fn json_keys_distinct(j: JsonValue) -> bool
    decreases j,
{
    match j {
        JsonValue::Array(items) => forall|i: int|
            0 <= i < items@.len() ==> json_keys_distinct(#[trigger] items@[i]),
        JsonValue::Object(entries) => distinct_keys(entries@) && forall|i: int|
            0 <= i < entries@.len() ==> json_keys_distinct((#[trigger] entries@[i]).1),
        _ => true,
    }
}

/// Whether every struct in `w`, at any depth, has distinct field names.
pub open spec fn value_keys_distinct(w: Value) -> bool
    decreases w,
{
    match w.kind {
        Some(Kind::ListValue(values)) => forall|i: int|
            0 <= i < values@.len() ==> value_keys_distinct(#[trigger] values@[i]),
        Some(Kind::StructValue(fields)) => distinct_keys(fields@) && forall|i: int|
            0 <= i < fields@.len() ==> value_keys_distinct((#[trigger] fields@[i]).1),
        _ => true,
    }
}

/// Packing keeps the keys of every object distinct.
pub proof fn lemma_pack_keeps_keys_distinct(j: JsonValue, w: Value)
    requires
        packs_json(j, w),
        json_keys_distinct(j),
    ensures
        value_keys_distinct(w),
    decreases j,
{
    match j {
        JsonValue::Array(items) => {
            let values = w.kind->0->ListValue_0;
            assert forall|i: int| 0 <= i < values@.len() implies value_keys_distinct(#[trigger] values@[i]) by {
                lemma_pack_keeps_keys_distinct(items@[i], values@[i]);
            }
        },
        JsonValue::Object(entries) => {
            let fields = w.kind->0->StructValue_0;
            assert forall|a: int, b: int|
                0 <= a < fields@.len() && 0 <= b < fields@.len() && a != b
                    implies (#[trigger] fields@[a]).0@ != (#[trigger] fields@[b]).0@ by {
                assert(fields@[a].0@ == entries@[a].0@);
                assert(fields@[b].0@ == entries@[b].0@);
            }
            assert forall|i: int| 0 <= i < fields@.len() implies value_keys_distinct((#[trigger] fields@[i]).1) by {
                lemma_pack_keeps_keys_distinct(entries@[i].1, fields@[i].1);
            }
        },
        _ => {},
    }
}

/// Unpacking keeps the names of every struct distinct.
pub proof fn lemma_unpack_keeps_keys_distinct(w: Value, j: JsonValue)
    requires
        unpacks_value(w, j),
        value_keys_distinct(w),
    ensures
        json_keys_distinct(j),
    decreases w,
{
    match w.kind {
        Some(Kind::ListValue(values)) => {
            let items = j->Array_0;
            assert forall|i: int| 0 <= i < items@.len() implies json_keys_distinct(#[trigger] items@[i]) by {
                lemma_unpack_keeps_keys_distinct(values@[i], items@[i]);
            }
        },
        Some(Kind::StructValue(fields)) => {
            let entries = j->Object_0;
            assert forall|a: int, b: int|
                0 <= a < entries@.len() && 0 <= b < entries@.len() && a != b
                    implies (#[trigger] entries@[a]).0@ != (#[trigger] entries@[b]).0@ by {
                assert(fields@[a].0@ == entries@[a].0@);
                assert(fields@[b].0@ == entries@[b].0@);
            }
            assert forall|i: int| 0 <= i < entries@.len() implies json_keys_distinct((#[trigger] entries@[i]).1) by {
                lemma_unpack_keeps_keys_distinct(fields@[i].1, entries@[i].1);
            }
        },
        _ => {},
    }
}

/// Relies on serde_json::Number::from_i128 and Number::as_f64: the double nearest to an
/// integer, by its bits.
#[verifier::external_body]
fn integer_as_f64_bits(i: i128) -> (r: Option<u64>)
    ensures
        r == integer_f64_bits(i as int),
        r is Some <== i >= i64::MIN && u64::MAX >= i,
{
    match serde_json::Number::from_i128(i) {
        Some(n) => n.as_f64().map(|f| f.to_bits()),
        None => None,
    }
}

/// The number as a double, by its bits.
fn number_as_f64_bits(n: JsonNumber) -> (r: Option<u64>)
    ensures
        r == number_f64_bits(n),
        r is Some,
{
    match n {
        JsonNumber::PosInt(u) => integer_as_f64_bits(u as i128),
        JsonNumber::NegInt(i) => integer_as_f64_bits(i as i128),
        JsonNumber::Float(bits) => Some(bits),
    }
}

/// Whether the bits of a double stand for a finite number.
fn finite_bits(bits: u64) -> (r: bool)
    ensures
        r == is_finite_bits(bits),
{
    (bits >> 52u64) & 0x7ffu64 != 0x7ffu64
}

/// Converts a wire value that stands `nest` levels deep into a JSON value.
fn value_to_json_at(nest: usize, value: Value) -> (r: Result<JsonValue, Error>)
    requires
        nest <= MAX_JSON_NEST,
    ensures
        match r {
            Ok(j) => value_fits(value, MAX_JSON_NEST - nest) && unpacks_value(value, j),
            Err(e) => !value_fits(value, MAX_JSON_NEST - nest) && e is JsonValueNestedTooDeeply,
        },
    decreases MAX_JSON_NEST - nest,
{
    if nest >= MAX_JSON_NEST {
        return Err(Error::JsonValueNestedTooDeeply);
    }
    let ghost budget = MAX_JSON_NEST - nest;
    let ghost whole = value;
    let converted = match value.kind {
        None => JsonValue::Null,
        Some(Kind::NullValue(_)) => JsonValue::Null,
        Some(Kind::NumberValue(bits)) => if finite_bits(bits) {
            JsonValue::Number(JsonNumber::Float(bits))
        } else {
            JsonValue::Null
        },
        Some(Kind::StringValue(s)) => JsonValue::String(s),
        Some(Kind::BoolValue(b)) => JsonValue::Bool(b),
        Some(Kind::ListValue(values)) => {
            let ghost src = values@;
            let mut items: Vec<JsonValue> = Vec::with_capacity(values.len());
            for item in it: values.into_iter()
                invariant
                    nest < MAX_JSON_NEST,
                    whole == value,
                    budget == MAX_JSON_NEST - nest,
                    whole.kind matches Some(Kind::ListValue(xs)) && xs@ == src,
                    it.seq() == src,
                    items@.len() == it.index(),
                    forall|k: int|
                        0 <= k < it.index() ==> value_fits(#[trigger] src[k], budget - 1)
                            && unpacks_value(src[k], items@[k]),
            {
                let ghost at = it.index() as int;
                assert(item == src[at]);
                match value_to_json_at(nest + 1, item) {
                    Ok(j) => items.push(j),
                    Err(e) => {
                        assert(whole.kind->0->ListValue_0@[at] == src[at]);
                        return Err(e);
                    },
                }
            }
            JsonValue::Array(items)
        },
        Some(Kind::StructValue(fields)) => {
            let ghost src = fields@;
            let mut entries: Vec<(String, JsonValue)> = Vec::with_capacity(fields.len());
            for field in it: fields.into_iter()
                invariant
                    nest < MAX_JSON_NEST,
                    whole == value,
                    budget == MAX_JSON_NEST - nest,
                    whole.kind matches Some(Kind::StructValue(xs)) && xs@ == src,
                    it.seq() == src,
                    entries@.len() == it.index(),
                    forall|k: int|
                        0 <= k < it.index() ==> value_fits((#[trigger] src[k]).1, budget - 1)
                            && entries@[k].0@ == src[k].0@ && unpacks_value(src[k].1, entries@[k].1),
            {
                let ghost at = it.index() as int;
                assert(field == src[at]);
                let (key, item) = field;
                match value_to_json_at(nest + 1, item) {
                    Ok(j) => entries.push((key, j)),
                    Err(e) => {
                        assert(whole.kind->0->StructValue_0@[at] == src[at]);
                        return Err(e);
                    },
                }
            }
            JsonValue::Object(entries)
        },
    };
    Ok(converted)
}

/// Converts a JSON value that stands `nest` levels deep into its wire form.
fn json_to_value_at(nest: usize, value: JsonValue) -> (r: Result<Value, Error>)
    requires
        nest <= MAX_JSON_NEST,
    ensures
        match r {
            Ok(w) => json_fits(value, MAX_JSON_NEST - nest) && packs_json(value, w),
            Err(e) => !json_fits(value, MAX_JSON_NEST - nest) && e is JsonValueNestedTooDeeply,
        },
    decreases MAX_JSON_NEST - nest,
{
    if nest >= MAX_JSON_NEST {
        return Err(Error::JsonValueNestedTooDeeply);
    }
    let ghost budget = MAX_JSON_NEST - nest;
    let ghost whole = value;
    let kind = match value {
        JsonValue::Null => Kind::NullValue(0),
        JsonValue::Bool(b) => Kind::BoolValue(b),
        JsonValue::Number(n) => match number_as_f64_bits(n) {
            Some(bits) => Kind::NumberValue(bits),
            None => Kind::NullValue(0),
        },
        JsonValue::String(s) => Kind::StringValue(s),
        JsonValue::Array(items) => {
            let ghost src = items@;
            let mut values: Vec<Value> = Vec::with_capacity(items.len());
            for item in it: items.into_iter()
                invariant
                    nest < MAX_JSON_NEST,
                    whole == value,
                    budget == MAX_JSON_NEST - nest,
                    whole matches JsonValue::Array(xs) && xs@ == src,
                    it.seq() == src,
                    src == items@,
                    values@.len() == it.index(),
                    forall|k: int|
                        0 <= k < it.index() ==> json_fits(#[trigger] src[k], budget - 1)
                            && packs_json(src[k], values@[k]),
            {
                let ghost at = it.index() as int;
                assert(item == src[at]);
                match json_to_value_at(nest + 1, item) {
                    Ok(w) => values.push(w),
                    Err(e) => {
                        assert(whole->Array_0@[at] == src[at]);
                        return Err(e);
                    },
                }
            }
            Kind::ListValue(values)
        },
        JsonValue::Object(entries) => {
            let ghost src = entries@;
            let mut fields: Vec<(String, Value)> = Vec::with_capacity(entries.len());
            for entry in it: entries.into_iter()
                invariant
                    nest < MAX_JSON_NEST,
                    whole == value,
                    budget == MAX_JSON_NEST - nest,
                    whole matches JsonValue::Object(xs) && xs@ == src,
                    it.seq() == src,
                    src == entries@,
                    fields@.len() == it.index(),
                    forall|k: int|
                        0 <= k < it.index() ==> json_fits((#[trigger] src[k]).1, budget - 1)
                            && fields@[k].0@ == src[k].0@ && packs_json(src[k].1, fields@[k].1),
            {
                let ghost at = it.index() as int;
                assert(entry == src[at]);
                let (key, item) = entry;
                match json_to_value_at(nest + 1, item) {
                    Ok(w) => fields.push((key, w)),
                    Err(e) => {
                        assert(whole->Object_0@[at] == src[at]);
                        return Err(e);
                    },
                }
            }
            Kind::StructValue(fields)
        },
    };
    Ok(Value { kind: Some(kind) })
}

/// Converts a JSON value into the wire's self-describing value.
///
/// Fails with `JsonValueNestedTooDeeply` exactly when the value nests deeper than
/// `MAX_JSON_NEST` levels; otherwise the result is its wire form.
pub fn json_value_to_value(value: JsonValue) -> (r: Result<Value, Error>)
    ensures
        match r {
            Ok(w) => json_fits(value, MAX_JSON_NEST as int) && packs_json(value, w),
            Err(e) => !json_fits(value, MAX_JSON_NEST as int) && e is JsonValueNestedTooDeeply,
        },
{
    json_to_value_at(0, value)
}

/// Converts the wire's self-describing value into a JSON value.
///
/// Fails with `JsonValueNestedTooDeeply` exactly when the value nests deeper than
/// `MAX_JSON_NEST` levels; otherwise the result is its JSON form, where an absent kind and
/// a number that is not finite read as null.
pub fn value_to_json_value(value: Value) -> (r: Result<JsonValue, Error>)
    ensures
        match r {
            Ok(j) => value_fits(value, MAX_JSON_NEST as int) && unpacks_value(value, j),
            Err(e) => !value_fits(value, MAX_JSON_NEST as int) && e is JsonValueNestedTooDeeply,
        },
{
    value_to_json_at(0, value)
}

impl S2ProtoPack<Value> for JsonValue {
    open spec fn pack_spec(self, r: Result<Value, Error>) -> bool {
        match r {
            Ok(w) => json_fits(self, MAX_JSON_NEST as int) && packs_json(self, w),
            Err(e) => !json_fits(self, MAX_JSON_NEST as int) && e is JsonValueNestedTooDeeply,
        }
    }

    fn pack(self) -> (r: Result<Value, Error>) {
        json_value_to_value(self)
    }
}

impl S2ProtoUnpack<Value> for JsonValue {
    open spec fn unpack_spec(value: Value, r: Result<JsonValue, Error>) -> bool {
        match r {
            Ok(j) => value_fits(value, MAX_JSON_NEST as int) && unpacks_value(value, j),
            Err(e) => !value_fits(value, MAX_JSON_NEST as int) && e is JsonValueNestedTooDeeply,
        }
    }

    fn unpack(value: Value) -> (r: Result<JsonValue, Error>) {
        value_to_json_value(value)
    }
}

/// A JSON value fills an optional wire slot.
impl S2ProtoPack<Option<Value>> for JsonValue {
    open spec fn pack_spec(self, r: Result<Option<Value>, Error>) -> bool {
        crate::convert::pack_present_spec::<Value, JsonValue>(self, r)
    }

    fn pack(self) -> (r: Result<Option<Value>, Error>) {
        pack_present::<Value, JsonValue>(self)
    }
}

/// A JSON value is required from an optional wire slot.
impl S2ProtoUnpack<Option<Value>> for JsonValue {
    open spec fn unpack_spec(value: Option<Value>, r: Result<JsonValue, Error>) -> bool {
        crate::convert::unpack_present_spec::<Value, JsonValue>(value, r)
    }

    fn unpack(value: Option<Value>) -> (r: Result<JsonValue, Error>) {
        unpack_present::<Value, JsonValue>(value)
    }
}

/// A required JSON field that is absent on the wire fails with an error that names exactly
/// that field.
pub proof fn lemma_absent_required_field(field_name: &'static str)
    ensures
        forall|r: Result<JsonValue, Error>|
            #[trigger] crate::convert::unpack_field_spec::<Option<Value>, JsonValue>(field_name, None, r)
                ==> (r matches Err(e) && e == Error::FieldValueNotPresent { field_name }),
{
    assert forall|r: Result<JsonValue, Error>|
        #[trigger] crate::convert::unpack_field_spec::<Option<Value>, JsonValue>(field_name, None, r)
            implies (r matches Err(e) && e == Error::FieldValueNotPresent { field_name }) by {
        if let Err(e) = r {
            let source = choose|source: Error|
                <JsonValue as S2ProtoUnpack<Option<Value>>>::unpack_spec(None, Err(source))
                    && e == #[trigger] crate::convert::field_error(field_name, source);
            assert(source == Error::ValueNotPresent);
        }
    }
}

/// Any serializable domain value, carried through the structured-value bridge by way of
/// its JSON form.
pub struct Json<T>(pub T);

} // verus!
