use vstd::prelude::*;

use crate::result::Error;

verus! {

/// The type tag that marks an opaque payload as JSON text.
pub const JSON_TYPE_URL: &'static str = "s2/json";

/// The wire's opaque payload: a type tag and the bytes it describes.
#[derive(Debug, Clone, PartialEq, Eq)]
pub struct Any {
    pub type_url: String,
    pub value: Vec<u8>,
}

/// Wraps JSON text as an opaque payload under the JSON type tag.
pub fn pack_json_payload(bytes: Vec<u8>) -> (r: Any)
    ensures
        r.type_url@ == JSON_TYPE_URL@,
        r.value@ == bytes@,
{
    Any { type_url: JSON_TYPE_URL.to_owned(), value: bytes }
}

/// Whether `r` is the outcome of opening the opaque payload `payload` as JSON text.
pub open spec fn unpack_json_payload_spec(payload: Any, r: Result<Vec<u8>, Error>) -> bool {
    match r {
        Ok(bytes) => payload.type_url@ == JSON_TYPE_URL@ && bytes@ == payload.value@,
        Err(e) => payload.type_url@ != JSON_TYPE_URL@ && (e matches Error::JsonTypeUrlUnknown { type_url }
            && type_url@ == payload.type_url@),
    }
}

/// The JSON text in an opaque payload; a payload under another type tag fails with
/// `JsonTypeUrlUnknown`, which names that tag.
pub fn unpack_json_payload(payload: Any) -> (r: Result<Vec<u8>, Error>)
    ensures
        unpack_json_payload_spec(payload, r),
{
    let expected = JSON_TYPE_URL.to_owned();
    if payload.type_url == expected {
        Ok(payload.value)
    } else {
        Err(Error::JsonTypeUrlUnknown { type_url: payload.type_url })
    }
}

/// JSON text wrapped as an opaque payload opens to the same text.
pub proof fn lemma_payload_round_trip(bytes: Seq<u8>)
    ensures
        forall|p: Any, r: Result<Vec<u8>, Error>|
            p.type_url@ == JSON_TYPE_URL@ && p.value@ == bytes && #[trigger] unpack_json_payload_spec(p, r)
                ==> (r matches Ok(b) && b@ == bytes),
{
}

} // verus!
