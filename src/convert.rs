use vstd::prelude::*;

use crate::result::Error;
use crate::{S2ProtoPack, S2ProtoUnpack};

verus! {

/// An optional domain value packs to an optional wire value: absent stays absent.
impl<T1, T2: S2ProtoPack<T1>> S2ProtoPack<Option<T1>> for Option<T2> {
    open spec fn pack_spec(self, r: Result<Option<T1>, Error>) -> bool {
        match self {
            None => r == Ok::<Option<T1>, Error>(None),
            Some(v) => match r {
                Ok(Some(w)) => T2::pack_spec(v, Ok(w)),
                Ok(None) => false,
                Err(e) => T2::pack_spec(v, Err(e)),
            },
        }
    }

    fn pack(self) -> (r: Result<Option<T1>, Error>) {
        match self {
            Some(v) => match v.pack() {
                Ok(w) => Ok(Some(w)),
                Err(e) => Err(e),
            },
            None => Ok(None),
        }
    }
}

/// An optional wire value unpacks to an optional domain value: absent stays absent.
impl<T1, T2: S2ProtoUnpack<T1>> S2ProtoUnpack<Option<T1>> for Option<T2> {
    open spec fn unpack_spec(value: Option<T1>, r: Result<Option<T2>, Error>) -> bool {
        match value {
            None => r == Ok::<Option<T2>, Error>(None),
            Some(w) => match r {
                Ok(Some(v)) => T2::unpack_spec(w, Ok(v)),
                Ok(None) => false,
                Err(e) => T2::unpack_spec(w, Err(e)),
            },
        }
    }

    fn unpack(value: Option<T1>) -> (r: Result<Option<T2>, Error>) {
        match value {
            Some(w) => match T2::unpack(w) {
                Ok(v) => Ok(Some(v)),
                Err(e) => Err(e),
            },
            None => Ok(None),
        }
    }
}

/// Whether `r` is the outcome of packing a required value into an optional wire slot:
/// the value's own outcome, made present.
pub open spec fn pack_present_spec<T, D: S2ProtoPack<T>>(v: D, r: Result<Option<T>, Error>) -> bool {
    match r {
        Ok(Some(w)) => D::pack_spec(v, Ok(w)),
        Ok(None) => false,
        Err(e) => D::pack_spec(v, Err(e)),
    }
}

/// Packs a required value into an optional wire slot, which it fills.
pub fn pack_present<T, D: S2ProtoPack<T>>(v: D) -> (r: Result<Option<T>, Error>)
    ensures
        pack_present_spec(v, r),
{
    match v.pack() {
        Ok(w) => Ok(Some(w)),
        Err(e) => Err(e),
    }
}

/// Whether `r` is the outcome of unpacking a required value from an optional wire slot:
/// `ValueNotPresent` when the slot is empty, else the value's own outcome.
pub open spec fn unpack_present_spec<T, D: S2ProtoUnpack<T>>(value: Option<T>, r: Result<D, Error>) -> bool {
    match value {
        None => r matches Err(e) && e == Error::ValueNotPresent,
        Some(w) => D::unpack_spec(w, r),
    }
}

/// Unpacks a required value from an optional wire slot; an empty slot fails with
/// `ValueNotPresent`.
pub fn unpack_present<T, D: S2ProtoUnpack<T>>(value: Option<T>) -> (r: Result<D, Error>)
    ensures
        unpack_present_spec(value, r),
{
    match value {
        Some(w) => D::unpack(w),
        None => Err(Error::ValueNotPresent),
    }
}

/// The error for a field: absence of the value names the field, any other error stays.
pub open spec fn field_error(field_name: &'static str, e: Error) -> Error {
    if e is ValueNotPresent {
        Error::FieldValueNotPresent { field_name }
    } else {
        e
    }
}

/// Whether `r` is the outcome of unpacking the field `field_name` from `value`.
pub open spec fn unpack_field_spec<T, D: S2ProtoUnpack<T>>(
    field_name: &'static str,
    value: T,
    r: Result<D, Error>,
) -> bool {
    match r {
        Ok(d) => D::unpack_spec(value, Ok(d)),
        Err(e) => exists|source: Error|
            D::unpack_spec(value, Err(source)) && e == #[trigger] field_error(field_name, source),
    }
}

/// Unpacks the field `field_name` of a wire message; where the value is absent but
/// required, the error names the field.
pub fn unpack_field<T, D: S2ProtoUnpack<T>>(field_name: &'static str, value: T) -> (r: Result<D, Error>)
    ensures
        unpack_field_spec(field_name, value, r),
{
    match D::unpack(value) {
        Ok(d) => Ok(d),
        Err(e) => {
            let ghost source = e;
            let err = match e {
                Error::ValueNotPresent => Error::FieldValueNotPresent { field_name },
                other => other,
            };
            assert(D::unpack_spec(value, Err(source)) && err == field_error(field_name, source));
            Err(err)
        },
    }
}

/// Whether packing `v` succeeds.
pub open spec fn packs_ok<T, D: S2ProtoPack<T>>(v: D) -> bool {
    exists|w: T| D::pack_spec(v, Ok(w))
}

/// Whether unpacking `value` succeeds.
pub open spec fn unpacks_ok<T, D: S2ProtoUnpack<T>>(value: T) -> bool {
    exists|d: D| D::unpack_spec(value, Ok(d))
}

/// A list packs element by element, in order; the first element that fails stops it, and
/// the error carries that element's index.
impl<T1, T2: S2ProtoPack<T1>> S2ProtoPack<Vec<T1>> for Vec<T2> {
    open spec fn pack_spec(self, r: Result<Vec<T1>, Error>) -> bool {
        match r {
            Ok(out) => out@.len() == self@.len() && forall|i: int|
                0 <= i < self@.len() ==> T2::pack_spec(#[trigger] self@[i], Ok(out@[i])),
            Err(e) => match e {
                Error::ListElement { source, index } => {
                    &&& index < self@.len()
                    &&& T2::pack_spec(self@[index as int], Err(*source))
                    &&& forall|i: int| 0 <= i < index ==> packs_ok::<T1, T2>(#[trigger] self@[i])
                },
                _ => false,
            },
        }
    }

    fn pack(self) -> (r: Result<Vec<T1>, Error>) {
        let ghost src = self@;
        let mut out: Vec<T1> = Vec::new();
        for elem in it: self.into_iter()
            invariant
                it.seq() == src,
                src == self@,
                out@.len() == it.index(),
                forall|k: int| 0 <= k < it.index() ==> T2::pack_spec(#[trigger] src[k], Ok(out@[k])),
        {
            let ghost at = it.index() as int;
            assert(elem == src[at]);
            let index = out.len();
            match elem.pack() {
                Ok(w) => out.push(w),
                Err(e) => {
                    assert forall|i: int| 0 <= i < index implies packs_ok::<T1, T2>(#[trigger] src[i]) by {
                        assert(T2::pack_spec(src[i], Ok(out@[i])));
                    }
                    return Err(Error::ListElement { source: Box::new(e), index });
                },
            }
        }
        Ok(out)
    }
}

/// A list unpacks element by element, in order; the first element that fails stops it,
/// and the error carries that element's index.
impl<T1, T2: S2ProtoUnpack<T1>> S2ProtoUnpack<Vec<T1>> for Vec<T2> {
    open spec fn unpack_spec(value: Vec<T1>, r: Result<Vec<T2>, Error>) -> bool {
        match r {
            Ok(out) => out@.len() == value@.len() && forall|i: int|
                0 <= i < value@.len() ==> T2::unpack_spec(#[trigger] value@[i], Ok(out@[i])),
            Err(e) => match e {
                Error::ListElement { source, index } => {
                    &&& index < value@.len()
                    &&& T2::unpack_spec(value@[index as int], Err(*source))
                    &&& forall|i: int| 0 <= i < index ==> unpacks_ok::<T1, T2>(#[trigger] value@[i])
                },
                _ => false,
            },
        }
    }

    fn unpack(value: Vec<T1>) -> (r: Result<Vec<T2>, Error>) {
        let ghost src = value@;
        let mut out: Vec<T2> = Vec::new();
        for elem in it: value.into_iter()
            invariant
                it.seq() == src,
                src == value@,
                out@.len() == it.index(),
                forall|k: int| 0 <= k < it.index() ==> T2::unpack_spec(#[trigger] src[k], Ok(out@[k])),
        {
            let ghost at = it.index() as int;
            assert(elem == src[at]);
            let index = out.len();
            match T2::unpack(elem) {
                Ok(d) => out.push(d),
                Err(e) => {
                    assert forall|i: int| 0 <= i < index implies unpacks_ok::<T1, T2>(#[trigger] src[i]) by {
                        assert(T2::unpack_spec(src[i], Ok(out@[i])));
                    }
                    return Err(Error::ListElement { source: Box::new(e), index });
                },
            }
        }
        Ok(out)
    }
}

/// Whether the entry at `k` is the first of `entries` whose key or value fails to pack, with
/// `source` as its error; a key is packed before its value.
pub open spec fn first_failing_pack_entry<K, V, K2: S2ProtoPack<K>, V2: S2ProtoPack<V>>(
    entries: Seq<(K2, V2)>,
    k: int,
    source: Error,
) -> bool {
    &&& 0 <= k < entries.len()
    &&& forall|i: int|
        0 <= i < k ==> packs_ok::<K, K2>((#[trigger] entries[i]).0) && packs_ok::<V, V2>(entries[i].1)
    &&& K2::pack_spec(entries[k].0, Err(source)) || (packs_ok::<K, K2>(entries[k].0)
        && V2::pack_spec(entries[k].1, Err(source)))
}

/// Whether `r` is the outcome of packing the entries of a map.
pub open spec fn pack_map_spec<K, V, K2: S2ProtoPack<K>, V2: S2ProtoPack<V>>(
    entries: Seq<(K2, V2)>,
    r: Result<Vec<(K, V)>, Error>,
) -> bool {
    match r {
        Ok(out) => out@.len() == entries.len() && forall|i: int|
            0 <= i < entries.len() ==> K2::pack_spec((#[trigger] entries[i]).0, Ok(out@[i].0))
                && V2::pack_spec(entries[i].1, Ok(out@[i].1)),
        Err(e) => match e {
            Error::MapEntry { source } => exists|k: int|
                #[trigger] first_failing_pack_entry::<K, V, K2, V2>(entries, k, *source),
            _ => false,
        },
    }
}

/// Packs the entries of a map, key and value each on its own, in the order given; the first
/// failure stops it and is wrapped as a map-entry error. Where two keys pack alike, a map
/// built from the result keeps the later entry.
pub fn pack_map<K, V, K2: S2ProtoPack<K>, V2: S2ProtoPack<V>>(entries: Vec<(K2, V2)>) -> (r: Result<Vec<(K, V)>, Error>)
    ensures
        pack_map_spec(entries@, r),
{
    let ghost src = entries@;
    let mut out: Vec<(K, V)> = Vec::new();
    for entry in it: entries.into_iter()
        invariant
            it.seq() == src,
            out@.len() == it.index(),
            forall|i: int|
                0 <= i < it.index() ==> K2::pack_spec((#[trigger] src[i]).0, Ok(out@[i].0))
                    && V2::pack_spec(src[i].1, Ok(out@[i].1)),
    {
        let ghost at = it.index() as int;
        assert(entry == src[at]);
        assert forall|i: int| 0 <= i < at implies packs_ok::<K, K2>((#[trigger] src[i]).0)
            && packs_ok::<V, V2>(src[i].1) by {
            assert(K2::pack_spec(src[i].0, Ok(out@[i].0)));
            assert(V2::pack_spec(src[i].1, Ok(out@[i].1)));
        }
        let (k2, v2) = entry;
        let k = match k2.pack() {
            Ok(k) => k,
            Err(e) => {
                assert(first_failing_pack_entry::<K, V, K2, V2>(src, at, e));
                return Err(Error::MapEntry { source: Box::new(e) });
            },
        };
        let v = match v2.pack() {
            Ok(v) => v,
            Err(e) => {
                assert(first_failing_pack_entry::<K, V, K2, V2>(src, at, e));
                return Err(Error::MapEntry { source: Box::new(e) });
            },
        };
        out.push((k, v));
    }
    Ok(out)
}

/// Whether the entry at `k` is the first of `entries` whose key or value fails to unpack,
/// with `source` as its error; a key is unpacked before its value.
pub open spec fn first_failing_unpack_entry<K, V, K2: S2ProtoUnpack<K>, V2: S2ProtoUnpack<V>>(
    entries: Seq<(K, V)>,
    k: int,
    source: Error,
) -> bool {
    &&& 0 <= k < entries.len()
    &&& forall|i: int|
        0 <= i < k ==> unpacks_ok::<K, K2>((#[trigger] entries[i]).0) && unpacks_ok::<V, V2>(entries[i].1)
    &&& K2::unpack_spec(entries[k].0, Err(source)) || (unpacks_ok::<K, K2>(entries[k].0)
        && V2::unpack_spec(entries[k].1, Err(source)))
}

/// Whether `r` is the outcome of unpacking the entries of a wire map.
pub open spec fn unpack_map_spec<K, V, K2: S2ProtoUnpack<K>, V2: S2ProtoUnpack<V>>(
    entries: Seq<(K, V)>,
    r: Result<Vec<(K2, V2)>, Error>,
) -> bool {
    match r {
        Ok(out) => out@.len() == entries.len() && forall|i: int|
            0 <= i < entries.len() ==> K2::unpack_spec((#[trigger] entries[i]).0, Ok(out@[i].0))
                && V2::unpack_spec(entries[i].1, Ok(out@[i].1)),
        Err(e) => match e {
            Error::MapEntry { source } => exists|k: int|
                #[trigger] first_failing_unpack_entry::<K, V, K2, V2>(entries, k, *source),
            _ => false,
        },
    }
}

/// Unpacks the entries of a wire map, key and value each on its own, in the order given;
/// the first failure stops it and is wrapped as a map-entry error. Where two keys unpack
/// alike, a map built from the result keeps the later entry.
pub fn unpack_map<K, V, K2: S2ProtoUnpack<K>, V2: S2ProtoUnpack<V>>(entries: Vec<(K, V)>) -> (r: Result<Vec<(K2, V2)>, Error>)
    ensures
        unpack_map_spec(entries@, r),
{
    let ghost src = entries@;
    let mut out: Vec<(K2, V2)> = Vec::new();
    for entry in it: entries.into_iter()
        invariant
            it.seq() == src,
            out@.len() == it.index(),
            forall|i: int|
                0 <= i < it.index() ==> K2::unpack_spec((#[trigger] src[i]).0, Ok(out@[i].0))
                    && V2::unpack_spec(src[i].1, Ok(out@[i].1)),
    {
        let ghost at = it.index() as int;
        assert(entry == src[at]);
        assert forall|i: int| 0 <= i < at implies unpacks_ok::<K, K2>((#[trigger] src[i]).0)
            && unpacks_ok::<V, V2>(src[i].1) by {
            assert(K2::unpack_spec(src[i].0, Ok(out@[i].0)));
            assert(V2::unpack_spec(src[i].1, Ok(out@[i].1)));
        }
        let (k, v) = entry;
        let k2 = match K2::unpack(k) {
            Ok(k2) => k2,
            Err(e) => {
                assert(first_failing_unpack_entry::<K, V, K2, V2>(src, at, e));
                return Err(Error::MapEntry { source: Box::new(e) });
            },
        };
        let v2 = match V2::unpack(v) {
            Ok(v2) => v2,
            Err(e) => {
                assert(first_failing_unpack_entry::<K, V, K2, V2>(src, at, e));
                return Err(Error::MapEntry { source: Box::new(e) });
            },
        };
        out.push((k2, v2));
    }
    Ok(out)
}

/// `i64` is its own wire form.
impl S2ProtoPack<i64> for i64 {
    open spec fn pack_spec(self, r: Result<i64, Error>) -> bool {
        r == Ok::<i64, Error>(self)
    }

    fn pack(self) -> (r: Result<i64, Error>) {
        Ok(self)
    }
}

/// `i64` is its own wire form.
impl S2ProtoUnpack<i64> for i64 {
    open spec fn unpack_spec(value: i64, r: Result<i64, Error>) -> bool {
        r == Ok::<i64, Error>(value)
    }

    fn unpack(value: i64) -> (r: Result<i64, Error>) {
        Ok(value)
    }
}

/// `u64` is its own wire form.
impl S2ProtoPack<u64> for u64 {
    open spec fn pack_spec(self, r: Result<u64, Error>) -> bool {
        r == Ok::<u64, Error>(self)
    }

    fn pack(self) -> (r: Result<u64, Error>) {
        Ok(self)
    }
}

/// `u64` is its own wire form.
impl S2ProtoUnpack<u64> for u64 {
    open spec fn unpack_spec(value: u64, r: Result<u64, Error>) -> bool {
        r == Ok::<u64, Error>(value)
    }

    fn unpack(value: u64) -> (r: Result<u64, Error>) {
        Ok(value)
    }
}

/// `i32` is its own wire form.
impl S2ProtoPack<i32> for i32 {
    open spec fn pack_spec(self, r: Result<i32, Error>) -> bool {
        r == Ok::<i32, Error>(self)
    }

    fn pack(self) -> (r: Result<i32, Error>) {
        Ok(self)
    }
}

/// `i32` is its own wire form.
impl S2ProtoUnpack<i32> for i32 {
    open spec fn unpack_spec(value: i32, r: Result<i32, Error>) -> bool {
        r == Ok::<i32, Error>(value)
    }

    fn unpack(value: i32) -> (r: Result<i32, Error>) {
        Ok(value)
    }
}

/// `u32` is its own wire form.
impl S2ProtoPack<u32> for u32 {
    open spec fn pack_spec(self, r: Result<u32, Error>) -> bool {
        r == Ok::<u32, Error>(self)
    }

    fn pack(self) -> (r: Result<u32, Error>) {
        Ok(self)
    }
}

/// `u32` is its own wire form.
impl S2ProtoUnpack<u32> for u32 {
    open spec fn unpack_spec(value: u32, r: Result<u32, Error>) -> bool {
        r == Ok::<u32, Error>(value)
    }

    fn unpack(value: u32) -> (r: Result<u32, Error>) {
        Ok(value)
    }
}

/// `bool` is its own wire form.
impl S2ProtoPack<bool> for bool {
    open spec fn pack_spec(self, r: Result<bool, Error>) -> bool {
        r == Ok::<bool, Error>(self)
    }

    fn pack(self) -> (r: Result<bool, Error>) {
        Ok(self)
    }
}

/// `bool` is its own wire form.
impl S2ProtoUnpack<bool> for bool {
    open spec fn unpack_spec(value: bool, r: Result<bool, Error>) -> bool {
        r == Ok::<bool, Error>(value)
    }

    fn unpack(value: bool) -> (r: Result<bool, Error>) {
        Ok(value)
    }
}

/// `String` is its own wire form.
impl S2ProtoPack<String> for String {
    open spec fn pack_spec(self, r: Result<String, Error>) -> bool {
        r == Ok::<String, Error>(self)
    }

    fn pack(self) -> (r: Result<String, Error>) {
        Ok(self)
    }
}

/// `String` is its own wire form.
impl S2ProtoUnpack<String> for String {
    open spec fn unpack_spec(value: String, r: Result<String, Error>) -> bool {
        r == Ok::<String, Error>(value)
    }

    fn unpack(value: String) -> (r: Result<String, Error>) {
        Ok(value)
    }
}

/// `Vec<u8>` is its own wire form.
impl S2ProtoPack<Vec<u8>> for Vec<u8> {
    open spec fn pack_spec(self, r: Result<Vec<u8>, Error>) -> bool {
        r == Ok::<Vec<u8>, Error>(self)
    }

    fn pack(self) -> (r: Result<Vec<u8>, Error>) {
        Ok(self)
    }
}

/// `Vec<u8>` is its own wire form.
impl S2ProtoUnpack<Vec<u8>> for Vec<u8> {
    open spec fn unpack_spec(value: Vec<u8>, r: Result<Vec<u8>, Error>) -> bool {
        r == Ok::<Vec<u8>, Error>(value)
    }

    fn unpack(value: Vec<u8>) -> (r: Result<Vec<u8>, Error>) {
        Ok(value)
    }
}

/// Whether `v` packs to itself and unpacks to itself.
pub open spec fn packs_and_unpacks_as_itself<T: S2ProtoPack<T> + S2ProtoUnpack<T>>(v: T) -> bool {
    &&& forall|r: Result<T, Error>| #[trigger] <T as S2ProtoPack<T>>::pack_spec(v, r) ==> r == Ok::<T, Error>(v)
    &&& forall|r: Result<T, Error>| #[trigger] <T as S2ProtoUnpack<T>>::unpack_spec(v, r) ==> r == Ok::<T, Error>(v)
}

/// Every scalar is its own wire form, so unpacking what packing gives returns it unchanged.
pub proof fn lemma_scalar_round_trip(a: i64, b: u64, c: i32, d: u32, e: bool, s: String, bytes: Vec<u8>)
    ensures
        packs_and_unpacks_as_itself(a),
        packs_and_unpacks_as_itself(b),
        packs_and_unpacks_as_itself(c),
        packs_and_unpacks_as_itself(d),
        packs_and_unpacks_as_itself(e),
        packs_and_unpacks_as_itself(s),
        packs_and_unpacks_as_itself(bytes),
{
}

/// An optional field that is absent on the wire unpacks to nothing, without error.
pub proof fn lemma_absent_optional_field<T, D: S2ProtoUnpack<T>>(field_name: &'static str)
    ensures
        forall|r: Result<Option<D>, Error>|
            #[trigger] unpack_field_spec::<Option<T>, Option<D>>(field_name, None, r) ==> r == Ok::<Option<D>, Error>(None),
{
}

} // verus!
