//! The encode/decode capability that lets typed values cross the
//! byte-oriented storage boundary, and its implementations over the
//! self-describing JSON encoding.

use vstd::prelude::*;

use crate::CacheError;

verus! {

/// The bytes that the JSON encoder produces for a 64-bit integer; they are a
/// function of the integer alone.
pub uninterp spec fn json_i64(v: i64) -> Seq<u8>;

/// The bytes that the JSON encoder produces for a text value; they are a
/// function of the characters alone.
pub uninterp spec fn json_string(s: Seq<char>) -> Seq<u8>;

/// The bytes that the JSON encoder produces for a boolean; they are a
/// function of the boolean alone.
pub uninterp spec fn json_bool(b: bool) -> Seq<u8>;

/// The byte sequences that encode some integer.
pub open spec fn is_json_i64(bytes: Seq<u8>) -> bool {
    exists|v: i64| bytes == #[trigger] json_i64(v)
}

/// The byte sequences that encode some text value.
pub open spec fn is_json_string(bytes: Seq<u8>) -> bool {
    exists|s: Seq<char>| bytes == #[trigger] json_string(s)
}

/// The byte sequences that encode some boolean.
pub open spec fn is_json_bool(bytes: Seq<u8>) -> bool {
    exists|b: bool| bytes == #[trigger] json_bool(b)
}

/// A value that can cross the byte-oriented storage boundary: `encode`
/// produces the value's byte representation and `decode` restores it.
pub trait CacheValue: Sized {
    /// Whether this value can be encoded at all. Inserting a value for
    /// which this is false fails with a serialization error.
    spec fn encodable(&self) -> bool;

    /// The byte representation that `encode` produces for this value.
    spec fn encoding(&self) -> Seq<u8>;

    /// Byte sequences that `decode` surely refuses: the encodings of
    /// values of an incompatible type.
    spec fn rejects(bytes: Seq<u8>) -> bool;

    fn encode(&self) -> (r: Result<Vec<u8>, CacheError>)
        ensures
            self.encodable() ==> (r matches Ok(b) && b@ == self.encoding()),
            !self.encodable() ==> (r matches Err(e) && e is SerDeError),
    ;

    fn decode(bytes: &Vec<u8>) -> (r: Result<Self, CacheError>)
        ensures
            forall|v: Self| v.encodable() && bytes@ == #[trigger] v.encoding()
                ==> r == Ok::<Self, CacheError>(v),
            Self::rejects(bytes@) ==> (r matches Err(e) && e is SerDeError),
            r matches Err(e) ==> e is SerDeError,
    ;
}

/// What the JSON decoder is relied on for at type i64: parsing the
/// serialization of an integer yields that integer back, and the
/// serialization of a text value or a boolean is refused as a type mismatch.
pub open spec fn decoder_contract_i64(bytes: Seq<u8>, r: Result<i64, String>) -> bool {
    &&& forall|v: i64| bytes == #[trigger] json_i64(v) ==> r == Ok::<i64, String>(v)
    &&& forall|s: Seq<char>| bytes == #[trigger] json_string(s) ==> r is Err
    &&& forall|b: bool| bytes == #[trigger] json_bool(b) ==> r is Err
}

/// What the JSON decoder is relied on for at type String: parsing the
/// serialization of a text value yields that text back, and the
/// serialization of an integer or a boolean is refused as a type mismatch.
pub open spec fn decoder_contract_string(bytes: Seq<u8>, r: Result<String, String>) -> bool {
    &&& forall|v: String| bytes == json_string(#[trigger] v@) ==> r == Ok::<String, String>(v)
    &&& forall|v: i64| bytes == #[trigger] json_i64(v) ==> r is Err
    &&& forall|b: bool| bytes == #[trigger] json_bool(b) ==> r is Err
}

/// What the JSON decoder is relied on for at type bool: parsing the
/// serialization of a boolean yields that boolean back, and the
/// serialization of an integer or a text value is refused as a type mismatch.
pub open spec fn decoder_contract_bool(bytes: Seq<u8>, r: Result<bool, String>) -> bool {
    &&& forall|b: bool| bytes == #[trigger] json_bool(b) ==> r == Ok::<bool, String>(b)
    &&& forall|v: i64| bytes == #[trigger] json_i64(v) ==> r is Err
    &&& forall|s: Seq<char>| bytes == #[trigger] json_string(s) ==> r is Err
}

/// Relies on serde_json::to_vec with an i64: writing an integer's decimal
/// digits into a fresh vector cannot fail, and the bytes depend on the
/// integer alone (named json_i64).
#[verifier::external_body]
fn encode_json_i64(v: &i64) -> (r: Result<Vec<u8>, String>)
    ensures
        r is Ok,
        r matches Ok(b) ==> b@ == json_i64(*v),
{
    serde_json::to_vec(v).map_err(|e| e.to_string())
}

/// Relies on serde_json::to_vec with a String: writing the quoted, escaped
/// text into a fresh vector cannot fail, and the bytes depend on the
/// characters alone (named json_string).
#[verifier::external_body]
fn encode_json_string(v: &String) -> (r: Result<Vec<u8>, String>)
    ensures
        r is Ok,
        r matches Ok(b) ==> b@ == json_string(v@),
{
    serde_json::to_vec(v).map_err(|e| e.to_string())
}

/// Relies on serde_json::to_vec with a bool: writing `true` or `false` into
/// a fresh vector cannot fail, and the bytes depend on the boolean alone
/// (named json_bool).
#[verifier::external_body]
fn encode_json_bool(v: &bool) -> (r: Result<Vec<u8>, String>)
    ensures
        r is Ok,
        r matches Ok(b) ==> b@ == json_bool(*v),
{
    serde_json::to_vec(v).map_err(|e| e.to_string())
}

/// Relies on serde_json::from_slice at type i64: a JSON integer parses back
/// exactly, while a JSON string or boolean raises a type error.
#[verifier::external_body]
fn decode_json_i64(bytes: &Vec<u8>) -> (r: Result<i64, String>)
    ensures
        decoder_contract_i64(bytes@, r),
{
    serde_json::from_slice(bytes).map_err(|e| e.to_string())
}

/// Relies on serde_json::from_slice at type String: a JSON string parses
/// back exactly, while a JSON integer or boolean raises a type error.
#[verifier::external_body]
fn decode_json_string(bytes: &Vec<u8>) -> (r: Result<String, String>)
    ensures
        decoder_contract_string(bytes@, r),
{
    serde_json::from_slice(bytes).map_err(|e| e.to_string())
}

/// Relies on serde_json::from_slice at type bool: a JSON boolean parses
/// back exactly, while a JSON integer or string raises a type error.
#[verifier::external_body]
fn decode_json_bool(bytes: &Vec<u8>) -> (r: Result<bool, String>)
    ensures
        decoder_contract_bool(bytes@, r),
{
    serde_json::from_slice(bytes).map_err(|e| e.to_string())
}

impl CacheValue for i64 {
    open spec fn encodable(&self) -> bool {
        true
    }

    open spec fn encoding(&self) -> Seq<u8> {
        json_i64(*self)
    }

    open spec fn rejects(bytes: Seq<u8>) -> bool {
        is_json_string(bytes) || is_json_bool(bytes)
    }

    fn encode(&self) -> (r: Result<Vec<u8>, CacheError>) {
        match encode_json_i64(self) {
            Ok(b) => Ok(b),
            Err(m) => Err(CacheError::SerDeError(m)),
        }
    }

    fn decode(bytes: &Vec<u8>) -> (r: Result<i64, CacheError>) {
        match decode_json_i64(bytes) {
            Ok(v) => Ok(v),
            Err(m) => Err(CacheError::SerDeError(m)),
        }
    }
}

impl CacheValue for String {
    open spec fn encodable(&self) -> bool {
        true
    }

    open spec fn encoding(&self) -> Seq<u8> {
        json_string(self@)
    }

    open spec fn rejects(bytes: Seq<u8>) -> bool {
        is_json_i64(bytes) || is_json_bool(bytes)
    }

    fn encode(&self) -> (r: Result<Vec<u8>, CacheError>) {
        match encode_json_string(self) {
            Ok(b) => Ok(b),
            Err(m) => Err(CacheError::SerDeError(m)),
        }
    }

    fn decode(bytes: &Vec<u8>) -> (r: Result<String, CacheError>) {
        match decode_json_string(bytes) {
            Ok(v) => Ok(v),
            Err(m) => Err(CacheError::SerDeError(m)),
        }
    }
}

impl CacheValue for bool {
    open spec fn encodable(&self) -> bool {
        true
    }

    open spec fn encoding(&self) -> Seq<u8> {
        json_bool(*self)
    }

    open spec fn rejects(bytes: Seq<u8>) -> bool {
        is_json_i64(bytes) || is_json_string(bytes)
    }

    fn encode(&self) -> (r: Result<Vec<u8>, CacheError>) {
        match encode_json_bool(self) {
            Ok(b) => Ok(b),
            Err(m) => Err(CacheError::SerDeError(m)),
        }
    }

    fn decode(bytes: &Vec<u8>) -> (r: Result<bool, CacheError>) {
        match decode_json_bool(bytes) {
            Ok(v) => Ok(v),
            Err(m) => Err(CacheError::SerDeError(m)),
        }
    }
}

} // verus!
