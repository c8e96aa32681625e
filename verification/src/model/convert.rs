//! The contract every stored entity type fulfils: a canonical key, an
//! exact byte encoding with a proved round trip, and a creation timestamp
//! that orders scan results.

use vstd::prelude::*;
use crate::model::fresh::timestamp_display_spec;

verus! {

/// Upper bound on the encoded byte length of any single text or payload
/// field; keeps every record encoding comfortably inside `usize`.
pub const FIELD_LIMIT: u64 = 0x0FFFFFFF;

/// One error type for the persistence layer, in the two kinds callers can
/// meet: a record that does not decode, and a failure of the storage
/// engine itself.
#[derive(Clone, Copy, Debug, PartialEq, Eq, Structural)]
pub enum StoreError {
    /// Bytes under a key do not decode to the requested entity type.
    Codec,
    /// The storage engine reported an error.
    Storage,
}

impl StoreError {
    /// A short description, for logs and popups.
    pub fn message(&self) -> (r: &'static str)
        ensures
            *self is Codec ==> r@ == "malformed record"@,
            *self is Storage ==> r@ == "storage failure"@,
    {
        match self {
            StoreError::Codec => "malformed record",
            StoreError::Storage => "storage failure",
        }
    }
}

/// A type that the store can hold.
///
/// The spec functions speak of the abstract value `Self::V`; `dec_of`
/// inverts `enc_of` on every well-formed value and only yields well-formed
/// values, so a record written by `to_bytes` is always read back whole by
/// `from_bytes`.
pub trait Storable: Sized + View {
    /// Structurally valid: every field fits its encoded form.
    spec fn inv(v: Self::V) -> bool;

    /// The canonical store key, as bytes.
    spec fn key_of(v: Self::V) -> Seq<u8>;

    /// The exact byte encoding.
    spec fn enc_of(v: Self::V) -> Seq<u8>;

    /// The exact decoding; `None` on malformed bytes.
    spec fn dec_of(b: Seq<u8>) -> Option<Self::V>;

    /// Creation time in seconds since the epoch; orders scan results.
    spec fn stamp_of(v: Self::V) -> u64;

    /// The fields a table row shows for this entity.
    spec fn fields_of(v: Self::V) -> Seq<Seq<char>>;

    /// Decoding inverts encoding on every well-formed value.
    proof fn lemma_round_trip(v: Self::V)
        requires
            Self::inv(v),
        ensures
            Self::dec_of(Self::enc_of(v)) == Some(v),
    ;

    /// Decoding only produces well-formed values.
    proof fn lemma_decode_inv(b: Seq<u8>)
        ensures
            (#[trigger] Self::dec_of(b)) matches Some(v) ==> Self::inv(v),
    ;

    /// The canonical key, as text whose UTF-8 bytes are `key_of`.
    fn to_key(&self) -> (r: String)
        requires
            Self::inv(self@),
        ensures
            vstd::utf8::encode_utf8(r@) == Self::key_of(self@),
    ;

    /// Serialize for the store.
    fn to_bytes(&self) -> (r: Vec<u8>)
        requires
            Self::inv(self@),
        ensures
            r@ == Self::enc_of(self@),
    ;

    /// Deserialize from the store; a typed error on malformed bytes.
    fn from_bytes(b: &Vec<u8>) -> (r: Result<Self, StoreError>)
        ensures
            match r {
                Ok(v) => Self::dec_of(b@) == Some(v@) && Self::inv(v@),
                Err(e) => Self::dec_of(b@) is None && e == StoreError::Codec,
            },
    ;

    /// The creation timestamp used for ordering.
    fn timestamp_key(&self) -> (r: u64)
        ensures
            r == Self::stamp_of(self@),
    ;

    /// The calendar rendering of the creation timestamp.
    fn get_timestamp(&self) -> (r: String)
        ensures
            r@ == timestamp_display_spec(Self::stamp_of(self@)),
    ;

    /// The fields that are relevant for display.
    fn get_display_fields(&self) -> (r: Vec<String>)
        ensures
            r.deep_view() == Self::fields_of(self@),
    ;
}

} // verus!
