//! The durable-map value encoding: an access-control table is stored as one
//! CBOR byte blob. Encoding is deterministic and lossless; decoding the
//! encoder's output gives the entries back exactly. The bytes themselves are
//! named, not written out: nothing in this crate depends on their shape.

use vstd::prelude::*;

verus! {

/// The CBOR encoding of a table's entries, as `ciborium::ser::into_writer`
/// produces it. The result depends on the entries alone.
pub uninterp spec fn table_bytes_of(entries: Seq<(String, u8)>) -> Seq<u8>;

/// What `ciborium::de::from_reader` reads out of a byte blob: the decoded
/// entries, or nothing when the bytes are not a table encoding. The result
/// depends on the bytes alone.
pub uninterp spec fn table_entries_of(bytes: Seq<u8>) -> Option<Seq<(String, u8)>>;

/// Relies on ciborium::ser::into_writer: writing into a byte vector cannot
/// fail, the encoding is a function of the entries alone, and
/// ciborium::de::from_reader decodes it back to the same entries.
#[verifier::external_body]
pub(crate) fn cbor_encode_entries(entries: &Vec<(String, u8)>) -> (r: Vec<u8>)
    ensures
        r@ == table_bytes_of(entries@),
        table_entries_of(r@) == Some(entries@),
{
    let mut buf: Vec<u8> = Vec::new();
    ciborium::ser::into_writer(entries, &mut buf).unwrap();
    buf
}

/// Relies on ciborium::de::from_reader: what a byte blob decodes to is a
/// function of the bytes alone.
#[verifier::external_body]
pub(crate) fn cbor_decode_entries(bytes: &Vec<u8>) -> (r: Option<Vec<(String, u8)>>)
    ensures
        match r {
            Some(entries) => table_entries_of(bytes@) == Some(entries@),
            None => table_entries_of(bytes@) is None,
        },
{
    match ciborium::de::from_reader(bytes.as_slice()) {
        Ok(entries) => Some(entries),
        Err(_) => None,
    }
}

} // verus!
