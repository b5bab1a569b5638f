//! The records of the `csv` crate, as far as the transformations read them.
use vstd::prelude::*;
use csv::{ByteRecord, StringRecord};

verus! {

#[verifier::external_type_specification]
#[verifier::external_body]
pub struct ExByteRecord(ByteRecord);

#[verifier::external_type_specification]
#[verifier::external_body]
pub struct ExStringRecord(StringRecord);

/// The fields of a record of bytes, in order.
pub uninterp spec fn record_fields(r: ByteRecord) -> Seq<Seq<u8>>;

/// The fields of a record of text, in order.
pub uninterp spec fn text_fields(r: StringRecord) -> Seq<Seq<char>>;

/// Relies on `ByteRecord::get`: the field at position `i`, if the record has that many.
#[verifier::external_body]
pub(crate) fn record_field(r: &ByteRecord, i: usize) -> (f: Option<Vec<u8>>)
    ensures
        f is Some <==> i < record_fields(*r).len(),
        f matches Some(b) ==> b@ == record_fields(*r)[i as int],
{
    r.get(i).map(|b| b.to_vec())
}

/// Relies on `StringRecord::iter`: every field, in order.
#[verifier::external_body]
pub(crate) fn field_names(r: &StringRecord) -> (names: Vec<String>)
    ensures
        names@.map_values(|s: String| s@) == text_fields(*r),
{
    r.iter().map(|f| f.to_string()).collect()
}

} // verus!
