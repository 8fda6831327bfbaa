//! The fields of one row of delimited input.

use csv::StringRecord;
use vstd::prelude::*;

verus! {

/// A row as csv reads it, `csv::StringRecord`. Nothing is known of what is
/// inside but through `record_fields`.
#[verifier::external_type_specification]
#[verifier::external_body]
pub struct ExStringRecord(csv::StringRecord);

/// The fields that a row holds, in order, each as its text.
pub uninterp spec fn record_fields(rec: StringRecord) -> Seq<Seq<char>>;

/// Calls `StringRecord::len` of csv. Trusted: the result is the number of
/// fields of the row.
#[verifier::external_body]
pub(crate) fn record_len(rec: &StringRecord) -> (r: usize)
    ensures
        r == record_fields(*rec).len(),
{
    rec.len()
}

/// Calls `StringRecord::get` of csv. Trusted: the result is the text of field
/// `i`, and nothing where the row has no field `i`.
#[verifier::external_body]
pub(crate) fn record_field<'a>(rec: &'a StringRecord, i: usize) -> (r: Option<&'a str>)
    ensures
        match r {
            Some(s) => i < record_fields(*rec).len() && s@ == record_fields(*rec)[i as int],
            None => i >= record_fields(*rec).len(),
        },
{
    rec.get(i)
}

} // verus!
