//! Deterministic file naming: each record owns at most one payload file and
//! one thumbnail file, both named from its identifier, beside the one
//! metadata document.

use vstd::prelude::*;

verus! {

/// The payload file name of a record: its identifier followed by `.blob`.
pub open spec fn blob_name_of(id: Seq<char>) -> Seq<char> {
    id + ".blob"@
}

/// The thumbnail file name of a record: its identifier followed by `.thumb`.
pub open spec fn thumb_name_of(id: Seq<char>) -> Seq<char> {
    id + ".thumb"@
}

/// Builds the payload file name of a record.
pub fn blob_file_name(id: &String) -> (r: String)
    ensures
        r@ == blob_name_of(id@),
{
    id.clone().concat(".blob")
}

/// Builds the thumbnail file name of a record.
pub fn thumb_file_name(id: &String) -> (r: String)
    ensures
        r@ == thumb_name_of(id@),
{
    id.clone().concat(".thumb")
}

/// The name of the one metadata document.
pub fn metadata_file_name() -> (r: String)
    ensures
        r@ == "metadata.json"@,
{
    String::from_str("metadata.json")
}

} // verus!
