//! Every request is known by an id: one that comes without gets one.

use vstd::prelude::*;

verus! {

/// `Uuid::new_v4` of the crate uuid, written out as text: a random
/// identifier, another with every call. All that is claimed is its
/// length, that of the hyphenated form in which such an identifier is
/// written.
#[verifier::external_body]
fn fresh_id() -> (id: String)
    ensures
        id@.len() == 36,
{
    uuid::Uuid::new_v4().to_string()
}

/// The id that a request is to be given: none where it has one, else
/// `fresh`.
pub fn id_to_add(has_request_id: bool, fresh: String) -> (id: Option<String>)
    ensures
        id == if has_request_id {
            None
        } else {
            Some(fresh)
        },
{
    if has_request_id {
        None
    } else {
        Some(fresh)
    }
}

/// The id that a request is to be given: none where it has one, else a
/// new one.
pub fn request_id_to_add(has_request_id: bool) -> (id: Option<String>)
    ensures
        id is None <==> has_request_id,
        id matches Some(text) ==> text@.len() == 36,
{
    if has_request_id {
        return None;
    }
    id_to_add(false, fresh_id())
}

} // verus!
