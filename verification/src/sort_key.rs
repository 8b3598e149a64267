//! The stored name of the sort key alone.

use vstd::prelude::*;
use crate::finder::field_flag;
use crate::key::{field_attr_name, has_flagged, key_lookup_ok};
use crate::model::Field;
use crate::rename::RenameAllType;

verus! {

/// The stored name of the field marked `#[raiden(sort_key)]`, if any.
pub fn fetch_sort_key(fields: &[Field], rename_all_type: RenameAllType) -> (res: Option<String>)
    requires
        key_lookup_ok(fields@, "sort_key"@, rename_all_type),
    ensures
        res is None <==> !has_flagged(fields@, "sort_key"@),
        res matches Some(name) ==> exists|i: int|
            0 <= i < fields@.len() && #[trigger] field_flag(fields@[i], "sort_key"@)
                && name@ == field_attr_name(fields@[i], rename_all_type),
{
    match crate::key::fetch_sort_key(fields, rename_all_type) {
        Some((name, _)) => Some(name),
        None => None,
    }
}

} // verus!
