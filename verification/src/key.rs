//! The table's partition key and sort key: which field holds each, and
//! the attribute name under which it is stored.

use vstd::prelude::*;
use crate::finder::{
    field_flag, fields_scan_ok, find_partition_key_field, find_rename_value, find_sort_key_field,
    flag_unique, raiden_eq_string,
};
use crate::model::Field;
use crate::rename::{
    create_renamed_defined, rename, rule_applies_to, spec_create_renamed, RenameAllType,
};

verus! {

/// The explicit `#[raiden(rename = "...")]` of a field.
pub open spec fn field_rename(f: Field) -> Option<Seq<char>> {
    raiden_eq_string(f.attrs@, "rename"@)
}

/// The stored attribute name of a field under a `rename_all` rule.
pub open spec fn field_attr_name(f: Field, t: RenameAllType) -> Seq<char> {
    spec_create_renamed(f.ident@, field_rename(f), t)
}

/// The stored attribute name of a field is defined under this rule.
pub open spec fn field_name_defined(f: Field, t: RenameAllType) -> bool {
    create_renamed_defined(f.ident@, field_rename(f), t)
}

/// The key lookup for `name` is defined on these fields: every field can be
/// scanned, at most one carries the marker, and the name of the one that
/// does can be computed.
pub open spec fn key_lookup_ok(fields: Seq<Field>, name: Seq<char>, t: RenameAllType) -> bool {
    &&& fields_scan_ok(fields, name)
    &&& flag_unique(fields, name)
    &&& forall|i: int| 0 <= i < fields.len() && #[trigger] field_flag(fields[i], name)
        ==> field_name_defined(fields[i], t)
}

/// Some field carries the marker `name`.
pub open spec fn has_flagged(fields: Seq<Field>, name: Seq<char>) -> bool {
    exists|i: int| 0 <= i < fields.len() && #[trigger] field_flag(fields[i], name)
}

/// The stored name of a key field: its `rename`, else its name under the
/// rule, else its own name.
pub fn key_name(field: &Field, rename_all_type: RenameAllType) -> (res: String)
    requires
        field_name_defined(*field, rename_all_type),
    ensures
        res@ == field_attr_name(*field, rename_all_type),
{
    let renamed = find_rename_value(field.attrs.as_slice());
    if renamed.is_some() {
        renamed.unwrap()
    } else if rename_all_type != RenameAllType::Unset {
        rename(rename_all_type, field.ident.clone())
    } else {
        field.ident.clone()
    }
}

/// The partition key: its stored name and the index of its field. A model
/// without `#[raiden(partition_key)]` is refused.
pub fn fetch_partition_key(fields: &[Field], rename_all_type: RenameAllType) -> (res: (String, usize))
    requires
        key_lookup_ok(fields@, "partition_key"@, rename_all_type),
        has_flagged(fields@, "partition_key"@),
    ensures
        res.1 < fields@.len(),
        field_flag(fields@[res.1 as int], "partition_key"@),
        res.0@ == field_attr_name(fields@[res.1 as int], rename_all_type),
{
    match find_partition_key_field(fields) {
        Some(i) => (key_name(&fields[i], rename_all_type), i),
        None => {
            assert(false);
            (String::new(), 0)
        },
    }
}

/// The sort key, when a field is marked `#[raiden(sort_key)]`: its stored
/// name and the index of its field.
pub fn fetch_sort_key(fields: &[Field], rename_all_type: RenameAllType) -> (res: Option<(String, usize)>)
    requires
        key_lookup_ok(fields@, "sort_key"@, rename_all_type),
    ensures
        res is None <==> !has_flagged(fields@, "sort_key"@),
        res matches Some(k) ==> {
            &&& k.1 < fields@.len()
            &&& field_flag(fields@[k.1 as int], "sort_key"@)
            &&& k.0@ == field_attr_name(fields@[k.1 as int], rename_all_type)
        },
{
    match find_sort_key_field(fields) {
        Some(i) => Some((key_name(&fields[i], rename_all_type), i)),
        None => None,
    }
}

/// Whether the stored name of a field is defined under a rule.
pub fn field_name_defined_under(field: &Field, rename_all_type: RenameAllType) -> (res: bool)
    ensures
        res == field_name_defined(*field, rename_all_type),
{
    if find_rename_value(field.attrs.as_slice()).is_some() {
        true
    } else {
        rule_applies_to(rename_all_type, field.ident.as_str())
    }
}

/// Whether a text is exactly one identifier token, keywords and raw
/// identifiers included, as `syn` lexes and parses it. It depends on the
/// text alone.
pub uninterp spec fn lexes_as_ident(text: Seq<char>) -> bool;

/// `syn::parse::Parser::parse_str` with `syn::ext::IdentExt::parse_any`:
/// whether the text parses, to its end, as one identifier (keywords and
/// `r#` identifiers included). The contract names the result only; the
/// lexer's rules are not restated. This is the test a key name passes to
/// serve as an identifier in the generated code; `proc_macro2` additionally
/// refuses surrounding whitespace or comments, which the lexer skips, and
/// that difference is not stated.
#[verifier::external_body]
pub(crate) fn is_ident_text(text: &str) -> (res: bool)
    ensures
        res == lexes_as_ident(text@),
{
    syn::parse::Parser::parse_str(<syn::Ident as syn::ext::IdentExt>::parse_any, text).is_ok()
}

/// The position of the field marked `name`.
pub open spec fn marked_index(fields: Seq<Field>, name: Seq<char>) -> int {
    choose|i: int| 0 <= i < fields.len() && #[trigger] field_flag(fields[i], name)
}

/// The stored name of the field marked `name`.
pub open spec fn marked_key_name(fields: Seq<Field>, name: Seq<char>, t: RenameAllType) -> Seq<char> {
    field_attr_name(fields[marked_index(fields, name)], t)
}

/// With a single field marked `name`, that field is the marked one.
pub proof fn lemma_marked_key_name(fields: Seq<Field>, name: Seq<char>, t: RenameAllType, i: int)
    requires
        0 <= i < fields.len(),
        field_flag(fields[i], name),
        flag_unique(fields, name),
    ensures
        marked_index(fields, name) == i,
        marked_key_name(fields, name, t) == field_attr_name(fields[i], t),
{
    let c = marked_index(fields, name);
    assert(0 <= c < fields.len() && field_flag(fields[c], name));
}

} // verus!
