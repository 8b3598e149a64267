//! The plans of the three derives: every name and choice from which the
//! generated code is emitted, or the reason the input is refused.

use vstd::prelude::*;
use crate::fields::{
    field_plan_defined, is_attr_name_plan_of, is_document_plan_of, is_plan_of, plan_attr_names,
    plan_document_fields, plan_fields, put_input_fields, put_input_mask, required_input_fields,
    required_input_mask, selected, AttrNamePlan, DocumentFieldPlan, FieldPlan,
};
use crate::finder::{
    field_flag, fields_scan_defined, fields_scan_ok, find_gsi_definitions, find_gsi_names,
    find_raiden_eq_string, find_rename_all, find_table_name, flag_unique, flagged_field_indices,
    flagged_indices, gsi_defs_from, gsi_names_from, gsi_view, lemma_flag_unique, lemma_flagged_upto,
    find_lsi_definitions, find_lsi_names, find_serde_value, has_unary, lsi_defs_from, lsi_names_from,
    raiden_eq_string, serde_value_from, unary_scan_defined, unary_scan_ok,
    GsiView,
};
use crate::gsi::{
    gsi_keys_resolvable, gsi_key_condition_methods, gsi_key_condition_methods_for, method_view,
    methods_for_gsis,
    selected_gsis, KeyConditionMethod,
};
use crate::index::{
    auto_gsi_projections, auto_projections_upto, gsi_views, index_methods, index_partition_keys_resolvable,
    index_queries, index_query_methods, index_query_token_names, index_query_tokens, index_query_view,
    is_auto_projection_of, is_index_method_of, projection_query_token, spec_projection_query_token,
    AutoProjection, IndexMethod, IndexQueryMethod,
};
use crate::key::{
    fetch_partition_key, fetch_sort_key, field_attr_name, field_name_defined,
    field_name_defined_under, has_flagged, is_ident_text, key_lookup_ok, lemma_marked_key_name,
    lexes_as_ident, marked_index, marked_key_name,
};
use crate::model::{Attribute, Field, GsiDefinition};
use crate::resolve::{
    first_unresolved, first_unresolved_name, gsis_key_name_list, gsis_key_names, lemma_first_unresolved,
    lemma_gsis_key_names, lemma_partition_key_names, lemma_projection_key_names, partition_key_name_list,
    partition_key_names, projection_key_name_list, projection_key_names,
};
use crate::naming::{attr_name_resolvable, is_first_named, struct_names, StructNames};
use crate::rename::{spec_parse_rule, spec_parse_serde_rule, RenameAllType, SerdeRule};
use crate::text::text_is;

verus! {

/// A derive input: the struct name, its attributes and its named fields.
#[derive(Clone, Debug)]
pub struct DeriveInput {
    pub ident: String,
    pub attrs: Vec<Attribute>,
    pub fields: Vec<Field>,
}

/// Why a derive input is refused.
#[derive(Clone, Debug)]
pub enum DeriveError {
    /// `rename_all` names an unsupported casing.
    UnsupportedRenameAll(String),
    /// A `#[raiden(...)]` list read for a marker holds several arguments.
    NotUnary,
    /// Several fields are marked `partition_key`.
    MultiplePartitionKeys,
    /// No field is marked `partition_key`.
    MissingPartitionKey,
    /// Several fields are marked `sort_key`.
    MultipleSortKeys,
    /// The camelCase rule cannot be applied to a field name.
    RenameUndefined,
    /// The stored name of a table key is not an identifier; the name.
    InvalidKeyName(String),
    /// The partition key of an index names a field the struct does not
    /// have; the key as written.
    UnknownIndexPartitionKey(String),
    /// A key of an index whose key-condition methods are generated names a
    /// field the struct does not have; the key as written.
    UnknownKeyField(String),
    /// A table without a sort key declares a local secondary index; its
    /// name.
    LsiWithoutTableSortKey(String),
    /// A local secondary index names a partition key other than the
    /// table's; its name.
    LsiPartitionKeyMismatch(String),
    /// A local secondary index declares other than exactly one sort key;
    /// its name.
    InvalidLsiSortKey(String),
    /// `RaidenIndex` without `source = "..."`.
    MissingSource,
    /// `RaidenIndex` without an index name.
    MissingGsi,
    /// `RaidenIndex` with several index names.
    TooManyGsis,
    /// The `source` value does not parse as a type.
    InvalidSource(String),
    /// The `source` type is not a path.
    SourceNotPath,
    /// The `source` path has no segment.
    EmptySourcePath,
}

/// The refusals as the specifications see them.
pub enum ErrorView {
    UnsupportedRenameAll(Seq<char>),
    NotUnary,
    MultiplePartitionKeys,
    MissingPartitionKey,
    MultipleSortKeys,
    RenameUndefined,
    InvalidKeyName(Seq<char>),
    UnknownIndexPartitionKey(Seq<char>),
    UnknownKeyField(Seq<char>),
    LsiWithoutTableSortKey(Seq<char>),
    LsiPartitionKeyMismatch(Seq<char>),
    InvalidLsiSortKey(Seq<char>),
    MissingSource,
    MissingGsi,
    TooManyGsis,
    InvalidSource(Seq<char>),
    SourceNotPath,
    EmptySourcePath,
}

/// The view of a refusal.
pub open spec fn error_view(e: DeriveError) -> ErrorView {
    match e {
        DeriveError::UnsupportedRenameAll(s) => ErrorView::UnsupportedRenameAll(s@),
        DeriveError::NotUnary => ErrorView::NotUnary,
        DeriveError::MultiplePartitionKeys => ErrorView::MultiplePartitionKeys,
        DeriveError::MissingPartitionKey => ErrorView::MissingPartitionKey,
        DeriveError::MultipleSortKeys => ErrorView::MultipleSortKeys,
        DeriveError::RenameUndefined => ErrorView::RenameUndefined,
        DeriveError::InvalidKeyName(s) => ErrorView::InvalidKeyName(s@),
        DeriveError::UnknownIndexPartitionKey(s) => ErrorView::UnknownIndexPartitionKey(s@),
        DeriveError::UnknownKeyField(s) => ErrorView::UnknownKeyField(s@),
        DeriveError::LsiWithoutTableSortKey(s) => ErrorView::LsiWithoutTableSortKey(s@),
        DeriveError::LsiPartitionKeyMismatch(s) => ErrorView::LsiPartitionKeyMismatch(s@),
        DeriveError::InvalidLsiSortKey(s) => ErrorView::InvalidLsiSortKey(s@),
        DeriveError::MissingSource => ErrorView::MissingSource,
        DeriveError::MissingGsi => ErrorView::MissingGsi,
        DeriveError::TooManyGsis => ErrorView::TooManyGsis,
        DeriveError::InvalidSource(s) => ErrorView::InvalidSource(s@),
        DeriveError::SourceNotPath => ErrorView::SourceNotPath,
        DeriveError::EmptySourcePath => ErrorView::EmptySourcePath,
    }
}

/// The casing rule of a model: `Unset` without `rename_all`; `None` when
/// the value is not supported.
pub open spec fn spec_rename_rule(attrs: Seq<Attribute>) -> Option<RenameAllType> {
    match raiden_eq_string(attrs, "rename_all"@) {
        None => Some(RenameAllType::Unset),
        Some(v) => spec_parse_rule(v),
    }
}

/// The stored name of every field marked `name` is defined.
pub open spec fn key_names_defined(fields: Seq<Field>, name: Seq<char>, t: RenameAllType) -> bool {
    forall|i: int| 0 <= i < fields.len() && #[trigger] field_flag(fields[i], name)
        ==> field_name_defined(fields[i], t)
}

/// The stored name of every field is defined.
pub open spec fn all_names_defined(fields: Seq<Field>, t: RenameAllType) -> bool {
    forall|i: int| 0 <= i < fields.len() ==> #[trigger] field_name_defined(fields[i], t)
}

/// The index keys the table derive resolves all name fields of the
/// struct: the partition key of every index, and every key of the indexes
/// that get a projection item.
pub open spec fn table_gsi_keys_known(
    fields: Seq<Field>,
    t: RenameAllType,
    defs: Seq<GsiView>,
    projected: Seq<Seq<char>>,
) -> bool {
    &&& index_partition_keys_resolvable(fields, t, defs)
    &&& forall|a: int, k: int| 0 <= a < projected.len() && 0 <= k < defs.len()
        && #[trigger] defs[k].name == #[trigger] projected[a] ==> gsi_keys_resolvable(fields, t, defs[k])
}

/// The name of the field that holds the table's partition key.
pub open spec fn table_pk_field(fields: Seq<Field>) -> Seq<char> {
    fields[marked_index(fields, "partition_key"@)].ident@
}

/// Local secondary indexes as their key-condition methods see them: each
/// declared one with the table's partition key field.
pub open spec fn lsi_effective(defs: Seq<GsiView>, pk: Seq<char>) -> Seq<GsiView> {
    defs.map_values(|d: GsiView| GsiView { name: d.name, partition_key: Some(pk), sort_keys: d.sort_keys })
}

/// The local secondary indexes of a table model.
pub open spec fn table_lsi_views(input: DeriveInput) -> Seq<GsiView> {
    lsi_effective(lsi_defs_from(input.attrs@), table_pk_field(input.fields@))
}

/// Every secondary index of a table model: the global ones, then the
/// local ones.
pub open spec fn table_index_views(input: DeriveInput) -> Seq<GsiView> {
    gsi_defs_from(input.attrs@) + table_lsi_views(input)
}

/// Every secondary index name of a table model: the global ones, then the
/// local ones.
pub open spec fn table_index_names(input: DeriveInput) -> Seq<Seq<char>> {
    gsi_names_from(input.attrs@, Seq::empty()) + lsi_names_from(input.attrs@, Seq::empty())
}

/// The index names of a model that get a projection item.
pub open spec fn projected_gsis(input: DeriveInput) -> Seq<Seq<char>> {
    auto_projections_upto(input.ident@, input.fields@, table_index_views(input), table_index_names(input))
}

/// Why a local secondary index declaration is refused: a `partition_key`
/// other than the table's partition key field, or other than exactly one
/// sort key.
pub open spec fn lsi_def_error(d: GsiView, pk: Seq<char>) -> Option<ErrorView> {
    if d.partition_key is Some && d.partition_key->0 != pk {
        Some(ErrorView::LsiPartitionKeyMismatch(d.name))
    } else if d.sort_keys.len() != 1 {
        Some(ErrorView::InvalidLsiSortKey(d.name))
    } else {
        None
    }
}

/// The first refused declaration of a list, in order.
pub open spec fn lsi_defs_error(defs: Seq<GsiView>, pk: Seq<char>) -> Option<ErrorView>
    decreases defs.len(),
{
    if defs.len() == 0 {
        None
    } else {
        match lsi_def_error(defs[0], pk) {
            Some(e) => Some(e),
            None => lsi_defs_error(defs.drop_first(), pk),
        }
    }
}

/// Why the local secondary indexes of a table are refused: a table
/// without a sort key declares one (the first name is given), or a
/// declaration is refused.
pub open spec fn lsi_error(input: DeriveInput) -> Option<ErrorView> {
    let names = lsi_names_from(input.attrs@, Seq::empty());
    if names.len() > 0 && !has_flagged(input.fields@, "sort_key"@) {
        Some(ErrorView::LsiWithoutTableSortKey(names[0]))
    } else {
        lsi_defs_error(lsi_defs_from(input.attrs@), table_pk_field(input.fields@))
    }
}

/// Reading the fields back, field by field: the `use_default` marker is
/// looked up, then the stored name is computed. The first failure, if any.
pub open spec fn field_read_error(fields: Seq<Field>, t: RenameAllType) -> Option<ErrorView>
    decreases fields.len(),
{
    if fields.len() == 0 {
        None
    } else if !unary_scan_ok(fields[0].attrs@, "use_default"@) {
        Some(ErrorView::NotUnary)
    } else if !field_name_defined(fields[0], t) {
        Some(ErrorView::RenameUndefined)
    } else {
        field_read_error(fields.drop_first(), t)
    }
}

/// The refusals met while the table keys are looked up and the fields are
/// read, in this order, or `None`.
pub open spec fn table_key_error(fields: Seq<Field>, t: RenameAllType) -> Option<ErrorView> {
    if !fields_scan_ok(fields, "partition_key"@) {
        Some(ErrorView::NotUnary)
    } else if !flag_unique(fields, "partition_key"@) {
        Some(ErrorView::MultiplePartitionKeys)
    } else if !has_flagged(fields, "partition_key"@) {
        Some(ErrorView::MissingPartitionKey)
    } else if !key_names_defined(fields, "partition_key"@, t) {
        Some(ErrorView::RenameUndefined)
    } else if !lexes_as_ident(marked_key_name(fields, "partition_key"@, t)) {
        Some(ErrorView::InvalidKeyName(marked_key_name(fields, "partition_key"@, t)))
    } else if !fields_scan_ok(fields, "sort_key"@) {
        Some(ErrorView::NotUnary)
    } else if !flag_unique(fields, "sort_key"@) {
        Some(ErrorView::MultipleSortKeys)
    } else if !key_names_defined(fields, "sort_key"@, t) {
        Some(ErrorView::RenameUndefined)
    } else if has_flagged(fields, "sort_key"@) && !lexes_as_ident(marked_key_name(fields, "sort_key"@, t)) {
        Some(ErrorView::InvalidKeyName(marked_key_name(fields, "sort_key"@, t)))
    } else {
        field_read_error(fields, t)
    }
}

/// Why the table derive refuses an input, checked in this order, or
/// `None` when it accepts it: the `rename_all` value; the table keys and
/// the reading of the fields; the local index declarations; the global
/// index partition keys, in declaration order; the local index sort keys;
/// the `uuid` markers; the keys of the indexes that get a projection item.
pub open spec fn table_error(input: DeriveInput) -> Option<ErrorView> {
    let fields = input.fields@;
    match spec_rename_rule(input.attrs@) {
        None => Some(ErrorView::UnsupportedRenameAll(raiden_eq_string(input.attrs@, "rename_all"@)->0)),
        Some(t) => match table_key_error(fields, t) {
            Some(e) => Some(e),
            None => match lsi_error(input) {
                Some(e) => Some(e),
                None => match first_unresolved(fields, t, partition_key_names(gsi_defs_from(input.attrs@))) {
                    Some(n) => Some(ErrorView::UnknownIndexPartitionKey(n)),
                    None => match first_unresolved(fields, t, gsis_key_names(table_lsi_views(input))) {
                        Some(n) => Some(ErrorView::UnknownKeyField(n)),
                        None => if !fields_scan_ok(fields, "uuid"@) {
                            Some(ErrorView::NotUnary)
                        } else {
                            match first_unresolved(
                                fields,
                                t,
                                projection_key_names(table_index_views(input), projected_gsis(input)),
                            ) {
                                Some(n) => Some(ErrorView::UnknownKeyField(n)),
                                None => None,
                            }
                        },
                    },
                },
            },
        },
    }
}

/// Reading the fields fails nowhere exactly when every stored name is
/// defined and every `use_default` lookup is.
pub proof fn lemma_field_read_error(fields: Seq<Field>, t: RenameAllType)
    ensures
        field_read_error(fields, t) is None <==> all_names_defined(fields, t) && fields_scan_ok(fields, "use_default"@),
        field_read_error(fields, t) matches Some(e) ==> e == ErrorView::NotUnary || e == ErrorView::RenameUndefined,
    decreases fields.len(),
{
    if fields.len() > 0 {
        let rest = fields.drop_first();
        lemma_field_read_error(rest, t);
        if all_names_defined(fields, t) && fields_scan_ok(fields, "use_default"@) {
            assert forall|i: int| 0 <= i < rest.len() implies #[trigger] field_name_defined(rest[i], t) by {
                assert(rest[i] == fields[i + 1]);
            }
            assert forall|i: int| 0 <= i < rest.len() implies #[trigger] unary_scan_ok(rest[i].attrs@, "use_default"@) by {
                assert(rest[i] == fields[i + 1]);
            }
            assert(unary_scan_ok(fields[0].attrs@, "use_default"@));
            assert(field_name_defined(fields[0], t));
        }
        if field_read_error(fields, t) is None {
            assert(unary_scan_ok(fields[0].attrs@, "use_default"@));
            assert(field_name_defined(fields[0], t));
            assert(field_read_error(rest, t) is None);
            assert forall|i: int| 0 <= i < fields.len() implies #[trigger] field_name_defined(fields[i], t) by {
                if i > 0 {
                    assert(fields[i] == rest[i - 1]);
                }
            }
            assert(fields_scan_ok(rest, "use_default"@));
            assert forall|i: int| 0 <= i < fields.len() implies #[trigger] unary_scan_ok(fields[i].attrs@, "use_default"@) by {
                if i > 0 {
                    assert(fields[i] == rest[i - 1]);
                    assert(unary_scan_ok(rest[i - 1].attrs@, "use_default"@));
                }
            }
        }
    }
}

/// Reads the fields back in order and returns the first refusal met.
fn field_read_check(fields: &[Field], t: RenameAllType) -> (res: Option<DeriveError>)
    ensures
        match res {
            Some(e) => field_read_error(fields@, t) == Some(error_view(e)),
            None => field_read_error(fields@, t) is None,
        },
{
    let n = fields.len();
    let mut i: usize = 0;
    assert(fields@.skip(0) =~= fields@);
    while i < n
        invariant
            n == fields@.len(),
            i <= n,
            field_read_error(fields@.skip(i as int), t) == field_read_error(fields@, t),
        decreases n - i,
    {
        assert(fields@.skip(i as int).drop_first() =~= fields@.skip(i + 1));
        assert(fields@.skip(i as int)[0] == fields@[i as int]);
        if !unary_scan_defined(fields[i].attrs.as_slice(), "use_default") {
            return Some(DeriveError::NotUnary);
        }
        if !field_name_defined_under(&fields[i], t) {
            return Some(DeriveError::RenameUndefined);
        }
        i = i + 1;
    }
    assert(fields@.skip(n as int) =~= Seq::<Field>::empty());
    None
}

/// Whether the stored name of the field named `name` can be resolved.
pub fn attr_name_resolvable_check(fields: &[Field], name: &str, t: RenameAllType) -> (res: bool)
    ensures
        res == attr_name_resolvable(fields@, name@, t),
{
    let n = fields.len();
    let mut i: usize = 0;
    while i < n
        invariant
            n == fields@.len(),
            i <= n,
            forall|j: int| 0 <= j < i ==> fields@[j].ident@ != name@,
        decreases n - i,
    {
        if text_is(&fields[i].ident, name) {
            assert(is_first_named(fields@, name@, i as int));
            assert forall|k: int| #[trigger] is_first_named(fields@, name@, k) implies k == i as int by {
                if k < i as int {
                    assert(fields@[k].ident@ != name@);
                } else if k > i as int {
                    assert(fields@[i as int].ident@ != name@);
                }
            }
            return field_name_defined_under(&fields[i], t);
        }
        i = i + 1;
    }
    false
}

/// Whether the stored names of the fields marked `name` are defined.
fn key_names_check(fields: &[Field], name: &str, t: RenameAllType) -> (res: bool)
    requires
        fields_scan_ok(fields@, name@),
    ensures
        res == key_names_defined(fields@, name@, t),
{
    let ks = flagged_field_indices(fields, name);
    let total = fields.len();
    proof {
        lemma_flagged_upto(fields@, name@, fields@.len());
    }
    let n = ks.len();
    let mut i: usize = 0;
    while i < n
        invariant
            n == ks@.len(),
            total == fields@.len(),
            ks@ == flagged_indices(fields@, name@),
            i <= n,
            forall|k: int| 0 <= k < ks@.len() ==> #[trigger] ks@[k] < total
                && field_flag(fields@[ks@[k] as int], name@),
            forall|j: int| 0 <= j < total && #[trigger] field_flag(fields@[j], name@) ==> ks@.contains(j as usize),
            forall|k: int| 0 <= k < i ==> field_name_defined(fields@[#[trigger] ks@[k] as int], t),
        decreases n - i,
    {
        let at = ks[i];
        assert(ks@[i as int] == at);
        if !field_name_defined_under(&fields[at], t) {
            return false;
        }
        i = i + 1;
    }
    assert forall|j: int| 0 <= j < fields@.len() && #[trigger] field_flag(fields@[j], name@)
        implies field_name_defined(fields@[j], t) by {
        let k = choose|k: int| 0 <= k < ks@.len() && ks@[k] == j as usize;
        assert(field_name_defined(fields@[ks@[k] as int], t));
    }
    true
}

/// Whether every field has a defined stored name.
fn all_names_check(fields: &[Field], t: RenameAllType) -> (res: bool)
    ensures
        res == all_names_defined(fields@, t),
{
    let n = fields.len();
    let mut i: usize = 0;
    while i < n
        invariant
            n == fields@.len(),
            i <= n,
            forall|j: int| 0 <= j < i ==> #[trigger] field_name_defined(fields@[j], t),
        decreases n - i,
    {
        if !field_name_defined_under(&fields[i], t) {
            return false;
        }
        i = i + 1;
    }
    true
}

/// Whether the marker lookup for `name` is defined and finds at most one
/// field; `Err` tells which of the two fails.
fn marker_key_check(fields: &[Field], name: &str) -> (res: Result<bool, ()>)
    ensures
        res is Err <==> !fields_scan_ok(fields@, name@),
        res matches Ok(unique) ==> unique == flag_unique(fields@, name@),
{
    if !fields_scan_defined(fields, name) {
        return Err(());
    }
    let ks = flagged_field_indices(fields, name);
    let n = fields.len();
    proof {
        assert(fields@.len() == n);
        lemma_flag_unique(fields@, name@);
    }
    Ok(ks.len() <= 1)
}

/// Whether some field carries the marker `name`.
fn marker_present(fields: &[Field], name: &str) -> (res: bool)
    requires
        fields_scan_ok(fields@, name@),
    ensures
        res == has_flagged(fields@, name@),
{
    let ks = flagged_field_indices(fields, name);
    let n = fields.len();
    proof {
        assert(fields@.len() == n);
        lemma_flagged_upto(fields@, name@, fields@.len());
    }
    if ks.len() > 0 {
        assert(field_flag(fields@[ks@[0] as int], name@));
        true
    } else {
        assert forall|i: int| 0 <= i < fields@.len() implies !#[trigger] field_flag(fields@[i], name@) by {
            if field_flag(fields@[i], name@) {
                assert(ks@.contains(i as usize));
            }
        }
        false
    }
}

/// The casing rule of a model, or the unsupported `rename_all` value.
pub fn rename_rule(attrs: &[Attribute]) -> (res: Result<RenameAllType, String>)
    ensures
        match res {
            Ok(t) => spec_rename_rule(attrs@) == Some(t),
            Err(v) => spec_rename_rule(attrs@) is None && raiden_eq_string(attrs@, "rename_all"@) == Some(v@),
        },
{
    match find_rename_all(attrs) {
        None => Ok(RenameAllType::Unset),
        Some(v) => match RenameAllType::parse(v.as_str()) {
            Some(t) => Ok(t),
            None => Err(v),
        },
    }
}

/// The projection item of one index together with its query entry token
/// and its typed key-condition methods.
#[derive(Clone, Debug)]
pub struct ProjectionPlan {
    pub item: AutoProjection,
    /// The token the item's `query` starts with.
    pub query_token: String,
    /// The key-condition methods generated on the item for the indexes of
    /// that name.
    pub gsi_methods: Vec<KeyConditionMethod>,
}

/// Everything the table derive emits from.
pub struct TableModelPlan {
    pub names: StructNames,
    pub table_name: String,
    pub rename_all: RenameAllType,
    pub gsi_names: Vec<String>,
    pub gsi_definitions: Vec<GsiDefinition>,
    /// The partition key's stored name and field position.
    pub partition_key: (String, usize),
    /// The sort key's stored name and field position, if any.
    pub sort_key: Option<(String, usize)>,
    /// The token that follows the table partition-key condition.
    pub partition_next_token: String,
    pub fields: Vec<FieldPlan>,
    /// Which fields are marked `#[raiden(uuid)]`.
    pub uuid_fields: Vec<bool>,
    pub attr_names: Vec<AttrNamePlan>,
    pub put_input_fields: Vec<usize>,
    pub required_input_fields: Vec<usize>,
    pub index_methods: Vec<IndexMethod>,
    pub index_queries: Vec<IndexQueryMethod>,
    pub index_query_tokens: Vec<String>,
    pub projections: Vec<ProjectionPlan>,
    /// The local secondary index names.
    pub lsi_names: Vec<String>,
    /// The local secondary indexes, with the table's partition key field.
    pub lsi_definitions: Vec<GsiDefinition>,
    /// The index-selection methods of the local secondary indexes.
    pub lsi_index_methods: Vec<IndexMethod>,
    /// The typed key-condition methods of the local secondary indexes,
    /// generated on the model.
    pub lsi_methods: Vec<KeyConditionMethod>,
}

/// `p` is the plan of the projection item of index `name` of `input`.
pub open spec fn is_projection_plan_of(p: ProjectionPlan, input: DeriveInput, t: RenameAllType, name: Seq<char>) -> bool {
    let views = table_index_views(input);
    &&& is_auto_projection_of(p.item, input.ident@, input.fields@, views, name)
    &&& p.query_token@ == spec_projection_query_token(input.ident@, name, views)
    &&& p.gsi_methods@.map_values(|m: KeyConditionMethod| method_view(m)) == methods_for_gsis(
        input.ident@,
        input.fields@,
        t,
        p.item.definitions@.map_values(|k: usize| views[k as int]),
    )
}

/// `p` is the table plan of an accepted `input`.
pub open spec fn is_table_plan_of(p: TableModelPlan, input: DeriveInput) -> bool {
    let t = spec_rename_rule(input.attrs@)->0;
    let fields = input.fields@;
    let views = gsi_defs_from(input.attrs@);
    let gsi_names = gsi_names_from(input.attrs@, Seq::empty());
    &&& crate::naming::is_struct_names_of(p.names, input.ident@)
    &&& fields.len() <= usize::MAX
    &&& p.table_name@ == match raiden_eq_string(input.attrs@, "table_name"@) {
        Some(n) => n,
        None => input.ident@,
    }
    &&& p.rename_all == t
    &&& p.gsi_names@.map_values(|s: String| s@) == gsi_names
    &&& gsi_views(p.gsi_definitions@) == views
    &&& p.partition_key.1 < fields.len()
    &&& field_flag(fields[p.partition_key.1 as int], "partition_key"@)
    &&& p.partition_key.0@ == field_attr_name(fields[p.partition_key.1 as int], t)
    &&& (p.sort_key is None <==> !has_flagged(fields, "sort_key"@))
    &&& (p.sort_key matches Some(k) ==> {
        &&& k.1 < fields.len()
        &&& field_flag(fields[k.1 as int], "sort_key"@)
        &&& k.0@ == field_attr_name(fields[k.1 as int], t)
    })
    &&& p.partition_next_token == if p.sort_key is Some {
        p.names.table_sort_key_condition_token
    } else {
        p.names.table_terminal_key_condition_token
    }
    &&& p.fields@.len() == fields.len()
    &&& (forall|i: int| 0 <= i < fields.len() ==> #[trigger] is_plan_of(p.fields@[i], fields[i], t))
    &&& p.attr_names@.len() == fields.len()
    &&& (forall|i: int| 0 <= i < fields.len() ==> #[trigger] is_attr_name_plan_of(p.attr_names@[i], fields[i], t))
    &&& p.uuid_fields@.len() == fields.len()
    &&& (forall|i: int| 0 <= i < fields.len() ==> #[trigger] p.uuid_fields@[i] == has_unary(fields[i].attrs@, "uuid"@))
    &&& p.put_input_fields@ == selected(put_input_mask(p.uuid_fields@))
    &&& p.required_input_fields@ == selected(required_input_mask(p.uuid_fields@, p.fields@))
    &&& p.index_methods@.len() == gsi_names.len()
    &&& (forall|i: int| 0 <= i < gsi_names.len() ==> #[trigger] is_index_method_of(
        p.index_methods@[i],
        input.ident@,
        views,
        gsi_names[i],
    ))
    &&& p.index_queries@.map_values(|m: IndexQueryMethod| index_query_view(m))
        == index_queries(input.ident@, fields, t, views)
    &&& p.index_query_tokens@.map_values(|s: String| s@) == index_query_tokens(input.ident@, views)
    &&& p.projections@.map_values(|q: ProjectionPlan| q.item.gsi_name@) == projected_gsis(input)
    &&& p.lsi_names@.map_values(|s: String| s@) == lsi_names_from(input.attrs@, Seq::empty())
    &&& gsi_views(p.lsi_definitions@) == table_lsi_views(input)
    &&& p.lsi_index_methods@.len() == p.lsi_names@.len()
    &&& (forall|i: int| 0 <= i < p.lsi_names@.len() ==> #[trigger] is_index_method_of(
        p.lsi_index_methods@[i],
        input.ident@,
        table_lsi_views(input),
        p.lsi_names@[i]@,
    ))
    &&& p.lsi_methods@.map_values(|m: KeyConditionMethod| method_view(m))
        == methods_for_gsis(input.ident@, fields, t, table_lsi_views(input))
    &&& (forall|k: int| 0 <= k < p.projections@.len() ==> #[trigger] is_projection_plan_of(
        p.projections@[k],
        input,
        t,
        p.projections@[k].item.gsi_name@,
    ))
}

/// The first refusal met while the table keys are looked up and the
/// fields are read.
fn table_check(fields: &[Field], t: RenameAllType) -> (res: Option<DeriveError>)
    ensures
        match res {
            Some(e) => table_key_error(fields@, t) == Some(error_view(e)),
            None => table_key_error(fields@, t) is None,
        },
        res is None ==> {
            &&& key_lookup_ok(fields@, "partition_key"@, t)
            &&& has_flagged(fields@, "partition_key"@)
            &&& key_lookup_ok(fields@, "sort_key"@, t)
            &&& all_names_defined(fields@, t)
            &&& fields_scan_ok(fields@, "use_default"@)
        },
{
    match marker_key_check(fields, "partition_key") {
        Err(()) => return Some(DeriveError::NotUnary),
        Ok(false) => return Some(DeriveError::MultiplePartitionKeys),
        Ok(true) => {},
    }
    if !marker_present(fields, "partition_key") {
        return Some(DeriveError::MissingPartitionKey);
    }
    if !key_names_check(fields, "partition_key", t) {
        return Some(DeriveError::RenameUndefined);
    }
    let pk = fetch_partition_key(fields, t);
    proof {
        lemma_marked_key_name(fields@, "partition_key"@, t, pk.1 as int);
    }
    if !is_ident_text(pk.0.as_str()) {
        return Some(DeriveError::InvalidKeyName(pk.0));
    }
    match marker_key_check(fields, "sort_key") {
        Err(()) => return Some(DeriveError::NotUnary),
        Ok(false) => return Some(DeriveError::MultipleSortKeys),
        Ok(true) => {},
    }
    if !key_names_check(fields, "sort_key", t) {
        return Some(DeriveError::RenameUndefined);
    }
    match fetch_sort_key(fields, t) {
        Some(sk) => {
            proof {
                lemma_marked_key_name(fields@, "sort_key"@, t, sk.1 as int);
            }
            if !is_ident_text(sk.0.as_str()) {
                return Some(DeriveError::InvalidKeyName(sk.0));
            }
        },
        None => {},
    }
    proof {
        lemma_field_read_error(fields@, t);
    }
    field_read_check(fields, t)
}

/// A copy of a list of strings.
fn copy_strings(v: &Vec<String>) -> (res: Vec<String>)
    ensures
        res@.len() == v@.len(),
        forall|i: int| 0 <= i < v@.len() ==> #[trigger] res@[i]@ == v@[i]@,
        res@.map_values(|s: String| s@) == v@.map_values(|s: String| s@),
{
    let n = v.len();
    let mut res: Vec<String> = Vec::new();
    let mut i: usize = 0;
    while i < n
        invariant
            n == v@.len(),
            i <= n,
            res@.len() == i,
            forall|j: int| 0 <= j < i ==> #[trigger] res@[j]@ == v@[j]@,
        decreases n - i,
    {
        res.push(v[i].clone());
        i = i + 1;
    }
    assert(res@.map_values(|s: String| s@) =~= v@.map_values(|s: String| s@));
    res
}

/// A copy of an index declaration.
fn copy_definition(d: &GsiDefinition) -> (res: GsiDefinition)
    ensures
        gsi_view(res) == gsi_view(*d),
{
    let partition_key = match &d.partition_key {
        Some(p) => Some(p.clone()),
        None => None,
    };
    let res = GsiDefinition { name: d.name.clone(), partition_key, sort_keys: copy_strings(&d.sort_keys) };
    assert(gsi_view(res).sort_keys =~= gsi_view(*d).sort_keys);
    res
}

/// A copy of a list of index declarations.
fn copy_definitions(v: &Vec<GsiDefinition>) -> (res: Vec<GsiDefinition>)
    ensures
        gsi_views(res@) == gsi_views(v@),
{
    let n = v.len();
    let mut res: Vec<GsiDefinition> = Vec::new();
    let mut i: usize = 0;
    while i < n
        invariant
            n == v@.len(),
            i <= n,
            res@.len() == i,
            forall|j: int| 0 <= j < i ==> #[trigger] gsi_view(res@[j]) == gsi_view(v@[j]),
        decreases n - i,
    {
        res.push(copy_definition(&v[i]));
        i = i + 1;
    }
    assert(gsi_views(res@) =~= gsi_views(v@));
    res
}

/// The local secondary indexes of a table, each with the table's
/// partition key field `pk`, or the first declaration refused.
fn effective_lsis(lsis: &Vec<GsiDefinition>, pk: &String) -> (res: Result<Vec<GsiDefinition>, DeriveError>)
    ensures
        match res {
            Ok(v) => lsi_defs_error(gsi_views(lsis@), pk@) is None
                && gsi_views(v@) == lsi_effective(gsi_views(lsis@), pk@),
            Err(e) => lsi_defs_error(gsi_views(lsis@), pk@) == Some(error_view(e)),
        },
{
    let ghost views = gsi_views(lsis@);
    let n = lsis.len();
    let mut out: Vec<GsiDefinition> = Vec::new();
    let mut i: usize = 0;
    assert(views.skip(0) =~= views);
    while i < n
        invariant
            n == lsis@.len(),
            views == gsi_views(lsis@),
            i <= n,
            lsi_defs_error(views.skip(i as int), pk@) == lsi_defs_error(views, pk@),
            out@.len() == i,
            forall|j: int| 0 <= j < i ==> #[trigger] gsi_view(out@[j]) == (GsiView {
                name: views[j].name,
                partition_key: Some(pk@),
                sort_keys: views[j].sort_keys,
            }),
        decreases n - i,
    {
        assert(views.skip(i as int).drop_first() =~= views.skip(i + 1));
        assert(views.skip(i as int)[0] == views[i as int]);
        assert(views[i as int] == gsi_view(lsis@[i as int]));
        let d = &lsis[i];
        match &d.partition_key {
            Some(p) => {
                if !text_is(p, pk.as_str()) {
                    return Err(DeriveError::LsiPartitionKeyMismatch(d.name.clone()));
                }
            },
            None => {},
        }
        if d.sort_keys.len() != 1 {
            return Err(DeriveError::InvalidLsiSortKey(d.name.clone()));
        }
        let sort_keys = copy_strings(&d.sort_keys);
        let e = GsiDefinition { name: d.name.clone(), partition_key: Some(pk.clone()), sort_keys };
        assert(gsi_view(e).sort_keys =~= views[i as int].sort_keys);
        out.push(e);
        i = i + 1;
    }
    assert(views.skip(n as int) =~= Seq::<GsiView>::empty());
    assert(gsi_views(out@) =~= lsi_effective(views, pk@));
    Ok(out)
}

/// The plan of the table derive `#[derive(Raiden)]`, or the reason the
/// input is refused.
pub fn plan_table_model(input: &DeriveInput) -> (res: Result<TableModelPlan, DeriveError>)
    ensures
        match res {
            Ok(p) => table_error(*input) is None && is_table_plan_of(p, *input),
            Err(e) => table_error(*input) == Some(error_view(e)),
        },
{
    let attrs = input.attrs.as_slice();
    let fields = input.fields.as_slice();
    let field_count = fields.len();
    assert(input.fields@.len() == field_count);
    let t = match rename_rule(attrs) {
        Ok(t) => t,
        Err(v) => return Err(DeriveError::UnsupportedRenameAll(v)),
    };
    match table_check(fields, t) {
        Some(e) => return Err(e),
        None => {},
    }
    let names = struct_names(input.ident.as_str());
    let table_name = match find_table_name(attrs) {
        Some(n) => n,
        None => input.ident.clone(),
    };
    let partition_key = fetch_partition_key(fields, t);
    let sort_key = fetch_sort_key(fields, t);
    proof {
        lemma_marked_key_name(fields@, "partition_key"@, t, partition_key.1 as int);
    }
    let pk_field = fields[partition_key.1].ident.clone();
    assert(pk_field@ == table_pk_field(input.fields@));
    let lsi_names = find_lsi_names(attrs);
    if lsi_names.len() > 0 && sort_key.is_none() {
        return Err(DeriveError::LsiWithoutTableSortKey(lsi_names[0].clone()));
    }
    let lsi_written = find_lsi_definitions(attrs);
    let lsi_definitions = match effective_lsis(&lsi_written, &pk_field) {
        Ok(v) => v,
        Err(e) => return Err(e),
    };
    let ghost lviews = table_lsi_views(*input);
    assert(gsi_views(lsi_definitions@) == lviews);
    let gsi_names = find_gsi_names(attrs);
    let gsi_definitions = find_gsi_definitions(attrs);
    let ghost gviews = gsi_defs_from(input.attrs@);
    assert(gsi_views(gsi_definitions@) == gviews);
    let pk_names = partition_key_name_list(gsi_definitions.as_slice());
    match first_unresolved_name(fields, t, &pk_names) {
        Some(n) => return Err(DeriveError::UnknownIndexPartitionKey(n)),
        None => {},
    }
    let lsi_key_names = gsis_key_name_list(lsi_definitions.as_slice());
    match first_unresolved_name(fields, t, &lsi_key_names) {
        Some(n) => return Err(DeriveError::UnknownKeyField(n)),
        None => {},
    }
    if !fields_scan_defined(fields, "uuid") {
        return Err(DeriveError::NotUnary);
    }
    let mut all_names = copy_strings(&gsi_names);
    let mut lsi_names_copy = copy_strings(&lsi_names);
    all_names.append(&mut lsi_names_copy);
    let mut gsi_definitions_copy = copy_definitions(&gsi_definitions);
    let mut lsi_definitions_copy = copy_definitions(&lsi_definitions);
    gsi_definitions_copy.append(&mut lsi_definitions_copy);
    let all_defs = gsi_definitions_copy;
    let ghost views = table_index_views(*input);
    assert(gsi_views(all_defs@) =~= views);
    assert(all_names@.map_values(|s: String| s@) =~= table_index_names(*input));
    let projections_found = auto_gsi_projections(
        input.ident.as_str(),
        fields,
        all_names.as_slice(),
        all_defs.as_slice(),
    );
    let key_names = projection_key_name_list(all_defs.as_slice(), projections_found.as_slice());
    match first_unresolved_name(fields, t, &key_names) {
        Some(n) => return Err(DeriveError::UnknownKeyField(n)),
        None => {},
    }
    proof {
        let projected = projections_found@.map_values(|p: AutoProjection| p.gsi_name@);
        lemma_first_unresolved(fields@, t, partition_key_names(gviews));
        lemma_partition_key_names(fields@, t, gviews);
        lemma_first_unresolved(fields@, t, gsis_key_names(lviews));
        lemma_gsis_key_names(fields@, t, lviews);
        lemma_first_unresolved(fields@, t, projection_key_names(views, projected));
        lemma_projection_key_names(fields@, t, views, projected);
        assert forall|k: int| 0 <= k < views.len() && (#[trigger] views[k]).partition_key is Some implies
            attr_name_resolvable(fields@, views[k].partition_key->0, t) by {
            if k < gviews.len() {
                assert(views[k] == gviews[k]);
            } else {
                assert(views[k] == lviews[k - gviews.len()]);
                assert(gsi_keys_resolvable(fields@, t, lviews[k - gviews.len()]));
            }
        }
        assert(table_gsi_keys_known(fields@, t, views, projected));
        assert forall|k: int| 0 <= k < lsi_definitions@.len() implies
            #[trigger] gsi_keys_resolvable(fields@, t, gsi_view(lsi_definitions@[k])) by {
            assert(gsi_view(lsi_definitions@[k]) == lviews[k]);
        }
    }
    let partition_next_token = if sort_key.is_some() {
        names.table_sort_key_condition_token.clone()
    } else {
        names.table_terminal_key_condition_token.clone()
    };
    proof {
        assert forall|i: int| 0 <= i < fields@.len() implies #[trigger] field_plan_defined(fields@[i], t) by {
            assert(field_name_defined(fields@[i], t));
            assert(crate::finder::unary_scan_ok(fields@[i].attrs@, "use_default"@));
        }
    }
    let field_plans = plan_fields(fields, t);
    let attr_names = plan_attr_names(fields, t);
    let uuid = crate::fields::uuid_flags(fields);
    let put_fields = put_input_fields(&uuid);
    let required = required_input_fields(&uuid, &field_plans);
    let methods = index_methods(input.ident.as_str(), gsi_names.as_slice(), gsi_definitions.as_slice());
    let lsi_index_methods = index_methods(input.ident.as_str(), lsi_names.as_slice(), lsi_definitions.as_slice());
    let lsi_methods = gsi_key_condition_methods(input.ident.as_str(), fields, t, lsi_definitions.as_slice());
    let queries = index_query_methods(input.ident.as_str(), fields, t, gsi_definitions.as_slice());
    let tokens = index_query_token_names(input.ident.as_str(), gsi_definitions.as_slice());
    let mut projections: Vec<ProjectionPlan> = Vec::new();
    let ghost projected = projections_found@.map_values(|q: AutoProjection| q.gsi_name@);
    let n = projections_found.len();
    let ndefs = all_defs.len();
    let mut items = projections_found;
    let mut k: usize = 0;
    while k < n
        invariant
            n == items@.len() + k,
            projections@.len() == k,
            k <= n,
            table_gsi_keys_known(fields@, t, views, projected),
            projected.len() == n,
            forall|j: int| 0 <= j < items@.len() ==> #[trigger] items@[j].gsi_name@ == projected[k + j],
            forall|j: int| 0 <= j < items@.len() ==> is_auto_projection_of(
                #[trigger] items@[j],
                input.ident@,
                fields@,
                views,
                items@[j].gsi_name@,
            ),
            forall|j: int| 0 <= j < k ==> #[trigger] projections@[j].item.gsi_name@ == projected[j],
            forall|j: int| 0 <= j < k ==> #[trigger] is_projection_plan_of(
                projections@[j],
                *input,
                t,
                projections@[j].item.gsi_name@,
            ),
            gsi_views(all_defs@) == views,
            ndefs == all_defs@.len(),
            views == table_index_views(*input),
            fields@ == input.fields@,
            key_lookup_ok(input.fields@, "partition_key"@, t),
        decreases n - k,
    {
        let item = items.remove(0);
        let ghost name = item.gsi_name@;
        assert(name == projected[k as int]);
        let query_token = projection_query_token(input.ident.as_str(), item.gsi_name.as_str(), all_defs.as_slice());
        proof {
            crate::fields::lemma_selected_upto(
                crate::index::named_mask(views, name),
                crate::index::named_mask(views, name).len(),
            );
            assert forall|j: int| 0 <= j < item.definitions@.len() implies
                #[trigger] item.definitions@[j] < all_defs@.len() && gsi_keys_resolvable(
                    fields@,
                    t,
                    gsi_view(all_defs@[item.definitions@[j] as int]),
                ) by {
                let at = item.definitions@[j] as int;
                assert(crate::index::named_mask(views, name)[at]);
                assert(views[at].name == name);
                assert(views[at] == gsi_view(all_defs@[at]));
                assert(views[at].name == projected[k as int]);
            }
        }
        let gsi_methods = gsi_key_condition_methods_for(
            input.ident.as_str(),
            fields,
            t,
            all_defs.as_slice(),
            &item.definitions,
        );
        proof {
            assert(selected_gsis(all_defs@, item.definitions@)
                =~= item.definitions@.map_values(|k: usize| views[k as int]));
        }
        let plan = ProjectionPlan { item, query_token, gsi_methods };
        projections.push(plan);
        k = k + 1;
    }
    assert(projections@.map_values(|q: ProjectionPlan| q.item.gsi_name@) =~= projected);
    Ok(TableModelPlan {
        names,
        table_name,
        rename_all: t,
        gsi_names,
        gsi_definitions,
        partition_key,
        sort_key,
        partition_next_token,
        fields: field_plans,
        uuid_fields: uuid,
        attr_names,
        put_input_fields: put_fields,
        required_input_fields: required,
        index_methods: methods,
        index_queries: queries,
        index_query_tokens: tokens,
        projections,
        lsi_names,
        lsi_definitions,
        lsi_index_methods,
        lsi_methods,
    })
}

/// What `syn` makes of a type written as text: `None` when it does not
/// parse as a type, `Some(None)` when it parses as a type other than a
/// path, and otherwise the identifiers of the path's segments. The parse
/// depends on the text alone.
pub uninterp spec fn parsed_type_path(text: Seq<char>) -> Option<Option<Seq<Seq<char>>>>;

/// The view of a parsed type path.
pub open spec fn type_path_view(r: Option<Option<Vec<String>>>) -> Option<Option<Seq<Seq<char>>>> {
    match r {
        None => None,
        Some(None) => Some(None),
        Some(Some(v)) => Some(Some(v@.map_values(|s: String| s@))),
    }
}

/// `syn::parse_str::<syn::Type>` on the `source` of a `RaidenIndex`,
/// reduced to the segment identifiers of a path type. The contract names
/// the result only; Rust's type grammar is not restated.
#[verifier::external_body]
fn parse_type_path(text: &str) -> (res: Option<Option<Vec<String>>>)
    ensures
        type_path_view(res) == parsed_type_path(text@),
{
    match syn::parse_str::<syn::Type>(text) {
        Err(_) => None,
        Ok(syn::Type::Path(p)) => Some(Some(p.path.segments.iter().map(|s| s.ident.to_string()).collect())),
        Ok(_) => Some(None),
    }
}

/// The index names a `RaidenIndex` declares: the global ones, then the
/// local ones.
pub open spec fn index_gsi_names(input: DeriveInput) -> Seq<Seq<char>> {
    gsi_names_from(input.attrs@, Seq::empty()) + lsi_names_from(input.attrs@, Seq::empty())
}

/// The index declarations of a `RaidenIndex`, as written: the global ones,
/// then the local ones.
pub open spec fn index_views(input: DeriveInput) -> Seq<GsiView> {
    gsi_defs_from(input.attrs@) + lsi_defs_from(input.attrs@)
}

/// All index keys of the declarations can be resolved.
pub open spec fn all_gsi_keys_known(fields: Seq<Field>, t: RenameAllType, defs: Seq<GsiView>) -> bool {
    forall|k: int| 0 <= k < defs.len() ==> #[trigger] gsi_keys_resolvable(fields, t, defs[k])
}

/// Why the `RaidenIndex` derive refuses an input, checked in this order,
/// or `None` when it accepts it.
pub open spec fn index_error(input: DeriveInput) -> Option<ErrorView> {
    let source = raiden_eq_string(input.attrs@, "source"@);
    let names = index_gsi_names(input);
    if source is None {
        Some(ErrorView::MissingSource)
    } else if names.len() == 0 {
        Some(ErrorView::MissingGsi)
    } else if names.len() > 1 {
        Some(ErrorView::TooManyGsis)
    } else {
        match spec_rename_rule(input.attrs@) {
            None => Some(ErrorView::UnsupportedRenameAll(raiden_eq_string(input.attrs@, "rename_all"@)->0)),
            Some(t) => match parsed_type_path(source->0) {
                None => Some(ErrorView::InvalidSource(source->0)),
                Some(None) => Some(ErrorView::SourceNotPath),
                Some(Some(segs)) => if segs.len() == 0 {
                    Some(ErrorView::EmptySourcePath)
                } else if !all_names_defined(input.fields@, t) {
                    Some(ErrorView::RenameUndefined)
                } else if !fields_scan_ok(input.fields@, "use_default"@) {
                    Some(ErrorView::NotUnary)
                } else if first_unresolved(input.fields@, t, gsis_key_names(index_views(input))) is Some {
                    Some(ErrorView::UnknownKeyField(
                        first_unresolved(input.fields@, t, gsis_key_names(index_views(input)))->0,
                    ))
                } else {
                    None
                },
            },
        }
    }
}

/// Everything the `RaidenIndex` derive emits from.
#[derive(Clone, Debug)]
pub struct IndexModelPlan {
    /// The index the projection reads.
    pub gsi_name: String,
    pub rename_all: RenameAllType,
    /// The `source` type as written.
    pub source_type: String,
    /// The last segment of the source path: the source struct name.
    pub source_ident: String,
    pub source_names: StructNames,
    /// The token the projection's `query` starts with.
    pub query_token: String,
    pub fields: Vec<FieldPlan>,
    pub gsi_definitions: Vec<GsiDefinition>,
    /// The key-condition methods generated on the projection.
    pub gsi_methods: Vec<KeyConditionMethod>,
}

/// `p` is the plan of an accepted `RaidenIndex` input.
pub open spec fn is_index_plan_of(p: IndexModelPlan, input: DeriveInput) -> bool {
    let t = spec_rename_rule(input.attrs@)->0;
    let source = raiden_eq_string(input.attrs@, "source"@)->0;
    let segs = parsed_type_path(source)->0->0;
    let views = index_views(input);
    let fields = input.fields@;
    &&& p.gsi_name@ == index_gsi_names(input)[0]
    &&& p.rename_all == t
    &&& p.source_type@ == source
    &&& p.source_ident@ == segs.last()
    &&& crate::naming::is_struct_names_of(p.source_names, segs.last())
    &&& p.query_token@ == spec_projection_query_token(segs.last(), p.gsi_name@, views)
    &&& p.fields@.len() == fields.len()
    &&& (forall|i: int| 0 <= i < fields.len() ==> #[trigger] is_plan_of(p.fields@[i], fields[i], t))
    &&& gsi_views(p.gsi_definitions@) == views
    &&& p.gsi_methods@.map_values(|m: KeyConditionMethod| method_view(m))
        == methods_for_gsis(segs.last(), fields, t, views)
}

/// The plan of the projection derive `#[derive(RaidenIndex)]`, or the
/// reason the input is refused.
pub fn plan_index_model(input: &DeriveInput) -> (res: Result<IndexModelPlan, DeriveError>)
    ensures
        match res {
            Ok(p) => index_error(*input) is None && is_index_plan_of(p, *input),
            Err(e) => index_error(*input) == Some(error_view(e)),
        },
{
    let attrs = input.attrs.as_slice();
    let fields = input.fields.as_slice();
    let source = match find_raiden_eq_string(attrs, "source") {
        Some(s) => s,
        None => return Err(DeriveError::MissingSource),
    };
    let mut gsi_names = find_gsi_names(attrs);
    let mut lsi_names = find_lsi_names(attrs);
    let ghost global_names = gsi_names@.map_values(|s: String| s@);
    let ghost local_names = lsi_names@.map_values(|s: String| s@);
    gsi_names.append(&mut lsi_names);
    assert(gsi_names@.map_values(|s: String| s@) =~= global_names + local_names);
    assert(gsi_names@.map_values(|s: String| s@) == index_gsi_names(*input));
    if gsi_names.len() == 0 {
        return Err(DeriveError::MissingGsi);
    }
    if gsi_names.len() > 1 {
        return Err(DeriveError::TooManyGsis);
    }
    let mut gsi_definitions = find_gsi_definitions(attrs);
    let mut lsi_definitions = find_lsi_definitions(attrs);
    let ghost global_defs = gsi_views(gsi_definitions@);
    let ghost local_defs = gsi_views(lsi_definitions@);
    gsi_definitions.append(&mut lsi_definitions);
    assert(gsi_views(gsi_definitions@) =~= global_defs + local_defs);
    assert(gsi_views(gsi_definitions@) == index_views(*input));
    let t = match rename_rule(attrs) {
        Ok(t) => t,
        Err(v) => return Err(DeriveError::UnsupportedRenameAll(v)),
    };
    let segs = match parse_type_path(source.as_str()) {
        None => return Err(DeriveError::InvalidSource(source)),
        Some(None) => return Err(DeriveError::SourceNotPath),
        Some(Some(segs)) => segs,
    };
    let count = segs.len();
    if count == 0 {
        return Err(DeriveError::EmptySourcePath);
    }
    if !all_names_check(fields, t) {
        return Err(DeriveError::RenameUndefined);
    }
    if !fields_scan_defined(fields, "use_default") {
        return Err(DeriveError::NotUnary);
    }
    let key_names = gsis_key_name_list(gsi_definitions.as_slice());
    match first_unresolved_name(fields, t, &key_names) {
        Some(n) => return Err(DeriveError::UnknownKeyField(n)),
        None => {},
    }
    proof {
        lemma_first_unresolved(fields@, t, gsis_key_names(gsi_views(gsi_definitions@)));
        lemma_gsis_key_names(fields@, t, gsi_views(gsi_definitions@));
        assert(all_gsi_keys_known(fields@, t, gsi_views(gsi_definitions@)));
    }
    let source_ident = segs[count - 1].clone();
    assert(source_ident@ == segs@.map_values(|s: String| s@).last());
    let gsi_name = gsi_names[0].clone();
    assert(gsi_name@ == index_gsi_names(*input)[0]);
    let source_names = struct_names(source_ident.as_str());
    let query_token = projection_query_token(source_ident.as_str(), gsi_name.as_str(), gsi_definitions.as_slice());
    proof {
        assert forall|i: int| 0 <= i < fields@.len() implies #[trigger] field_plan_defined(fields@[i], t) by {
            assert(field_name_defined(fields@[i], t));
            assert(crate::finder::unary_scan_ok(fields@[i].attrs@, "use_default"@));
        }
    }
    let field_plans = plan_fields(fields, t);
    let ndefs = gsi_definitions.len();
    let mut all: Vec<usize> = Vec::new();
    let mut k: usize = 0;
    while k < ndefs
        invariant
            ndefs == gsi_definitions@.len(),
            k <= ndefs,
            all@.len() == k,
            forall|j: int| 0 <= j < k ==> #[trigger] all@[j] == j,
        decreases ndefs - k,
    {
        all.push(k);
        k = k + 1;
    }
    proof {
        assert forall|j: int| 0 <= j < all@.len() implies
            #[trigger] all@[j] < gsi_definitions@.len() && gsi_keys_resolvable(
                fields@,
                t,
                gsi_view(gsi_definitions@[all@[j] as int]),
            ) by {
            assert(gsi_views(gsi_definitions@)[j] == gsi_view(gsi_definitions@[j]));
        }
    }
    let gsi_methods = gsi_key_condition_methods_for(source_ident.as_str(), fields, t, gsi_definitions.as_slice(), &all);
    assert(selected_gsis(gsi_definitions@, all@) =~= gsi_views(gsi_definitions@));
    Ok(IndexModelPlan {
        gsi_name,
        rename_all: t,
        source_type: source,
        source_ident,
        source_names,
        query_token,
        fields: field_plans,
        gsi_definitions,
        gsi_methods,
    })
}

/// Everything the `RaidenDocument` derive emits from.
#[derive(Clone, Debug)]
pub struct DocumentPlan {
    pub attr_enum_name: String,
    pub fields: Vec<DocumentFieldPlan>,
}

/// The serde `rename_all` rule of a struct: the last value read, when serde
/// knows it.
pub open spec fn document_rule(attrs: Seq<Attribute>) -> Option<SerdeRule> {
    match serde_value_from(attrs, "rename_all"@, None) {
        Some(v) => spec_parse_serde_rule(v),
        None => None,
    }
}

/// The plan of the document derive `#[derive(RaidenDocument)]`; every
/// struct with named fields is accepted.
pub fn plan_document_model(input: &DeriveInput) -> (res: DocumentPlan)
    ensures
        res.attr_enum_name@ == input.ident@ + "DocumentAttrNames"@,
        res.fields@.len() == input.fields@.len(),
        forall|i: int| 0 <= i < input.fields@.len() ==> #[trigger] is_document_plan_of(
            res.fields@[i],
            input.fields@[i],
            document_rule(input.attrs@),
        ),
{
    let rule = match find_serde_value(input.attrs.as_slice(), "rename_all") {
        Some(v) => SerdeRule::parse(v.as_str()),
        None => None,
    };
    DocumentPlan {
        attr_enum_name: crate::text::joined(input.ident.as_str(), "DocumentAttrNames"),
        fields: plan_document_fields(input.fields.as_slice(), rule),
    }
}

} // verus!
