//! Names of the generated items: the per-struct type names, the typed key
//! condition tokens of secondary indexes, projection item names, and the
//! resolution of a key field's stored attribute name.

use vstd::prelude::*;
use crate::case::{pascal, to_case, CaseStyle};
use crate::key::{field_attr_name, field_name_defined, key_name};
use crate::model::Field;
use crate::rename::RenameAllType;
use crate::text::{decimal, decimal_string, joined, spec_starts_with, starts_with};

verus! {

/// The names of the items generated for one model struct, each the struct
/// name followed by a fixed suffix (`UserClient`, `UserQueryBuilder`, ...).
#[derive(Clone, Debug)]
pub struct StructNames {
    pub client: String,
    pub attr_names: String,
    pub document_attr_names: String,
    pub condition: String,
    pub condition_token: String,
    pub left_attr_and_wait_op: String,
    pub filter_expression_token: String,
    pub key_condition_token: String,
    pub table_partition_key_condition_token: String,
    pub table_sort_key_condition_token: String,
    pub table_terminal_key_condition_token: String,
    pub get_item: String,
    pub get_item_builder: String,
    pub batch_get_item: String,
    pub batch_get_item_builder: String,
    pub put_item: String,
    pub put_item_builder: String,
    pub put_item_input: String,
    pub put_item_input_builder: String,
    pub put_item_output: String,
    pub update_item: String,
    pub update_item_builder: String,
    pub update_item_output: String,
    pub update_expression: String,
    pub delete_item: String,
    pub delete_item_builder: String,
    pub batch_delete: String,
    pub batch_delete_builder: String,
    pub batch_put: String,
    pub batch_put_builder: String,
    pub query: String,
    pub query_builder: String,
    pub query_output: String,
    pub projected_query_builder: String,
    pub scan: String,
    pub scan_builder: String,
    pub projected_scan_builder: String,
    pub transact_put_item_builder: String,
    pub transact_update_item_builder: String,
    pub transact_delete_item_builder: String,
    pub transact_condition_check_builder: String,
    pub transact_get_items: String,
    pub transact_get_items_builder: String,
}

/// `n` holds the generated item names of the struct `s`.
pub open spec fn is_struct_names_of(n: StructNames, s: Seq<char>) -> bool {
    &&& n.client@ == s + "Client"@
    &&& n.attr_names@ == s + "AttrNames"@
    &&& n.document_attr_names@ == s + "DocumentAttrNames"@
    &&& n.condition@ == s + "Condition"@
    &&& n.condition_token@ == s + "ConditionToken"@
    &&& n.left_attr_and_wait_op@ == s + "LeftAttrAndWaitOp"@
    &&& n.filter_expression_token@ == s + "FilterExpressionToken"@
    &&& n.key_condition_token@ == s + "KeyConditionToken"@
    &&& n.table_partition_key_condition_token@ == s + "TablePartitionKeyConditionToken"@
    &&& n.table_sort_key_condition_token@ == s + "TableSortKeyConditionToken"@
    &&& n.table_terminal_key_condition_token@ == s + "TableTerminalKeyConditionToken"@
    &&& n.get_item@ == s + "GetItem"@
    &&& n.get_item_builder@ == s + "GetItemBuilder"@
    &&& n.batch_get_item@ == s + "BatchGetItem"@
    &&& n.batch_get_item_builder@ == s + "BatchGetItemBuilder"@
    &&& n.put_item@ == s + "PutItem"@
    &&& n.put_item_builder@ == s + "PutItemBuilder"@
    &&& n.put_item_input@ == s + "PutItemInput"@
    &&& n.put_item_input_builder@ == s + "PutItemInputBuilder"@
    &&& n.put_item_output@ == s + "PutItemOutput"@
    &&& n.update_item@ == s + "UpdateItem"@
    &&& n.update_item_builder@ == s + "UpdateItemBuilder"@
    &&& n.update_item_output@ == s + "UpdateItemOutput"@
    &&& n.update_expression@ == s + "UpdateExpression"@
    &&& n.delete_item@ == s + "DeleteItem"@
    &&& n.delete_item_builder@ == s + "DeleteItemBuilder"@
    &&& n.batch_delete@ == s + "BatchDelete"@
    &&& n.batch_delete_builder@ == s + "BatchDeleteBuilder"@
    &&& n.batch_put@ == s + "BatchPut"@
    &&& n.batch_put_builder@ == s + "BatchPutBuilder"@
    &&& n.query@ == s + "Query"@
    &&& n.query_builder@ == s + "QueryBuilder"@
    &&& n.query_output@ == s + "QueryOutput"@
    &&& n.projected_query_builder@ == s + "ProjectedQueryBuilder"@
    &&& n.scan@ == s + "Scan"@
    &&& n.scan_builder@ == s + "ScanBuilder"@
    &&& n.projected_scan_builder@ == s + "ProjectedScanBuilder"@
    &&& n.transact_put_item_builder@ == s + "TransactPutItemBuilder"@
    &&& n.transact_update_item_builder@ == s + "TransactUpdateItemBuilder"@
    &&& n.transact_delete_item_builder@ == s + "TransactDeleteItemBuilder"@
    &&& n.transact_condition_check_builder@ == s + "TransactConditionCheckBuilder"@
    &&& n.transact_get_items@ == s + "TransactGetItems"@
    &&& n.transact_get_items_builder@ == s + "TransactGetItemsBuilder"@
}

/// The generated item names of a model struct.
pub fn struct_names(struct_name: &str) -> (res: StructNames)
    ensures
        is_struct_names_of(res, struct_name@),
{
    StructNames {
        client: crate::text::joined(struct_name, "Client"),
        attr_names: crate::text::joined(struct_name, "AttrNames"),
        document_attr_names: crate::text::joined(struct_name, "DocumentAttrNames"),
        condition: crate::text::joined(struct_name, "Condition"),
        condition_token: crate::text::joined(struct_name, "ConditionToken"),
        left_attr_and_wait_op: crate::text::joined(struct_name, "LeftAttrAndWaitOp"),
        filter_expression_token: crate::text::joined(struct_name, "FilterExpressionToken"),
        key_condition_token: crate::text::joined(struct_name, "KeyConditionToken"),
        table_partition_key_condition_token: crate::text::joined(struct_name, "TablePartitionKeyConditionToken"),
        table_sort_key_condition_token: crate::text::joined(struct_name, "TableSortKeyConditionToken"),
        table_terminal_key_condition_token: crate::text::joined(struct_name, "TableTerminalKeyConditionToken"),
        get_item: crate::text::joined(struct_name, "GetItem"),
        get_item_builder: crate::text::joined(struct_name, "GetItemBuilder"),
        batch_get_item: crate::text::joined(struct_name, "BatchGetItem"),
        batch_get_item_builder: crate::text::joined(struct_name, "BatchGetItemBuilder"),
        put_item: crate::text::joined(struct_name, "PutItem"),
        put_item_builder: crate::text::joined(struct_name, "PutItemBuilder"),
        put_item_input: crate::text::joined(struct_name, "PutItemInput"),
        put_item_input_builder: crate::text::joined(struct_name, "PutItemInputBuilder"),
        put_item_output: crate::text::joined(struct_name, "PutItemOutput"),
        update_item: crate::text::joined(struct_name, "UpdateItem"),
        update_item_builder: crate::text::joined(struct_name, "UpdateItemBuilder"),
        update_item_output: crate::text::joined(struct_name, "UpdateItemOutput"),
        update_expression: crate::text::joined(struct_name, "UpdateExpression"),
        delete_item: crate::text::joined(struct_name, "DeleteItem"),
        delete_item_builder: crate::text::joined(struct_name, "DeleteItemBuilder"),
        batch_delete: crate::text::joined(struct_name, "BatchDelete"),
        batch_delete_builder: crate::text::joined(struct_name, "BatchDeleteBuilder"),
        batch_put: crate::text::joined(struct_name, "BatchPut"),
        batch_put_builder: crate::text::joined(struct_name, "BatchPutBuilder"),
        query: crate::text::joined(struct_name, "Query"),
        query_builder: crate::text::joined(struct_name, "QueryBuilder"),
        query_output: crate::text::joined(struct_name, "QueryOutput"),
        projected_query_builder: crate::text::joined(struct_name, "ProjectedQueryBuilder"),
        scan: crate::text::joined(struct_name, "Scan"),
        scan_builder: crate::text::joined(struct_name, "ScanBuilder"),
        projected_scan_builder: crate::text::joined(struct_name, "ProjectedScanBuilder"),
        transact_put_item_builder: crate::text::joined(struct_name, "TransactPutItemBuilder"),
        transact_update_item_builder: crate::text::joined(struct_name, "TransactUpdateItemBuilder"),
        transact_delete_item_builder: crate::text::joined(struct_name, "TransactDeleteItemBuilder"),
        transact_condition_check_builder: crate::text::joined(struct_name, "TransactConditionCheckBuilder"),
        transact_get_items: crate::text::joined(struct_name, "TransactGetItems"),
        transact_get_items_builder: crate::text::joined(struct_name, "TransactGetItemsBuilder"),
    }
}

/// `{struct}{Index}KeyConditionToken`, the token of a typed index query.
pub open spec fn spec_gsi_token_name(struct_name: Seq<char>, index_name: Seq<char>) -> Seq<char> {
    struct_name + pascal(index_name) + "KeyConditionToken"@
}

/// `{struct}{Index}PartitionKeyConditionToken`.
pub open spec fn spec_gsi_partition_token_name(struct_name: Seq<char>, index_name: Seq<char>) -> Seq<char> {
    struct_name + pascal(index_name) + "PartitionKeyConditionToken"@
}

/// `{struct}{Index}Sort{n}KeyConditionToken` for the sort-key segment at
/// position `index`, numbered from one.
pub open spec fn spec_gsi_sort_token_name(
    struct_name: Seq<char>,
    index_name: Seq<char>,
    index: nat,
) -> Seq<char> {
    struct_name + pascal(index_name) + "Sort"@ + decimal(index + 1) + "KeyConditionToken"@
}

/// `{struct}{Index}TerminalKeyConditionToken`.
pub open spec fn spec_gsi_terminal_token_name(struct_name: Seq<char>, index_name: Seq<char>) -> Seq<char> {
    struct_name + pascal(index_name) + "TerminalKeyConditionToken"@
}

/// The name of the projection item generated for an index: the PascalCase
/// index name followed by `Item`, prefixed with the source struct name
/// unless it already starts with it.
pub open spec fn spec_auto_gsi_projection_name(source: Seq<char>, gsi_name: Seq<char>) -> Seq<char> {
    let p = pascal(gsi_name);
    if spec_starts_with(p, source) {
        p + "Item"@
    } else {
        source + p + "Item"@
    }
}

/// The token type of a typed index query.
pub fn create_gsi_token_name(struct_name: &str, index_name: &str) -> (res: String)
    ensures
        res@ == spec_gsi_token_name(struct_name@, index_name@),
{
    let p = to_case(index_name, CaseStyle::Pascal);
    let mut s = joined(struct_name, p.as_str());
    s.append("KeyConditionToken");
    s
}

/// The token type that starts the key condition of an index.
pub fn create_gsi_partition_token_name(struct_name: &str, index_name: &str) -> (res: String)
    ensures
        res@ == spec_gsi_partition_token_name(struct_name@, index_name@),
{
    let p = to_case(index_name, CaseStyle::Pascal);
    let mut s = joined(struct_name, p.as_str());
    s.append("PartitionKeyConditionToken");
    s
}

/// The token type of one sort-key segment of an index.
pub fn create_gsi_sort_token_name(struct_name: &str, index_name: &str, index: usize) -> (res: String)
    requires
        index < usize::MAX,
    ensures
        res@ == spec_gsi_sort_token_name(struct_name@, index_name@, index as nat),
{
    let p = to_case(index_name, CaseStyle::Pascal);
    let mut s = joined(struct_name, p.as_str());
    s.append("Sort");
    let n = decimal_string(index + 1);
    s.append(n.as_str());
    s.append("KeyConditionToken");
    s
}

/// The token type that ends the key condition of an index.
pub fn create_gsi_terminal_token_name(struct_name: &str, index_name: &str) -> (res: String)
    ensures
        res@ == spec_gsi_terminal_token_name(struct_name@, index_name@),
{
    let p = to_case(index_name, CaseStyle::Pascal);
    let mut s = joined(struct_name, p.as_str());
    s.append("TerminalKeyConditionToken");
    s
}

/// The name of the projection item generated for an index.
pub fn create_auto_gsi_projection_name(source_struct_name: &str, gsi_name: &str) -> (res: String)
    ensures
        res@ == spec_auto_gsi_projection_name(source_struct_name@, gsi_name@),
{
    let p = to_case(gsi_name, CaseStyle::Pascal);
    if starts_with(p.as_str(), source_struct_name) {
        joined(p.as_str(), "Item")
    } else {
        let mut s = joined(source_struct_name, p.as_str());
        s.append("Item");
        s
    }
}

/// The first field named `name`.
pub open spec fn is_first_named(fields: Seq<Field>, name: Seq<char>, i: int) -> bool {
    &&& 0 <= i < fields.len()
    &&& fields[i].ident@ == name
    &&& forall|j: int| 0 <= j < i ==> fields[j].ident@ != name
}

/// Some field is named `name`.
pub open spec fn has_field_named(fields: Seq<Field>, name: Seq<char>) -> bool {
    exists|i: int| 0 <= i < fields.len() && #[trigger] fields[i].ident@ == name
}

/// The stored name of the field named `name` can be resolved: such a field
/// exists, and the first of them has a defined stored name.
pub open spec fn attr_name_resolvable(fields: Seq<Field>, name: Seq<char>, t: RenameAllType) -> bool {
    &&& has_field_named(fields, name)
    &&& forall|i: int| #[trigger] is_first_named(fields, name, i) ==> field_name_defined(fields[i], t)
}

/// The stored attribute name of the first field named `name`.
pub open spec fn spec_resolve_attr_name(fields: Seq<Field>, name: Seq<char>, t: RenameAllType) -> Seq<char> {
    let i = choose|i: int| is_first_named(fields, name, i);
    field_attr_name(fields[i], t)
}

/// The index of the first field named `name`.
fn first_field_named(fields: &[Field], name: &str) -> (res: usize)
    requires
        has_field_named(fields@, name@),
    ensures
        is_first_named(fields@, name@, res as int),
{
    let n = fields.len();
    let mut i: usize = 0;
    while i < n
        invariant
            n == fields@.len(),
            i <= n,
            has_field_named(fields@, name@),
            forall|j: int| 0 <= j < i ==> fields@[j].ident@ != name@,
        decreases n - i,
    {
        if crate::text::text_is(&fields[i].ident, name) {
            return i;
        }
        i = i + 1;
    }
    assert(false);
    0
}

/// The stored attribute name of the field named `field_name`, as used by
/// the typed key conditions of secondary indexes. An unknown field name is
/// refused.
pub fn resolve_attr_name_for_fields(
    fields: &[Field],
    rename_all_type: RenameAllType,
    field_name: &str,
) -> (res: String)
    requires
        attr_name_resolvable(fields@, field_name@, rename_all_type),
    ensures
        res@ == spec_resolve_attr_name(fields@, field_name@, rename_all_type),
{
    let i = first_field_named(fields, field_name);
    proof {
        assert forall|k: int| is_first_named(fields@, field_name@, k) implies k == i as int by {
            if k < i as int {
                assert(fields@[k].ident@ != field_name@);
            } else if k > i as int {
                assert(fields@[i as int].ident@ != field_name@);
            }
        }
    }
    key_name(&fields[i], rename_all_type)
}

/// The stored attribute name of the field named `field_name`, as used by
/// the typed index queries. An unknown field name is refused.
pub fn resolve_attr_name(fields: &[Field], rename_all_type: RenameAllType, field_name: &str) -> (res: String)
    requires
        attr_name_resolvable(fields@, field_name@, rename_all_type),
    ensures
        res@ == spec_resolve_attr_name(fields@, field_name@, rename_all_type),
{
    resolve_attr_name_for_fields(fields, rename_all_type, field_name)
}

} // verus!
