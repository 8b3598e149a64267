//! Per-field choices of the generated code: the stored attribute name of
//! each field, how its value is read back, which fields the put input
//! takes, and the attribute-name enum and accessors of a model.

use vstd::prelude::*;
use crate::case::{keywords, method_name, pascal, snake, to_case, CaseStyle, MethodName};
use crate::finder::{
    find_rename_value, find_serde_rename, has_unary, include_unary_attr, is_option,
    serde_rename_from, spec_is_option, unary_scan_ok,
};
use crate::key::{field_attr_name, field_name_defined, field_rename};
use crate::model::Field;
use crate::rename::{
    create_renamed, serde_rename, serde_rename_field, serde_rule_applies, RenameAllType, SerdeRule,
};

verus! {

/// How the generated code handles one field.
#[derive(Clone, Debug)]
pub struct FieldPlan {
    /// The attribute name the field is stored under.
    pub attr_key: String,
    /// The type is an `Option`: a missing attribute reads as `None`.
    pub optional: bool,
    /// `#[raiden(use_default)]`: a missing or null attribute reads as the
    /// type's default.
    pub use_default: bool,
}

/// The plan of a field is defined: its stored name can be computed and its
/// `use_default` marker can be looked up.
pub open spec fn field_plan_defined(f: Field, t: RenameAllType) -> bool {
    &&& field_name_defined(f, t)
    &&& unary_scan_ok(f.attrs@, "use_default"@)
}

/// `p` is the plan of field `f`.
pub open spec fn is_plan_of(p: FieldPlan, f: Field, t: RenameAllType) -> bool {
    &&& p.attr_key@ == field_attr_name(f, t)
    &&& p.optional == spec_is_option(f.ty)
    &&& p.use_default == has_unary(f.attrs@, "use_default"@)
}

/// The plan of one field.
pub fn plan_field(field: &Field, rename_all_type: RenameAllType) -> (res: FieldPlan)
    requires
        field_plan_defined(*field, rename_all_type),
    ensures
        is_plan_of(res, *field, rename_all_type),
{
    let renamed = find_rename_value(field.attrs.as_slice());
    let attr_key = create_renamed(field.ident.clone(), renamed, rename_all_type);
    let optional = is_option(&field.ty);
    let use_default = include_unary_attr(field.attrs.as_slice(), "use_default");
    FieldPlan { attr_key, optional, use_default }
}

/// The plan of every field, in order.
pub fn plan_fields(fields: &[Field], rename_all_type: RenameAllType) -> (res: Vec<FieldPlan>)
    requires
        forall|i: int| 0 <= i < fields@.len() ==> #[trigger] field_plan_defined(fields@[i], rename_all_type),
    ensures
        res@.len() == fields@.len(),
        forall|i: int| 0 <= i < fields@.len() ==> #[trigger] is_plan_of(res@[i], fields@[i], rename_all_type),
{
    let n = fields.len();
    let mut res: Vec<FieldPlan> = Vec::new();
    let mut i: usize = 0;
    while i < n
        invariant
            n == fields@.len(),
            i <= n,
            res@.len() == i,
            forall|j: int| 0 <= j < fields@.len() ==> #[trigger] field_plan_defined(fields@[j], rename_all_type),
            forall|j: int| 0 <= j < i ==> #[trigger] is_plan_of(res@[j], fields@[j], rename_all_type),
        decreases n - i,
    {
        assert(field_plan_defined(fields@[i as int], rename_all_type));
        let p = plan_field(&fields[i], rename_all_type);
        res.push(p);
        i = i + 1;
    }
    res
}

/// The positions, in order, of the first `n` entries of a mask that hold.
pub open spec fn selected_upto(mask: Seq<bool>, n: nat) -> Seq<usize>
    decreases n,
{
    if n == 0 {
        Seq::empty()
    } else {
        let prev = selected_upto(mask, (n - 1) as nat);
        if mask[n - 1] {
            prev.push((n - 1) as usize)
        } else {
            prev
        }
    }
}

/// The positions, in order, of all entries of a mask that hold.
pub open spec fn selected(mask: Seq<bool>) -> Seq<usize> {
    selected_upto(mask, mask.len())
}

/// The selected positions are exactly the entries that hold, in
/// increasing order.
pub proof fn lemma_selected_upto(mask: Seq<bool>, n: nat)
    requires
        n <= mask.len(),
        n <= usize::MAX + 1,
    ensures
        selected_upto(mask, n).len() <= n,
        forall|k: int| 0 <= k < selected_upto(mask, n).len() ==>
            #[trigger] selected_upto(mask, n)[k] < n && mask[selected_upto(mask, n)[k] as int],
        forall|i: int| 0 <= i < n && #[trigger] mask[i] ==> selected_upto(mask, n).contains(i as usize),
        forall|a: int, b: int| 0 <= a < b < selected_upto(mask, n).len() ==>
            selected_upto(mask, n)[a] < selected_upto(mask, n)[b],
        selected_upto(mask, n).len() == n <==> forall|i: int| 0 <= i < n ==> mask[i],
    decreases n,
{
    if n > 0 {
        lemma_selected_upto(mask, (n - 1) as nat);
        let prev = selected_upto(mask, (n - 1) as nat);
        if mask[n - 1] {
            assert forall|i: int| 0 <= i < n && #[trigger] mask[i] implies
                selected_upto(mask, n).contains(i as usize) by {
                if i < n - 1 {
                    let k = choose|k: int| 0 <= k < prev.len() && prev[k] == i as usize;
                    assert(prev.push((n - 1) as usize)[k] == i as usize);
                } else {
                    assert(prev.push((n - 1) as usize)[prev.len() as int] == i as usize);
                }
            }
        }
    }
}

/// The positions of the entries of a mask that hold.
pub fn select_indices(mask: &Vec<bool>) -> (res: Vec<usize>)
    ensures
        res@ == selected(mask@),
{
    let n = mask.len();
    let mut res: Vec<usize> = Vec::new();
    let mut i: usize = 0;
    while i < n
        invariant
            n == mask@.len(),
            i <= n,
            res@ == selected_upto(mask@, i as nat),
        decreases n - i,
    {
        if mask[i] {
            res.push(i);
        }
        i = i + 1;
    }
    res
}

/// Which fields are marked `#[raiden(uuid)]`: their value is generated on
/// put.
pub fn uuid_flags(fields: &[Field]) -> (res: Vec<bool>)
    requires
        crate::finder::fields_scan_ok(fields@, "uuid"@),
    ensures
        res@.len() == fields@.len(),
        forall|i: int| 0 <= i < fields@.len() ==> #[trigger] res@[i] == has_unary(fields@[i].attrs@, "uuid"@),
{
    let n = fields.len();
    let mut res: Vec<bool> = Vec::new();
    let mut i: usize = 0;
    while i < n
        invariant
            n == fields@.len(),
            i <= n,
            res@.len() == i,
            crate::finder::fields_scan_ok(fields@, "uuid"@),
            forall|j: int| 0 <= j < i ==> #[trigger] res@[j] == has_unary(fields@[j].attrs@, "uuid"@),
        decreases n - i,
    {
        assert(unary_scan_ok(fields@[i as int].attrs@, "uuid"@));
        res.push(include_unary_attr(fields[i].attrs.as_slice(), "uuid"));
        i = i + 1;
    }
    res
}

/// Which fields the put input takes: all but the `uuid` ones.
pub open spec fn put_input_mask(uuid: Seq<bool>) -> Seq<bool> {
    uuid.map_values(|u: bool| !u)
}

/// Which fields the put input builder requires before `build`: the input
/// fields that are not `Option`s.
pub open spec fn required_input_mask(uuid: Seq<bool>, plans: Seq<FieldPlan>) -> Seq<bool> {
    Seq::new(uuid.len(), |i: int| !uuid[i] && !plans[i].optional)
}

/// The positions of the fields the put input takes, in order.
pub fn put_input_fields(uuid: &Vec<bool>) -> (res: Vec<usize>)
    ensures
        res@ == selected(put_input_mask(uuid@)),
{
    let n = uuid.len();
    let mut mask: Vec<bool> = Vec::new();
    let mut i: usize = 0;
    while i < n
        invariant
            n == uuid@.len(),
            i <= n,
            mask@ =~= put_input_mask(uuid@).take(i as int),
        decreases n - i,
    {
        mask.push(!uuid[i]);
        i = i + 1;
    }
    assert(mask@ =~= put_input_mask(uuid@));
    select_indices(&mask)
}

/// The positions of the fields the put input builder requires, in order;
/// each becomes a `()` type parameter of the initial builder.
pub fn required_input_fields(uuid: &Vec<bool>, plans: &Vec<FieldPlan>) -> (res: Vec<usize>)
    requires
        uuid@.len() == plans@.len(),
    ensures
        res@ == selected(required_input_mask(uuid@, plans@)),
{
    let n = uuid.len();
    let mut mask: Vec<bool> = Vec::new();
    let mut i: usize = 0;
    while i < n
        invariant
            n == uuid@.len(),
            n == plans@.len(),
            i <= n,
            mask@ =~= required_input_mask(uuid@, plans@).take(i as int),
        decreases n - i,
    {
        mask.push(!uuid[i] && !plans[i].optional);
        i = i + 1;
    }
    assert(mask@ =~= required_input_mask(uuid@, plans@));
    select_indices(&mask)
}

/// The pieces of the attribute-name enum for one field.
#[derive(Clone, Debug)]
pub struct AttrNamePlan {
    /// The enum variant declared for the field: the PascalCase of its
    /// `rename` value, else of its own name.
    pub variant: String,
    /// The variant named in the `into_attr_name` match arm: the PascalCase
    /// of the stored name.
    pub arm_variant: String,
    /// The stored attribute name.
    pub attr_name: String,
    /// The accessor function: the snake_case of the stored name.
    pub getter: MethodName,
}

/// `p` is the attribute-name plan of field `f`.
pub open spec fn is_attr_name_plan_of(p: AttrNamePlan, f: Field, t: RenameAllType) -> bool {
    let stored = field_attr_name(f, t);
    &&& p.variant@ == pascal(
        match field_rename(f) {
            Some(r) => r,
            None => f.ident@,
        },
    )
    &&& p.arm_variant@ == pascal(stored)
    &&& p.attr_name@ == stored
    &&& p.getter.name@ == snake(stored)
    &&& p.getter.raw == keywords().contains(snake(stored))
}

/// The attribute-name plan of one field.
pub fn plan_attr_name(field: &Field, rename_all_type: RenameAllType) -> (res: AttrNamePlan)
    requires
        field_name_defined(*field, rename_all_type),
    ensures
        is_attr_name_plan_of(res, *field, rename_all_type),
{
    let renamed = find_rename_value(field.attrs.as_slice());
    let variant = match &renamed {
        Some(r) => to_case(r.as_str(), CaseStyle::Pascal),
        None => to_case(field.ident.as_str(), CaseStyle::Pascal),
    };
    let basename = create_renamed(field.ident.clone(), renamed, rename_all_type);
    let arm_variant = to_case(basename.as_str(), CaseStyle::Pascal);
    let getter = method_name(to_case(basename.as_str(), CaseStyle::Snake));
    AttrNamePlan { variant, arm_variant, attr_name: basename, getter }
}

/// The attribute-name plans of all fields, in order.
pub fn plan_attr_names(fields: &[Field], rename_all_type: RenameAllType) -> (res: Vec<AttrNamePlan>)
    requires
        forall|i: int| 0 <= i < fields@.len() ==> #[trigger] field_name_defined(fields@[i], rename_all_type),
    ensures
        res@.len() == fields@.len(),
        forall|i: int| 0 <= i < fields@.len() ==> #[trigger] is_attr_name_plan_of(res@[i], fields@[i], rename_all_type),
{
    let n = fields.len();
    let mut res: Vec<AttrNamePlan> = Vec::new();
    let mut i: usize = 0;
    while i < n
        invariant
            n == fields@.len(),
            i <= n,
            res@.len() == i,
            forall|j: int| 0 <= j < fields@.len() ==> #[trigger] field_name_defined(fields@[j], rename_all_type),
            forall|j: int| 0 <= j < i ==> #[trigger] is_attr_name_plan_of(res@[j], fields@[j], rename_all_type),
        decreases n - i,
    {
        assert(field_name_defined(fields@[i as int], rename_all_type));
        let p = plan_attr_name(&fields[i], rename_all_type);
        res.push(p);
        i = i + 1;
    }
    res
}

/// The pieces of a `RaidenDocument` attribute-name enum for one field.
#[derive(Clone, Debug)]
pub struct DocumentFieldPlan {
    /// The enum variant: the PascalCase of the field name.
    pub variant: String,
    /// The name serde stores the field under.
    pub attr_name: String,
    /// The accessor function: the field name itself.
    pub getter: String,
}

/// The name serde stores a field under: its own `rename`; otherwise the
/// struct's `rename_all` rule applied to the field name; otherwise, or
/// where that rule cannot be applied, the field name.
pub open spec fn document_attr_name(f: Field, rule: Option<SerdeRule>) -> Seq<char> {
    match serde_rename_from(f.attrs@, None) {
        Some(r) => r,
        None => match rule {
            Some(r) => if serde_rule_applies(r, f.ident@) {
                serde_rename(r, f.ident@)
            } else {
                f.ident@
            },
            None => f.ident@,
        },
    }
}

/// `p` is the document plan of field `f` under the struct's serde rule.
pub open spec fn is_document_plan_of(p: DocumentFieldPlan, f: Field, rule: Option<SerdeRule>) -> bool {
    &&& p.variant@ == pascal(f.ident@)
    &&& p.attr_name@ == document_attr_name(f, rule)
    &&& p.getter@ == f.ident@
}

/// The `RaidenDocument` plans of all fields, in order, under the struct's
/// serde rule.
pub fn plan_document_fields(fields: &[Field], rule: Option<SerdeRule>) -> (res: Vec<DocumentFieldPlan>)
    ensures
        res@.len() == fields@.len(),
        forall|i: int| 0 <= i < fields@.len() ==> #[trigger] is_document_plan_of(res@[i], fields@[i], rule),
{
    let n = fields.len();
    let mut res: Vec<DocumentFieldPlan> = Vec::new();
    let mut i: usize = 0;
    while i < n
        invariant
            n == fields@.len(),
            i <= n,
            res@.len() == i,
            forall|j: int| 0 <= j < i ==> #[trigger] is_document_plan_of(res@[j], fields@[j], rule),
        decreases n - i,
    {
        let f = &fields[i];
        let variant = to_case(f.ident.as_str(), CaseStyle::Pascal);
        let attr_name = match find_serde_rename(f.attrs.as_slice()) {
            Some(r) => r,
            None => match rule {
                Some(r) => if serde_rule_applies_to(r, f.ident.as_str()) {
                    serde_rename_field(r, f.ident.as_str())
                } else {
                    f.ident.clone()
                },
                None => f.ident.clone(),
            },
        };
        res.push(DocumentFieldPlan { variant, attr_name, getter: f.ident.clone() });
        i = i + 1;
    }
    res
}

/// Whether a serde rule can be applied to a field name.
fn serde_rule_applies_to(rule: SerdeRule, field: &str) -> (res: bool)
    ensures
        res == serde_rule_applies(rule, field@),
{
    match rule {
        SerdeRule::CamelCase => crate::rename::rule_applies_to(RenameAllType::CamelCase, field),
        _ => true,
    }
}

} // verus!
