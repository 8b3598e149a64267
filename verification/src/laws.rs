//! Properties that hold across the planner's functions.

use vstd::prelude::*;
use crate::case::{keywords, pascal, snake};
use crate::derive::{
    index_views, is_index_plan_of, is_projection_plan_of, is_table_plan_of, table_index_views, table_lsi_views,
    DeriveInput, IndexModelPlan, TableModelPlan,
};
use crate::fields::{
    is_attr_name_plan_of, is_plan_of, lemma_selected_upto, put_input_mask, required_input_mask, selected,
};
use crate::finder::{gsi_defs_from, gsi_view, has_unary, GsiView};
use crate::gsi::{method_view, methods_for_gsi, methods_for_gsis, KeyConditionMethod, MethodView};
use crate::index::{
    gsi_views, has_typed_gsi, index_queries, index_query_view, is_index_method_of, kept_mask, omit_names,
    IndexQueryMethod,
};
use crate::resolve::partition_key_names;
use crate::key::field_attr_name;
use crate::model::Field;
use crate::naming::{
    spec_auto_gsi_projection_name, spec_gsi_partition_token_name, spec_gsi_sort_token_name,
    is_first_named, spec_gsi_terminal_token_name, spec_resolve_attr_name,
};
use crate::rename::{
    lemma_rename_idempotent, rule_applies, rule_attribute_value, spec_create_renamed, spec_parse_rule, RenameAllType,
};
use crate::text::spec_starts_with;

verus! {

/// An explicit `rename` decides the stored name whatever the `rename_all`
/// rule; without one and without a rule, the field name is kept.
pub proof fn law_rename_precedence(basename: Seq<char>, renamed: Seq<char>, t: RenameAllType)
    ensures
        spec_create_renamed(basename, Some(renamed), t) == renamed,
        spec_create_renamed(basename, None, RenameAllType::Unset) == basename,
{
}

/// Each `rename_all` value selects its rule, and only the six documented
/// values select one.
pub proof fn law_rename_all_values(t: RenameAllType, s: Seq<char>)
    ensures
        t != RenameAllType::Unset ==> spec_parse_rule(rule_attribute_value(t)) == Some(t),
        spec_parse_rule(s) matches Some(r) ==> r != RenameAllType::Unset && s == rule_attribute_value(r),
{
    reveal_strlit("lowercase");
    reveal_strlit("camelCase");
    reveal_strlit("PascalCase");
    reveal_strlit("snake_case");
    reveal_strlit("SCREAMING_SNAKE_CASE");
    reveal_strlit("kebab-case");
    assert("lowercase"@[0] == 'l');
    assert("camelCase"@[0] == 'c');
    assert("PascalCase"@[0] == 'P');
    assert("snake_case"@[0] == 's');
    assert("SCREAMING_SNAKE_CASE"@[0] == 'S');
    assert("kebab-case"@[0] == 'k');
}

/// The keys of a table plan are stored under the same attribute names as
/// the fields that hold them are read and listed under.
pub proof fn law_key_names_agree(p: TableModelPlan, input: DeriveInput)
    requires
        is_table_plan_of(p, input),
    ensures
        p.partition_key.0@ == p.fields@[p.partition_key.1 as int].attr_key@,
        p.partition_key.0@ == p.attr_names@[p.partition_key.1 as int].attr_name@,
        p.sort_key matches Some(k) ==> {
            &&& k.0@ == p.fields@[k.1 as int].attr_key@
            &&& k.0@ == p.attr_names@[k.1 as int].attr_name@
        },
{
    let i = p.partition_key.1 as int;
    assert(crate::fields::is_plan_of(p.fields@[i], input.fields@[i], p.rename_all));
    assert(crate::fields::is_attr_name_plan_of(p.attr_names@[i], input.fields@[i], p.rename_all));
    if let Some(k) = p.sort_key {
        let j = k.1 as int;
        assert(crate::fields::is_plan_of(p.fields@[j], input.fields@[j], p.rename_all));
        assert(crate::fields::is_attr_name_plan_of(p.attr_names@[j], input.fields@[j], p.rename_all));
    }
}

/// The put input of a table plan takes every field but the `uuid` ones,
/// in order, and its builder requires exactly the input fields that are
/// not `Option`s.
pub proof fn law_put_input(p: TableModelPlan, input: DeriveInput)
    requires
        is_table_plan_of(p, input),
    ensures
        forall|k: int| 0 <= k < p.put_input_fields@.len() ==> {
            let i = #[trigger] p.put_input_fields@[k] as int;
            0 <= i < input.fields@.len() && !has_unary(input.fields@[i].attrs@, "uuid"@)
        },
        forall|i: int| 0 <= i < input.fields@.len() && !has_unary(input.fields@[i].attrs@, "uuid"@)
            ==> p.put_input_fields@.contains(i as usize),
        forall|k: int| 0 <= k < p.required_input_fields@.len() ==>
            p.put_input_fields@.contains(#[trigger] p.required_input_fields@[k])
                && !p.fields@[p.required_input_fields@[k] as int].optional,
        forall|a: int, b: int| 0 <= a < b < p.put_input_fields@.len() ==>
            p.put_input_fields@[a] < p.put_input_fields@[b],
{
    let n = input.fields@.len();
    assert(p.uuid_fields@.len() == n);
    let m1 = put_input_mask(p.uuid_fields@);
    let m2 = required_input_mask(p.uuid_fields@, p.fields@);
    assert(m1.len() == p.uuid_fields@.len());
    assert(m2.len() == p.uuid_fields@.len());
    lemma_selected_upto(m1, m1.len());
    lemma_selected_upto(m2, m2.len());
    assert forall|i: int| 0 <= i < n && !has_unary(input.fields@[i].attrs@, "uuid"@) implies
        p.put_input_fields@.contains(i as usize) by {
        assert(p.uuid_fields@[i] == has_unary(input.fields@[i].attrs@, "uuid"@));
        assert(m1[i]);
    }
    assert forall|k: int| 0 <= k < p.put_input_fields@.len() implies {
        let i = #[trigger] p.put_input_fields@[k] as int;
        0 <= i < input.fields@.len() && !has_unary(input.fields@[i].attrs@, "uuid"@)
    } by {
        let i = p.put_input_fields@[k] as int;
        assert(m1[i]);
        assert(p.uuid_fields@[i] == has_unary(input.fields@[i].attrs@, "uuid"@));
    }
    assert forall|k: int| 0 <= k < p.required_input_fields@.len() implies
        p.put_input_fields@.contains(#[trigger] p.required_input_fields@[k])
            && !p.fields@[p.required_input_fields@[k] as int].optional by {
        let i = p.required_input_fields@[k] as int;
        assert(m2[i]);
        assert(m1[i]);
    }
}

/// The key-condition methods of an index with a partition key form one
/// chain in declaration order: the partition key first, then each sort-key
/// segment; every method's successor token is the next method's token, and
/// the last one leads to the terminal token. An index without a partition
/// key gets no method.
pub proof fn law_gsi_condition_chain(owner: Seq<char>, fields: Seq<Field>, t: RenameAllType, g: GsiView)
    ensures
        g.partition_key is None ==> methods_for_gsi(owner, fields, t, g).len() == 0,
        g.partition_key matches Some(pk) ==> {
            let ms = methods_for_gsi(owner, fields, t, g);
            &&& ms.len() == g.sort_keys.len() + 1
            &&& ms[0].token == spec_gsi_partition_token_name(owner, g.name)
            &&& ms[0].attr_name == spec_resolve_attr_name(fields, pk, t)
            &&& forall|i: int| 0 <= i < g.sort_keys.len() ==> {
                &&& (#[trigger] ms[i + 1]).token == spec_gsi_sort_token_name(owner, g.name, i as nat)
                &&& ms[i + 1].attr_name == spec_resolve_attr_name(fields, g.sort_keys[i], t)
            }
            &&& forall|i: int| 0 <= i < ms.len() - 1 ==> (#[trigger] ms[i]).next_token == ms[i + 1].token
            &&& ms[ms.len() - 1].next_token == spec_gsi_terminal_token_name(owner, g.name)
        },
{
    if let Some(pk) = g.partition_key {
        let ms = methods_for_gsi(owner, fields, t, g);
        let n = g.sort_keys.len();
        if n == 0 {
            assert(ms.len() == 1);
        } else if n == 1 {
            assert(ms.len() == 2);
        } else {
            assert forall|i: int| 0 <= i < ms.len() - 1 implies (#[trigger] ms[i]).next_token == ms[i + 1].token by {
                if i > 0 {
                    assert(ms[i] == crate::gsi::sort_segment_method(owner, fields, t, g, i - 1));
                    assert(ms[i + 1] == crate::gsi::sort_segment_method(owner, fields, t, g, i));
                }
            }
            assert(ms[ms.len() - 1] == crate::gsi::sort_segment_method(owner, fields, t, g, n - 1));
        }
    }
}

/// A projection item keeps exactly the source fields not left out of its
/// index, in their source order, and exists only when some field is left
/// out.
pub proof fn law_projection_fields(fields: Seq<Field>, gsi_name: Seq<char>, kept: Seq<usize>)
    requires
        kept == selected(kept_mask(fields, gsi_name)),
        fields.len() <= usize::MAX,
    ensures
        forall|k: int| 0 <= k < kept.len() ==> {
            let i = #[trigger] kept[k] as int;
            0 <= i < fields.len() && !omit_names(fields[i]).contains(gsi_name)
        },
        forall|i: int| 0 <= i < fields.len() && !omit_names(fields[i]).contains(gsi_name)
            ==> kept.contains(i as usize),
        forall|a: int, b: int| 0 <= a < b < kept.len() ==> kept[a] < kept[b],
        kept.len() == fields.len() <==> forall|i: int| 0 <= i < fields.len()
            ==> !omit_names(fields[i]).contains(gsi_name),
{
    let mask = kept_mask(fields, gsi_name);
    lemma_selected_upto(mask, mask.len());
    assert forall|i: int| 0 <= i < fields.len() && !omit_names(fields[i]).contains(gsi_name)
        implies kept.contains(i as usize) by {
        assert(mask[i]);
    }
    if kept.len() == fields.len() {
        assert forall|i: int| 0 <= i < fields.len() implies
            !omit_names(fields[i]).contains(gsi_name) by {
            assert(mask[i]);
        }
    }
    if forall|i: int| 0 <= i < fields.len() ==> !omit_names(fields[i]).contains(gsi_name) {
        assert forall|i: int| 0 <= i < mask.len() implies mask[i] by {
            assert(!omit_names(fields[i]).contains(gsi_name));
        }
    }
}

/// A generated projection item name starts with the source struct name
/// and ends with `Item`.
pub proof fn law_projection_name(source: Seq<char>, gsi_name: Seq<char>)
    ensures
        spec_starts_with(spec_auto_gsi_projection_name(source, gsi_name), source),
        spec_auto_gsi_projection_name(source, gsi_name).len() >= 4,
        spec_auto_gsi_projection_name(source, gsi_name).subrange(
            spec_auto_gsi_projection_name(source, gsi_name).len() - 4,
            spec_auto_gsi_projection_name(source, gsi_name).len() as int,
        ) == "Item"@,
{
    reveal_strlit("Item");
    let p = crate::case::pascal(gsi_name);
    let name = spec_auto_gsi_projection_name(source, gsi_name);
    if spec_starts_with(p, source) {
        assert(name == p + "Item"@);
        assert(name.subrange(0, source.len() as int) =~= p.subrange(0, source.len() as int));
        assert(name.subrange(name.len() - 4, name.len() as int) =~= "Item"@);
    } else {
        assert(name == source + p + "Item"@);
        assert(name.subrange(0, source.len() as int) =~= source);
        assert(name.subrange(name.len() - 4, name.len() as int) =~= "Item"@);
    }
}

/// Selecting an index on the source model's query builder and starting a
/// query from the index's projection item begin from the same
/// key-condition token when no declaration gives the index a partition
/// key and no local index shares its name: both keep the table's own
/// token.
pub proof fn law_untyped_index_entry_token(p: TableModelPlan, input: DeriveInput, a: int, i: int)
    requires
        is_table_plan_of(p, input),
        0 <= a < p.projections@.len(),
        0 <= i < p.gsi_names@.len(),
        p.gsi_names@[i]@ == p.projections@[a].item.gsi_name@,
        p.index_methods@[i].typed_token is None,
        forall|k: int| 0 <= k < p.lsi_definitions@.len() ==> #[trigger] p.lsi_definitions@[k].name@ != p.gsi_names@[i]@,
    ensures
        p.projections@[a].query_token@ == p.names.key_condition_token@,
{
    let name = p.projections@[a].item.gsi_name@;
    let gviews = gsi_defs_from(input.attrs@);
    let lviews = table_lsi_views(input);
    let views = table_index_views(input);
    assert(p.gsi_names@.map_values(|s: String| s@)[i] == p.gsi_names@[i]@);
    assert(is_index_method_of(p.index_methods@[i], input.ident@, gviews, name));
    assert(is_projection_plan_of(p.projections@[a], input, p.rename_all, name));
    assert(!has_typed_gsi(views, name)) by {
        if has_typed_gsi(views, name) {
            let k = choose|k: int| 0 <= k < views.len() && #[trigger] views[k].name == name && views[k].partition_key is Some;
            if k < gviews.len() {
                assert(views[k] == gviews[k]);
            } else {
                assert(views[k] == lviews[k - gviews.len()]);
                assert(gsi_views(p.lsi_definitions@)[k - gviews.len()] == gsi_view(p.lsi_definitions@[k - gviews.len()]));
                assert(p.lsi_definitions@[k - gviews.len()].name@ != name);
            }
        }
    }
}

/// Renaming a name that `rename_all` has already produced changes nothing:
/// for every field name the rule applies to, the stored name is a fixed
/// point of the same rule.
pub proof fn law_rename_idempotent(basename: Seq<char>, t: RenameAllType)
    requires
        t != RenameAllType::Unset,
        rule_applies(t, basename),
    ensures
        rule_applies(t, spec_create_renamed(basename, None, t)),
        spec_create_renamed(spec_create_renamed(basename, None, t), None, t)
            == spec_create_renamed(basename, None, t),
{
    lemma_rename_idempotent(t, basename);
}

/// The typed index query entry points of a list of indexes follow their
/// partition keys one for one, each naming the stored attribute of its key.
proof fn lemma_index_queries_follow_partition_keys(
    struct_name: Seq<char>,
    fields: Seq<Field>,
    t: RenameAllType,
    defs: Seq<GsiView>,
)
    ensures
        index_queries(struct_name, fields, t, defs).len() == partition_key_names(defs).len(),
        forall|j: int| 0 <= j < partition_key_names(defs).len() ==> #[trigger] index_queries(
            struct_name,
            fields,
            t,
            defs,
        )[j].attr_name == spec_resolve_attr_name(fields, partition_key_names(defs)[j], t),
    decreases defs.len(),
{
    if defs.len() > 0 {
        let init = defs.drop_last();
        lemma_index_queries_follow_partition_keys(struct_name, fields, t, init);
        let prev = index_queries(struct_name, fields, t, init);
        let names = partition_key_names(init);
        match defs.last().partition_key {
            Some(pk) => {
                let qs = index_queries(struct_name, fields, t, defs);
                let ns = partition_key_names(defs);
                assert(ns == names + seq![pk]);
                assert forall|j: int| 0 <= j < ns.len() implies #[trigger] qs[j].attr_name
                    == spec_resolve_attr_name(fields, ns[j], t) by {
                    if j < names.len() {
                        assert(qs[j] == prev[j]);
                        assert(ns[j] == names[j]);
                    } else {
                        assert(ns[j] == pk);
                    }
                }
            },
            None => {
                assert(partition_key_names(defs) =~= names);
            },
        }
    }
}

/// The first field of a name is unique.
proof fn lemma_first_named_unique(fields: Seq<Field>, name: Seq<char>, i: int, j: int)
    requires
        is_first_named(fields, name, i),
        is_first_named(fields, name, j),
    ensures
        i == j,
{
    if i < j {
        assert(fields[i].ident@ != name);
    } else if j < i {
        assert(fields[j].ident@ != name);
    }
}

/// Each typed index query entry point of a table model, one per index
/// declared with a partition key and in declaration order, constrains the
/// attribute its partition key field is stored under: the stored name
/// (explicit `rename`, else the `rename_all` rule, else the field name) of
/// the first field so named, the name its field plan reads and writes.
pub proof fn law_index_query_attr_names(p: TableModelPlan, input: DeriveInput, j: int, i: int)
    requires
        is_table_plan_of(p, input),
        0 <= j < p.index_queries@.len(),
        is_first_named(input.fields@, partition_key_names(gsi_defs_from(input.attrs@))[j], i),
    ensures
        p.index_queries@.len() == partition_key_names(gsi_defs_from(input.attrs@)).len(),
        p.index_queries@[j].attr_name@ == p.fields@[i].attr_key@,
{
    let t = p.rename_all;
    let fields = input.fields@;
    let defs = gsi_defs_from(input.attrs@);
    lemma_index_queries_follow_partition_keys(input.ident@, fields, t, defs);
    let qs = index_queries(input.ident@, fields, t, defs);
    assert(p.index_queries@.map_values(|m: IndexQueryMethod| index_query_view(m)) == qs);
    assert(index_query_view(p.index_queries@[j]) == qs[j]);
    let name = partition_key_names(defs)[j];
    assert(p.index_queries@.len() == qs.len());
    assert(is_first_named(fields, name, i));
    let c = choose|i: int| is_first_named(fields, name, i);
    lemma_first_named_unique(fields, name, c, i);
    assert(spec_resolve_attr_name(fields, name, t) == field_attr_name(fields[i], t));
    assert(j < partition_key_names(defs).len());
    assert(qs[j].attr_name == spec_resolve_attr_name(fields, name, t));
    assert(qs[j].attr_name == p.index_queries@[j].attr_name@);
    assert(is_plan_of(p.fields@[i], fields[i], t));
}

/// Each attribute-name entry of a table model names the attribute its
/// field is stored under, the same name as the field's plan: the enum
/// variant of the match arm is its PascalCase and the accessor its
/// snake_case, written raw where that is a keyword.
pub proof fn law_attr_name_accessors(p: TableModelPlan, input: DeriveInput, i: int)
    requires
        is_table_plan_of(p, input),
        0 <= i < input.fields@.len(),
    ensures
        p.attr_names@[i].attr_name@ == p.fields@[i].attr_key@,
        p.attr_names@[i].arm_variant@ == pascal(p.fields@[i].attr_key@),
        p.attr_names@[i].getter.name@ == snake(p.fields@[i].attr_key@),
        p.attr_names@[i].getter.raw == keywords().contains(p.attr_names@[i].getter.name@),
{
    assert(is_plan_of(p.fields@[i], input.fields@[i], p.rename_all));
    assert(is_attr_name_plan_of(p.attr_names@[i], input.fields@[i], p.rename_all));
}

/// The put input builder of a table model requires a field exactly when
/// the field is not marked `uuid` and its type is not an `Option`,
/// whatever other markers it carries.
pub proof fn law_required_input_fields(p: TableModelPlan, input: DeriveInput, i: int)
    requires
        is_table_plan_of(p, input),
        0 <= i < input.fields@.len(),
    ensures
        p.required_input_fields@.contains(i as usize)
            <==> !has_unary(input.fields@[i].attrs@, "uuid"@) && !p.fields@[i].optional,
{
    let m = required_input_mask(p.uuid_fields@, p.fields@);
    lemma_selected_upto(m, m.len());
    assert(p.uuid_fields@[i] == has_unary(input.fields@[i].attrs@, "uuid"@));
    if p.required_input_fields@.contains(i as usize) {
        let k = choose|k: int| 0 <= k < p.required_input_fields@.len() && p.required_input_fields@[k] == i as usize;
        assert(m[p.required_input_fields@[k] as int]);
    }
    if !has_unary(input.fields@[i].attrs@, "uuid"@) && !p.fields@[i].optional {
        assert(m[i]);
    }
}

/// The key-condition methods of a list of indexes are the methods of each
/// index in turn: those of a concatenation are the concatenation of
/// theirs, and those of one index are its own chain.
pub proof fn law_methods_concat(
    owner: Seq<char>,
    fields: Seq<Field>,
    t: RenameAllType,
    a: Seq<GsiView>,
    b: Seq<GsiView>,
    g: GsiView,
)
    ensures
        methods_for_gsis(owner, fields, t, a + b)
            == methods_for_gsis(owner, fields, t, a) + methods_for_gsis(owner, fields, t, b),
        methods_for_gsis(owner, fields, t, seq![g]) == methods_for_gsi(owner, fields, t, g),
    decreases b.len(),
{
    assert(seq![g].drop_last() =~= Seq::<GsiView>::empty());
    assert(seq![g].last() == g);
    assert(methods_for_gsis(owner, fields, t, Seq::<GsiView>::empty()) == Seq::<MethodView>::empty());
    assert(Seq::<MethodView>::empty() + methods_for_gsi(owner, fields, t, g) =~= methods_for_gsi(owner, fields, t, g));
    if b.len() == 0 {
        assert(a + b =~= a);
        assert(methods_for_gsis(owner, fields, t, a) + Seq::<MethodView>::empty() =~= methods_for_gsis(owner, fields, t, a));
    } else {
        law_methods_concat(owner, fields, t, a, b.drop_last(), g);
        assert((a + b).drop_last() =~= a + b.drop_last());
        assert((a + b).last() == b.last());
        assert(methods_for_gsis(owner, fields, t, a + b) =~= methods_for_gsis(owner, fields, t, a)
            + methods_for_gsis(owner, fields, t, b.drop_last()) + methods_for_gsi(owner, fields, t, b.last()));
    }
}

/// The generated token names of an index are named after their owner.
proof fn lemma_token_prefixes(owner: Seq<char>, name: Seq<char>, i: nat)
    ensures
        spec_starts_with(spec_gsi_partition_token_name(owner, name), owner),
        spec_starts_with(spec_gsi_sort_token_name(owner, name, i), owner),
        spec_starts_with(spec_gsi_terminal_token_name(owner, name), owner),
{
    assert(spec_gsi_partition_token_name(owner, name).subrange(0, owner.len() as int) =~= owner);
    assert(spec_gsi_sort_token_name(owner, name, i).subrange(0, owner.len() as int) =~= owner);
    assert(spec_gsi_terminal_token_name(owner, name).subrange(0, owner.len() as int) =~= owner);
}

/// Every token of the key-condition methods generated for an owner is
/// named after that owner.
proof fn lemma_method_tokens_owned(owner: Seq<char>, fields: Seq<Field>, t: RenameAllType, gsis: Seq<GsiView>)
    ensures
        forall|j: int| 0 <= j < methods_for_gsis(owner, fields, t, gsis).len() ==> {
            &&& spec_starts_with(#[trigger] methods_for_gsis(owner, fields, t, gsis)[j].token, owner)
            &&& spec_starts_with(methods_for_gsis(owner, fields, t, gsis)[j].next_token, owner)
        },
    decreases gsis.len(),
{
    if gsis.len() > 0 {
        let init = gsis.drop_last();
        let g = gsis.last();
        lemma_method_tokens_owned(owner, fields, t, init);
        let prev = methods_for_gsis(owner, fields, t, init);
        let own = methods_for_gsi(owner, fields, t, g);
        let all = methods_for_gsis(owner, fields, t, gsis);
        assert(all == prev + own);
        assert forall|k: int| 0 <= k < own.len() implies spec_starts_with(#[trigger] own[k].token, owner)
            && spec_starts_with(own[k].next_token, owner) by {
            lemma_token_prefixes(owner, g.name, 0);
            if k > 0 {
                lemma_token_prefixes(owner, g.name, (k - 1) as nat);
                lemma_token_prefixes(owner, g.name, k as nat);
            }
        }
        assert forall|j: int| 0 <= j < all.len() implies {
            &&& spec_starts_with(#[trigger] all[j].token, owner)
            &&& spec_starts_with(all[j].next_token, owner)
        } by {
            if j < prev.len() {
                assert(all[j] == prev[j]);
            } else {
                assert(all[j] == own[j - prev.len()]);
            }
        }
    }
}

/// The key-condition methods of a `RaidenIndex` projection are typed by
/// tokens of its source struct, the owner of its query token: every token
/// they start from or lead to is named after the source struct, as the
/// query token is.
pub proof fn law_index_tokens_follow_source(p: IndexModelPlan, input: DeriveInput, j: int)
    requires
        is_index_plan_of(p, input),
        0 <= j < p.gsi_methods@.len(),
    ensures
        spec_starts_with(p.gsi_methods@[j].token@, p.source_ident@),
        spec_starts_with(p.gsi_methods@[j].next_token@, p.source_ident@),
        spec_starts_with(p.query_token@, p.source_ident@),
{
    let t = p.rename_all;
    let source = p.source_ident@;
    let views = index_views(input);
    lemma_method_tokens_owned(source, input.fields@, t, views);
    let ms = methods_for_gsis(source, input.fields@, t, views);
    assert(p.gsi_methods@.map_values(|m: KeyConditionMethod| method_view(m)) == ms);
    assert(ms.len() == p.gsi_methods@.len());
    assert(method_view(p.gsi_methods@[j]) == ms[j]);
    assert(ms[j].token == p.gsi_methods@[j].token@);
    assert(ms[j].next_token == p.gsi_methods@[j].next_token@);
    assert(spec_starts_with(ms[j].token, source));
    lemma_token_prefixes(source, p.gsi_name@, 0);
    assert((source + "KeyConditionToken"@).subrange(0, source.len() as int) =~= source);
}

/// When the first index a `RaidenIndex` declares is its own and has a
/// partition key, the projection's query starts from the token its first
/// key-condition method starts: the partition-key condition comes first.
pub proof fn law_index_query_token_heads_chain(p: IndexModelPlan, input: DeriveInput)
    requires
        is_index_plan_of(p, input),
        index_views(input).len() > 0,
        index_views(input)[0].name == p.gsi_name@,
        index_views(input)[0].partition_key is Some,
    ensures
        p.gsi_methods@.len() > 0,
        p.gsi_methods@[0].token@ == p.query_token@,
{
    let t = p.rename_all;
    let source = p.source_ident@;
    let views = index_views(input);
    let g = views[0];
    law_methods_concat(source, input.fields@, t, seq![g], views.drop_first(), g);
    assert(seq![g] + views.drop_first() =~= views);
    let ms = methods_for_gsis(source, input.fields@, t, views);
    let own = methods_for_gsi(source, input.fields@, t, g);
    assert(ms == own + methods_for_gsis(source, input.fields@, t, views.drop_first()));
    assert(own.len() > 0);
    assert(p.gsi_methods@.map_values(|m: KeyConditionMethod| method_view(m)) == ms);
    assert(ms.len() == p.gsi_methods@.len());
    assert(ms[0] == own[0]);
    assert(method_view(p.gsi_methods@[0]) == ms[0]);
    assert(has_typed_gsi(views, p.gsi_name@)) by {
        assert(views[0].name == p.gsi_name@ && views[0].partition_key is Some);
    }
}

} // verus!
