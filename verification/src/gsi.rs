//! Typed key conditions and projection items of secondary indexes.

use vstd::prelude::*;
use crate::case::{keywords, method_name, snake, to_case, CaseStyle, MethodName};
use crate::finder::{gsi_view, GsiView};
use crate::model::{Field, GsiDefinition};
use crate::naming::{
    attr_name_resolvable, create_gsi_partition_token_name, create_gsi_sort_token_name,
    create_gsi_terminal_token_name, resolve_attr_name_for_fields, spec_gsi_partition_token_name,
    spec_gsi_sort_token_name, spec_gsi_terminal_token_name, spec_resolve_attr_name,
};
use crate::rename::RenameAllType;
use crate::text::{decimal, decimal_string, joined};

verus! {

/// One generated key-condition method: its name, the token type of the
/// condition it starts, the token type that must follow, and the stored
/// attribute name it constrains.
#[derive(Clone, Debug)]
pub struct KeyConditionMethod {
    pub method: MethodName,
    pub token: String,
    pub next_token: String,
    pub attr_name: String,
}

/// A key-condition method as the specifications see it.
pub struct MethodView {
    pub name: Seq<char>,
    pub raw: bool,
    pub token: Seq<char>,
    pub next_token: Seq<char>,
    pub attr_name: Seq<char>,
}

/// The view of a key-condition method.
pub open spec fn method_view(m: KeyConditionMethod) -> MethodView {
    MethodView {
        name: m.method.name@,
        raw: m.method.raw,
        token: m.token@,
        next_token: m.next_token@,
        attr_name: m.attr_name@,
    }
}

/// A method view with the raw marker that its name calls for.
pub open spec fn mview(name: Seq<char>, token: Seq<char>, next: Seq<char>, attr: Seq<char>) -> MethodView {
    MethodView { name, raw: keywords().contains(name), token, next_token: next, attr_name: attr }
}

/// The method for the sort-key segment at position `i` when an index has
/// several: `{index}_sort_key_condition_{i + 1}`, whose successor is the
/// next segment's token, or the terminal token after the last.
pub open spec fn sort_segment_method(
    owner: Seq<char>,
    fields: Seq<Field>,
    t: RenameAllType,
    g: GsiView,
    i: int,
) -> MethodView {
    let next = if i + 1 < g.sort_keys.len() {
        spec_gsi_sort_token_name(owner, g.name, (i + 1) as nat)
    } else {
        spec_gsi_terminal_token_name(owner, g.name)
    };
    mview(
        snake(g.name) + "_sort_key_condition_"@ + decimal((i + 1) as nat),
        spec_gsi_sort_token_name(owner, g.name, i as nat),
        next,
        spec_resolve_attr_name(fields, g.sort_keys[i], t),
    )
}

/// The key-condition methods of one index: none without a partition key;
/// otherwise `{index}_key_condition` for the partition key, followed by
/// `{index}_sort_key_condition` for a single sort key, or by one numbered
/// method per sort-key segment.
pub open spec fn methods_for_gsi(owner: Seq<char>, fields: Seq<Field>, t: RenameAllType, g: GsiView) -> Seq<MethodView> {
    match g.partition_key {
        None => Seq::empty(),
        Some(pk) => {
            let terminal = spec_gsi_terminal_token_name(owner, g.name);
            let first_next = if g.sort_keys.len() == 0 {
                terminal
            } else {
                spec_gsi_sort_token_name(owner, g.name, 0)
            };
            let head = mview(
                snake(g.name) + "_key_condition"@,
                spec_gsi_partition_token_name(owner, g.name),
                first_next,
                spec_resolve_attr_name(fields, pk, t),
            );
            let sorts = if g.sort_keys.len() == 1 {
                seq![
                    mview(
                        snake(g.name) + "_sort_key_condition"@,
                        spec_gsi_sort_token_name(owner, g.name, 0),
                        terminal,
                        spec_resolve_attr_name(fields, g.sort_keys[0], t),
                    ),
                ]
            } else {
                Seq::new(g.sort_keys.len(), |i: int| sort_segment_method(owner, fields, t, g, i))
            };
            seq![head] + sorts
        },
    }
}

/// The key-condition methods of all indexes, index by index.
pub open spec fn methods_for_gsis(
    owner: Seq<char>,
    fields: Seq<Field>,
    t: RenameAllType,
    gsis: Seq<GsiView>,
) -> Seq<MethodView>
    decreases gsis.len(),
{
    if gsis.len() == 0 {
        Seq::empty()
    } else {
        methods_for_gsis(owner, fields, t, gsis.drop_last()) + methods_for_gsi(owner, fields, t, gsis.last())
    }
}

/// The key fields an index names can be resolved.
pub open spec fn gsi_keys_resolvable(fields: Seq<Field>, t: RenameAllType, g: GsiView) -> bool {
    match g.partition_key {
        None => true,
        Some(pk) => {
            &&& attr_name_resolvable(fields, pk, t)
            &&& forall|i: int| 0 <= i < g.sort_keys.len() ==> #[trigger] attr_name_resolvable(fields, g.sort_keys[i], t)
        },
    }
}

/// The key fields of every index can be resolved.
pub open spec fn gsis_resolvable(fields: Seq<Field>, t: RenameAllType, gsis: Seq<GsiDefinition>) -> bool {
    forall|k: int| 0 <= k < gsis.len() ==> #[trigger] gsi_keys_resolvable(fields, t, gsi_view(gsis[k]))
}

fn key_condition_method(
    name: String,
    token: String,
    next_token: String,
    attr_name: String,
) -> (res: KeyConditionMethod)
    ensures
        method_view(res) == mview(name@, token@, next_token@, attr_name@),
{
    KeyConditionMethod { method: method_name(name), token, next_token, attr_name }
}

/// The key-condition methods of one index, appended to `out`.
fn push_methods_for_gsi(
    out: &mut Vec<KeyConditionMethod>,
    token_owner: &str,
    fields: &[Field],
    rename_all_type: RenameAllType,
    gsi: &GsiDefinition,
)
    requires
        gsi_keys_resolvable(fields@, rename_all_type, gsi_view(*gsi)),
    ensures
        final(out)@.map_values(|m: KeyConditionMethod| method_view(m))
            == old(out)@.map_values(|m: KeyConditionMethod| method_view(m))
                + methods_for_gsi(token_owner@, fields@, rename_all_type, gsi_view(*gsi)),
{
    let ghost g = gsi_view(*gsi);
    let ghost start = out@.map_values(|m: KeyConditionMethod| method_view(m));
    let partition_key = match &gsi.partition_key {
        Some(pk) => pk,
        None => {
            assert(out@.map_values(|m: KeyConditionMethod| method_view(m)) =~= start + Seq::<MethodView>::empty());
            return;
        },
    };
    let name = gsi.name.as_str();
    let n = gsi.sort_keys.len();
    assert(g.sort_keys.len() == n);
    let terminal = create_gsi_terminal_token_name(token_owner, name);
    let first_next = if n == 0 {
        create_gsi_terminal_token_name(token_owner, name)
    } else {
        create_gsi_sort_token_name(token_owner, name, 0)
    };
    let snake_name = to_case(name, CaseStyle::Snake);
    let head = key_condition_method(
        joined(snake_name.as_str(), "_key_condition"),
        create_gsi_partition_token_name(token_owner, name),
        first_next,
        resolve_attr_name_for_fields(fields, rename_all_type, partition_key.as_str()),
    );
    out.push(head);
    let ghost with_head = start.push(method_view(head));
    assert(out@.map_values(|m: KeyConditionMethod| method_view(m)) =~= with_head);
    if n == 1 {
        assert(attr_name_resolvable(fields@, g.sort_keys[0], rename_all_type));
        let m = key_condition_method(
            joined(snake_name.as_str(), "_sort_key_condition"),
            create_gsi_sort_token_name(token_owner, name, 0),
            terminal,
            resolve_attr_name_for_fields(fields, rename_all_type, gsi.sort_keys[0].as_str()),
        );
        out.push(m);
        assert(out@.map_values(|m: KeyConditionMethod| method_view(m))
            =~= start + methods_for_gsi(token_owner@, fields@, rename_all_type, g));
    } else {
        let ghost sorts = Seq::new(n as nat, |i: int| sort_segment_method(token_owner@, fields@, rename_all_type, g, i));
        let mut i: usize = 0;
        while i < n
            invariant
                n == gsi.sort_keys@.len(),
                g == gsi_view(*gsi),
                g.sort_keys.len() == n,
                g.partition_key is Some,
                i <= n,
                gsi_keys_resolvable(fields@, rename_all_type, g),
                snake_name@ == snake(g.name),
                name@ == g.name,
                sorts == Seq::new(n as nat, |i: int| sort_segment_method(token_owner@, fields@, rename_all_type, g, i)),
                out@.map_values(|m: KeyConditionMethod| method_view(m)) =~= with_head + sorts.take(i as int),
            decreases n - i,
        {
            let next = if i + 1 < n {
                create_gsi_sort_token_name(token_owner, name, i + 1)
            } else {
                create_gsi_terminal_token_name(token_owner, name)
            };
            let mut method = joined(snake_name.as_str(), "_sort_key_condition_");
            let num = decimal_string(i + 1);
            method.append(num.as_str());
            assert(attr_name_resolvable(fields@, g.sort_keys[i as int], rename_all_type));
            assert(gsi.sort_keys@[i as int]@ == g.sort_keys[i as int]);
            let m = key_condition_method(
                method,
                create_gsi_sort_token_name(token_owner, name, i),
                next,
                resolve_attr_name_for_fields(fields, rename_all_type, gsi.sort_keys[i].as_str()),
            );
            let ghost before = out@.map_values(|m: KeyConditionMethod| method_view(m));
            out.push(m);
            assert(method_view(m) == sorts[i as int]);
            assert(sorts.take(i + 1) =~= sorts.take(i as int).push(sorts[i as int]));
            assert(out@.map_values(|m: KeyConditionMethod| method_view(m)) =~= before.push(method_view(m)));
            i = i + 1;
        }
        assert(sorts.take(n as int) =~= sorts);
        assert(out@.map_values(|m: KeyConditionMethod| method_view(m))
            =~= start + methods_for_gsi(token_owner@, fields@, rename_all_type, g));
    }
}

/// The typed key-condition methods generated on `method_owner_name` for
/// the indexes of the source struct `token_owner_name`, index by index.
/// An index key naming an unknown field is refused.
pub fn gsi_key_condition_methods(
    token_owner_name: &str,
    fields: &[Field],
    rename_all_type: RenameAllType,
    gsi_definitions: &[GsiDefinition],
) -> (res: Vec<KeyConditionMethod>)
    requires
        gsis_resolvable(fields@, rename_all_type, gsi_definitions@),
    ensures
        res@.map_values(|m: KeyConditionMethod| method_view(m)) == methods_for_gsis(
            token_owner_name@,
            fields@,
            rename_all_type,
            gsi_definitions@.map_values(|d: GsiDefinition| gsi_view(d)),
        ),
{
    let ghost views = gsi_definitions@.map_values(|d: GsiDefinition| gsi_view(d));
    let n = gsi_definitions.len();
    let mut out: Vec<KeyConditionMethod> = Vec::new();
    let mut k: usize = 0;
    assert(views.take(0) =~= Seq::<GsiView>::empty());
    while k < n
        invariant
            n == gsi_definitions@.len(),
            k <= n,
            views == gsi_definitions@.map_values(|d: GsiDefinition| gsi_view(d)),
            gsis_resolvable(fields@, rename_all_type, gsi_definitions@),
            out@.map_values(|m: KeyConditionMethod| method_view(m))
                == methods_for_gsis(token_owner_name@, fields@, rename_all_type, views.take(k as int)),
        decreases n - k,
    {
        assert(gsi_keys_resolvable(fields@, rename_all_type, gsi_view(gsi_definitions@[k as int])));
        push_methods_for_gsi(&mut out, token_owner_name, fields, rename_all_type, &gsi_definitions[k]);
        assert(views.take(k + 1).drop_last() =~= views.take(k as int));
        assert(views.take(k + 1).last() == gsi_view(gsi_definitions@[k as int]));
        k = k + 1;
    }
    assert(views.take(n as int) =~= views);
    out
}

/// The declarations at the given positions, in that order.
pub open spec fn selected_gsis(defs: Seq<GsiDefinition>, selection: Seq<usize>) -> Seq<GsiView> {
    selection.map_values(|k: usize| gsi_view(defs[k as int]))
}

/// The typed key-condition methods for the indexes declared at the given
/// positions, in that order.
pub fn gsi_key_condition_methods_for(
    token_owner_name: &str,
    fields: &[Field],
    rename_all_type: RenameAllType,
    gsi_definitions: &[GsiDefinition],
    selection: &Vec<usize>,
) -> (res: Vec<KeyConditionMethod>)
    requires
        forall|k: int| 0 <= k < selection@.len() ==> #[trigger] selection@[k] < gsi_definitions@.len(),
        forall|k: int| 0 <= k < selection@.len() ==> gsi_keys_resolvable(
            fields@,
            rename_all_type,
            gsi_view(gsi_definitions@[#[trigger] selection@[k] as int]),
        ),
    ensures
        res@.map_values(|m: KeyConditionMethod| method_view(m)) == methods_for_gsis(
            token_owner_name@,
            fields@,
            rename_all_type,
            selected_gsis(gsi_definitions@, selection@),
        ),
{
    let ghost views = selected_gsis(gsi_definitions@, selection@);
    let n = selection.len();
    let mut out: Vec<KeyConditionMethod> = Vec::new();
    let mut k: usize = 0;
    assert(views.take(0) =~= Seq::<GsiView>::empty());
    while k < n
        invariant
            n == selection@.len(),
            k <= n,
            views == selected_gsis(gsi_definitions@, selection@),
            forall|j: int| 0 <= j < selection@.len() ==> #[trigger] selection@[j] < gsi_definitions@.len(),
            forall|j: int| 0 <= j < selection@.len() ==> gsi_keys_resolvable(
                fields@,
                rename_all_type,
                gsi_view(gsi_definitions@[#[trigger] selection@[j] as int]),
            ),
            out@.map_values(|m: KeyConditionMethod| method_view(m))
                == methods_for_gsis(token_owner_name@, fields@, rename_all_type, views.take(k as int)),
        decreases n - k,
    {
        let at = selection[k];
        assert(selection@[k as int] == at);
        push_methods_for_gsi(&mut out, token_owner_name, fields, rename_all_type, &gsi_definitions[at]);
        assert(views.take(k + 1).drop_last() =~= views.take(k as int));
        assert(views.take(k + 1).last() == gsi_view(gsi_definitions@[at as int]));
        k = k + 1;
    }
    assert(views.take(n as int) =~= views);
    out
}

} // verus!
