//! Index selection on query and scan builders, the typed index queries,
//! and the projection items of secondary indexes.

use vstd::prelude::*;
use crate::case::{keywords, method_name, snake, to_case, CaseStyle, MethodName};
use crate::fields::{lemma_selected_upto, select_indices, selected};
use crate::finder::{find_omit_gsi_names, find_raiden_eq_strings, gsi_view, raiden_eq_strings, GsiView};
use crate::model::{Field, GsiDefinition};
use crate::naming::{
    attr_name_resolvable, create_auto_gsi_projection_name, create_gsi_partition_token_name,
    create_gsi_token_name, resolve_attr_name, spec_auto_gsi_projection_name,
    spec_gsi_partition_token_name, spec_gsi_token_name, spec_resolve_attr_name,
};
use crate::rename::RenameAllType;
use crate::text::{joined, text_is};

verus! {

/// The views of a list of declared indexes.
pub open spec fn gsi_views(defs: Seq<GsiDefinition>) -> Seq<GsiView> {
    defs.map_values(|d: GsiDefinition| gsi_view(d))
}

/// Some declared index is named `name` and has a partition key.
pub open spec fn has_typed_gsi(defs: Seq<GsiView>, name: Seq<char>) -> bool {
    exists|k: int| 0 <= k < defs.len() && #[trigger] defs[k].name == name && defs[k].partition_key is Some
}

fn typed_gsi_declared(defs: &[GsiDefinition], name: &str) -> (res: bool)
    ensures
        res == has_typed_gsi(gsi_views(defs@), name@),
{
    let n = defs.len();
    let mut k: usize = 0;
    while k < n
        invariant
            n == defs@.len(),
            k <= n,
            forall|j: int| 0 <= j < k ==> !(#[trigger] gsi_views(defs@)[j].name == name@
                && gsi_views(defs@)[j].partition_key is Some),
        decreases n - k,
    {
        if text_is(&defs[k].name, name) && defs[k].partition_key.is_some() {
            assert(gsi_views(defs@)[k as int].name == name@);
            return true;
        }
        k = k + 1;
    }
    false
}

/// An index-selection method of the query or scan builder.
#[derive(Clone, Debug)]
pub struct IndexMethod {
    /// The method: the snake_case of the index name.
    pub method: MethodName,
    /// The token type of the typed query it switches to, when the index is
    /// declared with a partition key.
    pub typed_token: Option<String>,
}

/// `m` is the index-selection method of the index `name`.
pub open spec fn is_index_method_of(m: IndexMethod, struct_name: Seq<char>, defs: Seq<GsiView>, name: Seq<char>) -> bool {
    &&& m.method.name@ == snake(name)
    &&& m.method.raw == keywords().contains(snake(name))
    &&& match m.typed_token {
        Some(t) => has_typed_gsi(defs, name) && t@ == spec_gsi_token_name(struct_name, name),
        None => !has_typed_gsi(defs, name),
    }
}

/// The index-selection methods of the query and scan builders, one per
/// index name, in order.
pub fn index_methods(struct_name: &str, gsi_names: &[String], gsi_definitions: &[GsiDefinition]) -> (res: Vec<IndexMethod>)
    ensures
        res@.len() == gsi_names@.len(),
        forall|i: int| 0 <= i < gsi_names@.len() ==> #[trigger] is_index_method_of(
            res@[i],
            struct_name@,
            gsi_views(gsi_definitions@),
            gsi_names@[i]@,
        ),
{
    let n = gsi_names.len();
    let mut res: Vec<IndexMethod> = Vec::new();
    let mut i: usize = 0;
    while i < n
        invariant
            n == gsi_names@.len(),
            i <= n,
            res@.len() == i,
            forall|j: int| 0 <= j < i ==> #[trigger] is_index_method_of(
                res@[j],
                struct_name@,
                gsi_views(gsi_definitions@),
                gsi_names@[j]@,
            ),
        decreases n - i,
    {
        let name = gsi_names[i].as_str();
        let method = method_name(to_case(name, CaseStyle::Snake));
        let typed_token = if typed_gsi_declared(gsi_definitions, name) {
            Some(create_gsi_token_name(struct_name, name))
        } else {
            None
        };
        res.push(IndexMethod { method, typed_token });
        i = i + 1;
    }
    res
}

/// A typed index query entry point: `{index}_key_condition`, starting a
/// condition on the index partition key.
#[derive(Clone, Debug)]
pub struct IndexQueryMethod {
    pub method: MethodName,
    pub token: String,
    pub attr_name: String,
}

/// An index query entry point as the specifications see it.
pub struct IndexQueryView {
    pub name: Seq<char>,
    pub raw: bool,
    pub token: Seq<char>,
    pub attr_name: Seq<char>,
}

/// The view of an index query entry point.
pub open spec fn index_query_view(m: IndexQueryMethod) -> IndexQueryView {
    IndexQueryView { name: m.method.name@, raw: m.method.raw, token: m.token@, attr_name: m.attr_name@ }
}

/// The entry points of the indexes that have a partition key, in order.
pub open spec fn index_queries(
    struct_name: Seq<char>,
    fields: Seq<Field>,
    t: RenameAllType,
    defs: Seq<GsiView>,
) -> Seq<IndexQueryView>
    decreases defs.len(),
{
    if defs.len() == 0 {
        Seq::empty()
    } else {
        let prev = index_queries(struct_name, fields, t, defs.drop_last());
        let g = defs.last();
        match g.partition_key {
            Some(pk) => {
                let name = snake(g.name) + "_key_condition"@;
                prev.push(IndexQueryView {
                    name,
                    raw: keywords().contains(name),
                    token: spec_gsi_token_name(struct_name, g.name),
                    attr_name: spec_resolve_attr_name(fields, pk, t),
                })
            },
            None => prev,
        }
    }
}

/// The partition keys of all indexes can be resolved.
pub open spec fn index_partition_keys_resolvable(fields: Seq<Field>, t: RenameAllType, defs: Seq<GsiView>) -> bool {
    forall|k: int| 0 <= k < defs.len() && (#[trigger] defs[k]).partition_key is Some
        ==> attr_name_resolvable(fields, defs[k].partition_key->0, t)
}

/// The typed index query entry points and the token type each starts.
/// A partition key naming an unknown field is refused.
pub fn index_query_methods(
    struct_name: &str,
    fields: &[Field],
    rename_all_type: RenameAllType,
    gsi_definitions: &[GsiDefinition],
) -> (res: Vec<IndexQueryMethod>)
    requires
        index_partition_keys_resolvable(fields@, rename_all_type, gsi_views(gsi_definitions@)),
    ensures
        res@.map_values(|m: IndexQueryMethod| index_query_view(m))
            == index_queries(struct_name@, fields@, rename_all_type, gsi_views(gsi_definitions@)),
{
    let ghost views = gsi_views(gsi_definitions@);
    let n = gsi_definitions.len();
    let mut res: Vec<IndexQueryMethod> = Vec::new();
    let mut k: usize = 0;
    assert(views.take(0) =~= Seq::<GsiView>::empty());
    while k < n
        invariant
            n == gsi_definitions@.len(),
            k <= n,
            views == gsi_views(gsi_definitions@),
            index_partition_keys_resolvable(fields@, rename_all_type, views),
            res@.map_values(|m: IndexQueryMethod| index_query_view(m))
                == index_queries(struct_name@, fields@, rename_all_type, views.take(k as int)),
        decreases n - k,
    {
        let d = &gsi_definitions[k];
        assert(views[k as int] == gsi_view(*d));
        assert(views.take(k + 1).drop_last() =~= views.take(k as int));
        assert(views.take(k + 1).last() == views[k as int]);
        let ghost before = res@.map_values(|m: IndexQueryMethod| index_query_view(m));
        match &d.partition_key {
            Some(pk) => {
                let snake_name = to_case(d.name.as_str(), CaseStyle::Snake);
                let method = method_name(joined(snake_name.as_str(), "_key_condition"));
                let token = create_gsi_token_name(struct_name, d.name.as_str());
                let attr_name = resolve_attr_name(fields, rename_all_type, pk.as_str());
                let m = IndexQueryMethod { method, token, attr_name };
                res.push(m);
                assert(res@.map_values(|m: IndexQueryMethod| index_query_view(m)) =~= before.push(index_query_view(m)));
            },
            None => {},
        }
        k = k + 1;
    }
    assert(views.take(n as int) =~= views);
    res
}

/// The token types declared for the typed index queries: one per index
/// with a partition key, in order.
pub open spec fn index_query_tokens(struct_name: Seq<char>, defs: Seq<GsiView>) -> Seq<Seq<char>>
    decreases defs.len(),
{
    if defs.len() == 0 {
        Seq::empty()
    } else {
        let prev = index_query_tokens(struct_name, defs.drop_last());
        if defs.last().partition_key is Some {
            prev.push(spec_gsi_token_name(struct_name, defs.last().name))
        } else {
            prev
        }
    }
}

/// The token types of the typed index queries.
pub fn index_query_token_names(struct_name: &str, gsi_definitions: &[GsiDefinition]) -> (res: Vec<String>)
    ensures
        res@.map_values(|s: String| s@) == index_query_tokens(struct_name@, gsi_views(gsi_definitions@)),
{
    let ghost views = gsi_views(gsi_definitions@);
    let n = gsi_definitions.len();
    let mut res: Vec<String> = Vec::new();
    let mut k: usize = 0;
    assert(views.take(0) =~= Seq::<GsiView>::empty());
    while k < n
        invariant
            n == gsi_definitions@.len(),
            k <= n,
            views == gsi_views(gsi_definitions@),
            res@.map_values(|s: String| s@) == index_query_tokens(struct_name@, views.take(k as int)),
        decreases n - k,
    {
        let d = &gsi_definitions[k];
        assert(views[k as int] == gsi_view(*d));
        assert(views.take(k + 1).drop_last() =~= views.take(k as int));
        assert(views.take(k + 1).last() == views[k as int]);
        let ghost before = res@.map_values(|s: String| s@);
        if d.partition_key.is_some() {
            let t = create_gsi_token_name(struct_name, d.name.as_str());
            res.push(t);
            assert(res@.map_values(|s: String| s@) =~= before.push(t@));
        }
        k = k + 1;
    }
    assert(views.take(n as int) =~= views);
    res
}

/// The token a projection item's `query` starts with: the index partition
/// token when the index is declared with a partition key, else the source
/// struct's general key-condition token.
pub open spec fn spec_projection_query_token(source: Seq<char>, gsi_name: Seq<char>, defs: Seq<GsiView>) -> Seq<char> {
    if has_typed_gsi(defs, gsi_name) {
        spec_gsi_partition_token_name(source, gsi_name)
    } else {
        source + "KeyConditionToken"@
    }
}

/// The token a projection item's `query` starts with.
pub fn projection_query_token(source_struct_name: &str, gsi_name: &str, gsi_definitions: &[GsiDefinition]) -> (res: String)
    ensures
        res@ == spec_projection_query_token(source_struct_name@, gsi_name@, gsi_views(gsi_definitions@)),
{
    if typed_gsi_declared(gsi_definitions, gsi_name) {
        create_gsi_partition_token_name(source_struct_name, gsi_name)
    } else {
        joined(source_struct_name, "KeyConditionToken")
    }
}

/// The projection item generated for one index from the fields that are
/// not left out of it.
#[derive(Clone, Debug)]
pub struct AutoProjection {
    /// The index name.
    pub gsi_name: String,
    /// The projection item name.
    pub name: String,
    /// The positions of the source fields it keeps, in order.
    pub fields: Vec<usize>,
    /// The positions of the index declarations with that name, in order.
    pub definitions: Vec<usize>,
}

/// Which fields a projection for `gsi_name` keeps: those not marked
/// `#[raiden(omit_gsi = gsi_name)]` or `#[raiden(omit_lsi = gsi_name)]`.
pub open spec fn kept_mask(fields: Seq<Field>, gsi_name: Seq<char>) -> Seq<bool> {
    fields.map_values(|f: Field| !omit_names(f).contains(gsi_name))
}

/// The indexes a field is left out of: its `omit_gsi` values, then its
/// `omit_lsi` values.
pub open spec fn omit_names(f: Field) -> Seq<Seq<char>> {
    raiden_eq_strings(f.attrs@, "omit_gsi"@) + raiden_eq_strings(f.attrs@, "omit_lsi"@)
}

/// Which declarations are named `gsi_name`.
pub open spec fn named_mask(defs: Seq<GsiView>, gsi_name: Seq<char>) -> Seq<bool> {
    defs.map_values(|d: GsiView| d.name == gsi_name)
}

/// `p` is the projection item of index `gsi_name`.
pub open spec fn is_auto_projection_of(
    p: AutoProjection,
    source: Seq<char>,
    fields: Seq<Field>,
    defs: Seq<GsiView>,
    gsi_name: Seq<char>,
) -> bool {
    &&& p.gsi_name@ == gsi_name
    &&& p.name@ == spec_auto_gsi_projection_name(source, gsi_name)
    &&& p.fields@ == selected(kept_mask(fields, gsi_name))
    &&& p.definitions@ == selected(named_mask(defs, gsi_name))
}

/// Some field is left out of index `gsi_name`.
pub open spec fn omits_some(fields: Seq<Field>, gsi_name: Seq<char>) -> bool {
    exists|i: int| 0 <= i < fields.len() && !#[trigger] kept_mask(fields, gsi_name)[i]
}

/// The projection items, in order of the index names, of every index that
/// some field is left out of.
pub open spec fn auto_projections_upto(
    source: Seq<char>,
    fields: Seq<Field>,
    defs: Seq<GsiView>,
    names: Seq<Seq<char>>,
) -> Seq<Seq<char>>
    decreases names.len(),
{
    if names.len() == 0 {
        Seq::empty()
    } else {
        let prev = auto_projections_upto(source, fields, defs, names.drop_last());
        if omits_some(fields, names.last()) {
            prev.push(names.last())
        } else {
            prev
        }
    }
}

fn omit_lists(fields: &[Field]) -> (res: Vec<Vec<String>>)
    ensures
        res@.len() == fields@.len(),
        forall|i: int| 0 <= i < fields@.len() ==> (#[trigger] res@[i])@.map_values(|s: String| s@)
            == omit_names(fields@[i]),
{
    let n = fields.len();
    let mut res: Vec<Vec<String>> = Vec::new();
    let mut i: usize = 0;
    while i < n
        invariant
            n == fields@.len(),
            i <= n,
            res@.len() == i,
            forall|j: int| 0 <= j < i ==> (#[trigger] res@[j])@.map_values(|s: String| s@)
                == omit_names(fields@[j]),
        decreases n - i,
    {
        let mut names = find_omit_gsi_names(fields[i].attrs.as_slice());
        let mut local = find_raiden_eq_strings(fields[i].attrs.as_slice(), "omit_lsi");
        let ghost first = names@.map_values(|s: String| s@);
        let ghost second = local@.map_values(|s: String| s@);
        names.append(&mut local);
        assert(names@.map_values(|s: String| s@) =~= first + second);
        res.push(names);
        i = i + 1;
    }
    res
}

fn contains_name(names: &Vec<String>, name: &str) -> (res: bool)
    ensures
        res == names@.map_values(|s: String| s@).contains(name@),
{
    let n = names.len();
    let mut i: usize = 0;
    while i < n
        invariant
            n == names@.len(),
            i <= n,
            forall|j: int| 0 <= j < i ==> names@[j]@ != name@,
        decreases n - i,
    {
        if text_is(&names[i], name) {
            assert(names@.map_values(|s: String| s@)[i as int] == name@);
            return true;
        }
        i = i + 1;
    }
    false
}

/// The projection item of one index, or `None` when no field is left out
/// of it.
fn auto_projection_for(
    source_struct_name: &str,
    fields: &[Field],
    omits: &Vec<Vec<String>>,
    gsi_definitions: &[GsiDefinition],
    gsi_name: &String,
) -> (res: Option<AutoProjection>)
    requires
        omits@.len() == fields@.len(),
        forall|i: int| 0 <= i < fields@.len() ==> (#[trigger] omits@[i])@.map_values(|s: String| s@)
            == omit_names(fields@[i]),
    ensures
        res is Some <==> omits_some(fields@, gsi_name@),
        res matches Some(p) ==> is_auto_projection_of(p, source_struct_name@, fields@, gsi_views(gsi_definitions@), gsi_name@),
{
    let n = fields.len();
    let mut mask: Vec<bool> = Vec::new();
    let mut i: usize = 0;
    while i < n
        invariant
            n == fields@.len(),
            omits@.len() == n,
            i <= n,
            forall|j: int| 0 <= j < n ==> (#[trigger] omits@[j])@.map_values(|s: String| s@)
                == omit_names(fields@[j]),
            mask@ =~= kept_mask(fields@, gsi_name@).take(i as int),
        decreases n - i,
    {
        let omitted = contains_name(&omits[i], gsi_name.as_str());
        mask.push(!omitted);
        i = i + 1;
    }
    assert(mask@ =~= kept_mask(fields@, gsi_name@));
    let kept = select_indices(&mask);
    proof {
        lemma_selected_upto(mask@, mask@.len());
    }
    if kept.len() == n {
        assert(!omits_some(fields@, gsi_name@));
        return None;
    }
    let m = gsi_definitions.len();
    let mut named: Vec<bool> = Vec::new();
    let mut k: usize = 0;
    while k < m
        invariant
            m == gsi_definitions@.len(),
            k <= m,
            named@ =~= named_mask(gsi_views(gsi_definitions@), gsi_name@).take(k as int),
        decreases m - k,
    {
        named.push(text_is(&gsi_definitions[k].name, gsi_name.as_str()));
        k = k + 1;
    }
    assert(named@ =~= named_mask(gsi_views(gsi_definitions@), gsi_name@));
    let definitions = select_indices(&named);
    let name = create_auto_gsi_projection_name(source_struct_name, gsi_name.as_str());
    Some(AutoProjection { gsi_name: gsi_name.clone(), name, fields: kept, definitions })
}

/// The projection items generated for the indexes that some field is left
/// out of with `#[raiden(omit_gsi = "...")]` or `#[raiden(omit_lsi = "...")]`,
/// in order of the index names.
pub fn auto_gsi_projections(
    source_struct_name: &str,
    fields: &[Field],
    gsi_names: &[String],
    gsi_definitions: &[GsiDefinition],
) -> (res: Vec<AutoProjection>)
    ensures
        res@.map_values(|p: AutoProjection| p.gsi_name@) == auto_projections_upto(
            source_struct_name@,
            fields@,
            gsi_views(gsi_definitions@),
            gsi_names@.map_values(|s: String| s@),
        ),
        forall|k: int| 0 <= k < res@.len() ==> is_auto_projection_of(
            #[trigger] res@[k],
            source_struct_name@,
            fields@,
            gsi_views(gsi_definitions@),
            res@[k].gsi_name@,
        ),
{
    let omits = omit_lists(fields);
    let ghost names = gsi_names@.map_values(|s: String| s@);
    let n = gsi_names.len();
    let mut res: Vec<AutoProjection> = Vec::new();
    let mut i: usize = 0;
    assert(names.take(0) =~= Seq::<Seq<char>>::empty());
    while i < n
        invariant
            n == gsi_names@.len(),
            i <= n,
            names == gsi_names@.map_values(|s: String| s@),
            omits@.len() == fields@.len(),
            forall|j: int| 0 <= j < fields@.len() ==> (#[trigger] omits@[j])@.map_values(|s: String| s@)
                == omit_names(fields@[j]),
            res@.map_values(|p: AutoProjection| p.gsi_name@) == auto_projections_upto(
                source_struct_name@,
                fields@,
                gsi_views(gsi_definitions@),
                names.take(i as int),
            ),
            forall|k: int| 0 <= k < res@.len() ==> is_auto_projection_of(
                #[trigger] res@[k],
                source_struct_name@,
                fields@,
                gsi_views(gsi_definitions@),
                res@[k].gsi_name@,
            ),
        decreases n - i,
    {
        assert(names.take(i + 1).drop_last() =~= names.take(i as int));
        assert(names.take(i + 1).last() == gsi_names@[i as int]@);
        let ghost before = res@.map_values(|p: AutoProjection| p.gsi_name@);
        match auto_projection_for(source_struct_name, fields, &omits, gsi_definitions, &gsi_names[i]) {
            Some(p) => {
                res.push(p);
                assert(res@.map_values(|p: AutoProjection| p.gsi_name@) =~= before.push(gsi_names@[i as int]@));
            },
            None => {},
        }
        i = i + 1;
    }
    assert(names.take(n as int) =~= names);
    res
}

} // verus!
