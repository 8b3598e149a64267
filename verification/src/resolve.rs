//! The order in which the key names declared by secondary indexes are
//! resolved against the fields of a struct, and the first one that fails.

use vstd::prelude::*;
use crate::finder::{gsi_view, GsiView};
use crate::gsi::gsi_keys_resolvable;
use crate::index::{gsi_views, index_partition_keys_resolvable, AutoProjection};
use crate::model::{Field, GsiDefinition};
use crate::derive::attr_name_resolvable_check;
use crate::naming::attr_name_resolvable;
use crate::rename::{opt_view, RenameAllType};
use crate::text::text_is;

verus! {

/// Every name in `names` resolves to a field.
pub open spec fn all_resolvable(fields: Seq<Field>, t: RenameAllType, names: Seq<Seq<char>>) -> bool {
    forall|i: int| 0 <= i < names.len() ==> #[trigger] attr_name_resolvable(fields, names[i], t)
}

/// The first of `names`, in order, that does not resolve to a field.
pub open spec fn first_unresolved(fields: Seq<Field>, t: RenameAllType, names: Seq<Seq<char>>) -> Option<Seq<char>>
    decreases names.len(),
{
    if names.len() == 0 {
        None
    } else if !attr_name_resolvable(fields, names[0], t) {
        Some(names[0])
    } else {
        first_unresolved(fields, t, names.drop_first())
    }
}

/// The partition keys of the indexes that declare one, in declaration
/// order.
pub open spec fn partition_key_names(defs: Seq<GsiView>) -> Seq<Seq<char>>
    decreases defs.len(),
{
    if defs.len() == 0 {
        Seq::empty()
    } else {
        partition_key_names(defs.drop_last()) + match defs.last().partition_key {
            Some(pk) => seq![pk],
            None => Seq::empty(),
        }
    }
}

/// The keys the key-condition methods of an index resolve: none without a
/// partition key, else the partition key and then each sort key.
pub open spec fn gsi_key_names(g: GsiView) -> Seq<Seq<char>> {
    match g.partition_key {
        None => Seq::empty(),
        Some(pk) => seq![pk] + g.sort_keys,
    }
}

/// The keys of a list of indexes, index by index.
pub open spec fn gsis_key_names(defs: Seq<GsiView>) -> Seq<Seq<char>>
    decreases defs.len(),
{
    if defs.len() == 0 {
        Seq::empty()
    } else {
        gsis_key_names(defs.drop_last()) + gsi_key_names(defs.last())
    }
}

/// The keys of the indexes named `name`, in declaration order.
pub open spec fn named_key_names(defs: Seq<GsiView>, name: Seq<char>) -> Seq<Seq<char>>
    decreases defs.len(),
{
    if defs.len() == 0 {
        Seq::empty()
    } else {
        named_key_names(defs.drop_last(), name) + if defs.last().name == name {
            gsi_key_names(defs.last())
        } else {
            Seq::empty()
        }
    }
}

/// The keys of the indexes behind each projected index name, name by name.
pub open spec fn projection_key_names(defs: Seq<GsiView>, projected: Seq<Seq<char>>) -> Seq<Seq<char>>
    decreases projected.len(),
{
    if projected.len() == 0 {
        Seq::empty()
    } else {
        projection_key_names(defs, projected.drop_last()) + named_key_names(defs, projected.last())
    }
}

/// No name is unresolved exactly when all resolve; an unresolved one is
/// among the names.
pub proof fn lemma_first_unresolved(fields: Seq<Field>, t: RenameAllType, names: Seq<Seq<char>>)
    ensures
        first_unresolved(fields, t, names) is None <==> all_resolvable(fields, t, names),
        first_unresolved(fields, t, names) matches Some(n) ==> !attr_name_resolvable(fields, n, t),
    decreases names.len(),
{
    if names.len() > 0 {
        let rest = names.drop_first();
        lemma_first_unresolved(fields, t, rest);
        if attr_name_resolvable(fields, names[0], t) {
            if all_resolvable(fields, t, rest) {
                assert forall|i: int| 0 <= i < names.len() implies #[trigger] attr_name_resolvable(fields, names[i], t) by {
                    if i > 0 {
                        assert(names[i] == rest[i - 1]);
                    }
                }
            }
            if all_resolvable(fields, t, names) {
                assert forall|i: int| 0 <= i < rest.len() implies #[trigger] attr_name_resolvable(fields, rest[i], t) by {
                    assert(rest[i] == names[i + 1]);
                }
            }
        }
    }
}

/// Names resolve all together exactly when both parts do.
pub proof fn lemma_all_resolvable_concat(fields: Seq<Field>, t: RenameAllType, a: Seq<Seq<char>>, b: Seq<Seq<char>>)
    ensures
        all_resolvable(fields, t, a + b) <==> all_resolvable(fields, t, a) && all_resolvable(fields, t, b),
{
    let ab = a + b;
    if all_resolvable(fields, t, ab) {
        assert forall|i: int| 0 <= i < a.len() implies #[trigger] attr_name_resolvable(fields, a[i], t) by {
            assert(ab[i] == a[i]);
        }
        assert forall|i: int| 0 <= i < b.len() implies #[trigger] attr_name_resolvable(fields, b[i], t) by {
            assert(ab[a.len() + i] == b[i]);
        }
    }
    if all_resolvable(fields, t, a) && all_resolvable(fields, t, b) {
        assert forall|i: int| 0 <= i < ab.len() implies #[trigger] attr_name_resolvable(fields, ab[i], t) by {
            if i < a.len() {
                assert(ab[i] == a[i]);
            } else {
                assert(ab[i] == b[i - a.len()]);
            }
        }
    }
}

/// The keys of one index resolve exactly when the index's keys are
/// resolvable.
pub proof fn lemma_gsi_key_names(fields: Seq<Field>, t: RenameAllType, g: GsiView)
    ensures
        all_resolvable(fields, t, gsi_key_names(g)) <==> gsi_keys_resolvable(fields, t, g),
{
    if let Some(pk) = g.partition_key {
        lemma_all_resolvable_concat(fields, t, seq![pk], g.sort_keys);
        assert(seq![pk][0] == pk);
    }
}

/// The partition keys resolve exactly when every declared partition key
/// does.
pub proof fn lemma_partition_key_names(fields: Seq<Field>, t: RenameAllType, defs: Seq<GsiView>)
    ensures
        all_resolvable(fields, t, partition_key_names(defs)) <==> index_partition_keys_resolvable(fields, t, defs),
    decreases defs.len(),
{
    if defs.len() > 0 {
        let init = defs.drop_last();
        let tail = match defs.last().partition_key {
            Some(pk) => seq![pk],
            None => Seq::<Seq<char>>::empty(),
        };
        lemma_partition_key_names(fields, t, init);
        lemma_all_resolvable_concat(fields, t, partition_key_names(init), tail);
        if let Some(pk) = defs.last().partition_key {
            assert(tail[0] == pk);
        }
        if index_partition_keys_resolvable(fields, t, defs) {
            assert forall|k: int| 0 <= k < init.len() && (#[trigger] init[k]).partition_key is Some implies
                attr_name_resolvable(fields, init[k].partition_key->0, t) by {
                assert(init[k] == defs[k]);
            }
            if let Some(pk) = defs.last().partition_key {
                assert(defs[defs.len() - 1].partition_key is Some);
            }
        }
        if index_partition_keys_resolvable(fields, t, init) && all_resolvable(fields, t, tail) {
            assert forall|k: int| 0 <= k < defs.len() && (#[trigger] defs[k]).partition_key is Some implies
                attr_name_resolvable(fields, defs[k].partition_key->0, t) by {
                if k < init.len() {
                    assert(init[k] == defs[k]);
                }
            }
        }
    }
}

/// The keys of a list of indexes resolve exactly when every index's keys
/// are resolvable.
pub proof fn lemma_gsis_key_names(fields: Seq<Field>, t: RenameAllType, defs: Seq<GsiView>)
    ensures
        all_resolvable(fields, t, gsis_key_names(defs))
            <==> forall|k: int| 0 <= k < defs.len() ==> #[trigger] gsi_keys_resolvable(fields, t, defs[k]),
    decreases defs.len(),
{
    if defs.len() > 0 {
        let init = defs.drop_last();
        lemma_gsis_key_names(fields, t, init);
        lemma_all_resolvable_concat(fields, t, gsis_key_names(init), gsi_key_names(defs.last()));
        lemma_gsi_key_names(fields, t, defs.last());
        if forall|k: int| 0 <= k < defs.len() ==> #[trigger] gsi_keys_resolvable(fields, t, defs[k]) {
            assert forall|k: int| 0 <= k < init.len() implies #[trigger] gsi_keys_resolvable(fields, t, init[k]) by {
                assert(init[k] == defs[k]);
            }
            assert(gsi_keys_resolvable(fields, t, defs[defs.len() - 1]));
        }
        if all_resolvable(fields, t, gsis_key_names(defs)) {
            assert forall|k: int| 0 <= k < defs.len() implies #[trigger] gsi_keys_resolvable(fields, t, defs[k]) by {
                if k < init.len() {
                    assert(init[k] == defs[k]);
                }
            }
        }
    }
}

/// The keys of the indexes named `name` resolve exactly when each such
/// index's keys are resolvable.
pub proof fn lemma_named_key_names(fields: Seq<Field>, t: RenameAllType, defs: Seq<GsiView>, name: Seq<char>)
    ensures
        all_resolvable(fields, t, named_key_names(defs, name))
            <==> forall|k: int| 0 <= k < defs.len() && (#[trigger] defs[k]).name == name ==> gsi_keys_resolvable(fields, t, defs[k]),
    decreases defs.len(),
{
    if defs.len() > 0 {
        let init = defs.drop_last();
        let tail = if defs.last().name == name {
            gsi_key_names(defs.last())
        } else {
            Seq::<Seq<char>>::empty()
        };
        lemma_named_key_names(fields, t, init, name);
        lemma_all_resolvable_concat(fields, t, named_key_names(init, name), tail);
        lemma_gsi_key_names(fields, t, defs.last());
        if forall|k: int| 0 <= k < defs.len() && (#[trigger] defs[k]).name == name ==> gsi_keys_resolvable(fields, t, defs[k]) {
            assert forall|k: int| 0 <= k < init.len() && (#[trigger] init[k]).name == name implies gsi_keys_resolvable(fields, t, init[k]) by {
                assert(init[k] == defs[k]);
            }
            if defs.last().name == name {
                assert(defs[defs.len() - 1].name == name);
            }
        }
        if all_resolvable(fields, t, named_key_names(defs, name)) {
            assert forall|k: int| 0 <= k < defs.len() && (#[trigger] defs[k]).name == name implies gsi_keys_resolvable(fields, t, defs[k]) by {
                if k < init.len() {
                    assert(init[k] == defs[k]);
                }
            }
        }
    }
}

/// The keys behind the projected names resolve exactly when every index
/// named by a projected name has resolvable keys.
pub proof fn lemma_projection_key_names(fields: Seq<Field>, t: RenameAllType, defs: Seq<GsiView>, projected: Seq<Seq<char>>)
    ensures
        all_resolvable(fields, t, projection_key_names(defs, projected))
            <==> forall|a: int, k: int| 0 <= a < projected.len() && 0 <= k < defs.len()
                && #[trigger] defs[k].name == #[trigger] projected[a] ==> gsi_keys_resolvable(fields, t, defs[k]),
    decreases projected.len(),
{
    if projected.len() > 0 {
        let init = projected.drop_last();
        let last = projected.last();
        lemma_projection_key_names(fields, t, defs, init);
        lemma_all_resolvable_concat(fields, t, projection_key_names(defs, init), named_key_names(defs, last));
        lemma_named_key_names(fields, t, defs, last);
        if forall|a: int, k: int| 0 <= a < projected.len() && 0 <= k < defs.len()
            && #[trigger] defs[k].name == #[trigger] projected[a] ==> gsi_keys_resolvable(fields, t, defs[k]) {
            assert forall|a: int, k: int| 0 <= a < init.len() && 0 <= k < defs.len()
                && #[trigger] defs[k].name == #[trigger] init[a] implies gsi_keys_resolvable(fields, t, defs[k]) by {
                assert(init[a] == projected[a]);
            }
            assert forall|k: int| 0 <= k < defs.len() && (#[trigger] defs[k]).name == last implies gsi_keys_resolvable(fields, t, defs[k]) by {
                assert(projected[projected.len() - 1] == last);
            }
        }
        if all_resolvable(fields, t, projection_key_names(defs, projected)) {
            assert forall|a: int, k: int| 0 <= a < projected.len() && 0 <= k < defs.len()
                && #[trigger] defs[k].name == #[trigger] projected[a] implies gsi_keys_resolvable(fields, t, defs[k]) by {
                if a < init.len() {
                    assert(init[a] == projected[a]);
                }
            }
        }
    }
}

/// Appends the keys of one index to `out`.
fn push_gsi_key_names(out: &mut Vec<String>, g: &GsiDefinition)
    ensures
        final(out)@.map_values(|s: String| s@)
            == old(out)@.map_values(|s: String| s@) + gsi_key_names(gsi_view(*g)),
{
    let ghost start = out@.map_values(|s: String| s@);
    let ghost view = gsi_view(*g);
    match &g.partition_key {
        None => {
            assert(out@.map_values(|s: String| s@) =~= start + gsi_key_names(view));
        },
        Some(pk) => {
            out.push(pk.clone());
            let ghost head = start.push(pk@);
            assert(out@.map_values(|s: String| s@) =~= head);
            let n = g.sort_keys.len();
            let mut i: usize = 0;
            while i < n
                invariant
                    n == g.sort_keys@.len(),
                    view == gsi_view(*g),
                    i <= n,
                    out@.map_values(|s: String| s@) =~= head + view.sort_keys.take(i as int),
                decreases n - i,
            {
                let ghost before = out@.map_values(|s: String| s@);
                out.push(g.sort_keys[i].clone());
                assert(view.sort_keys[i as int] == g.sort_keys@[i as int]@);
                assert(view.sort_keys.take(i + 1) =~= view.sort_keys.take(i as int).push(view.sort_keys[i as int]));
                assert(out@.map_values(|s: String| s@) =~= before.push(view.sort_keys[i as int]));
                i = i + 1;
            }
            assert(view.sort_keys.take(n as int) =~= view.sort_keys);
            assert(out@.map_values(|s: String| s@) =~= start + gsi_key_names(view));
        },
    }
}

/// The partition keys of the indexes that declare one, in declaration
/// order.
pub fn partition_key_name_list(defs: &[GsiDefinition]) -> (res: Vec<String>)
    ensures
        res@.map_values(|s: String| s@) == partition_key_names(gsi_views(defs@)),
{
    let ghost views = gsi_views(defs@);
    let n = defs.len();
    let mut res: Vec<String> = Vec::new();
    let mut k: usize = 0;
    assert(views.take(0) =~= Seq::<GsiView>::empty());
    while k < n
        invariant
            n == defs@.len(),
            views == gsi_views(defs@),
            k <= n,
            res@.map_values(|s: String| s@) == partition_key_names(views.take(k as int)),
        decreases n - k,
    {
        let ghost before = res@.map_values(|s: String| s@);
        assert(views.take(k + 1).drop_last() =~= views.take(k as int));
        assert(views.take(k + 1).last() == gsi_view(defs@[k as int]));
        match &defs[k].partition_key {
            Some(pk) => {
                res.push(pk.clone());
                assert(res@.map_values(|s: String| s@) =~= before + seq![pk@]);
            },
            None => {
                assert(before + Seq::<Seq<char>>::empty() =~= before);
            },
        }
        k = k + 1;
    }
    assert(views.take(n as int) =~= views);
    res
}

/// The keys of every index, index by index: for each one with a partition
/// key, that key and then its sort keys.
pub fn gsis_key_name_list(defs: &[GsiDefinition]) -> (res: Vec<String>)
    ensures
        res@.map_values(|s: String| s@) == gsis_key_names(gsi_views(defs@)),
{
    let ghost views = gsi_views(defs@);
    let n = defs.len();
    let mut res: Vec<String> = Vec::new();
    let mut k: usize = 0;
    assert(views.take(0) =~= Seq::<GsiView>::empty());
    while k < n
        invariant
            n == defs@.len(),
            views == gsi_views(defs@),
            k <= n,
            res@.map_values(|s: String| s@) == gsis_key_names(views.take(k as int)),
        decreases n - k,
    {
        assert(views.take(k + 1).drop_last() =~= views.take(k as int));
        assert(views.take(k + 1).last() == gsi_view(defs@[k as int]));
        push_gsi_key_names(&mut res, &defs[k]);
        k = k + 1;
    }
    assert(views.take(n as int) =~= views);
    res
}

/// Appends the keys of the indexes named `name` to `out`, in declaration
/// order.
fn push_named_key_names(out: &mut Vec<String>, defs: &[GsiDefinition], name: &str)
    ensures
        final(out)@.map_values(|s: String| s@)
            == old(out)@.map_values(|s: String| s@) + named_key_names(gsi_views(defs@), name@),
{
    let ghost start = out@.map_values(|s: String| s@);
    let ghost views = gsi_views(defs@);
    let n = defs.len();
    let mut k: usize = 0;
    assert(views.take(0) =~= Seq::<GsiView>::empty());
    assert(start + Seq::<Seq<char>>::empty() =~= start);
    while k < n
        invariant
            n == defs@.len(),
            views == gsi_views(defs@),
            k <= n,
            out@.map_values(|s: String| s@) == start + named_key_names(views.take(k as int), name@),
        decreases n - k,
    {
        let ghost before = out@.map_values(|s: String| s@);
        assert(views.take(k + 1).drop_last() =~= views.take(k as int));
        assert(views.take(k + 1).last() == gsi_view(defs@[k as int]));
        if text_is(&defs[k].name, name) {
            push_gsi_key_names(out, &defs[k]);
        } else {
            assert(before + Seq::<Seq<char>>::empty() =~= before);
        }
        assert(out@.map_values(|s: String| s@) =~= start + named_key_names(views.take(k + 1), name@));
        k = k + 1;
    }
    assert(views.take(n as int) =~= views);
}

/// The keys of the indexes behind each projected index name, name by name.
pub fn projection_key_name_list(defs: &[GsiDefinition], projections: &[AutoProjection]) -> (res: Vec<String>)
    ensures
        res@.map_values(|s: String| s@) == projection_key_names(
            gsi_views(defs@),
            projections@.map_values(|p: AutoProjection| p.gsi_name@),
        ),
{
    let ghost projected = projections@.map_values(|p: AutoProjection| p.gsi_name@);
    let n = projections.len();
    let mut res: Vec<String> = Vec::new();
    let mut a: usize = 0;
    assert(projected.take(0) =~= Seq::<Seq<char>>::empty());
    while a < n
        invariant
            n == projections@.len(),
            projected == projections@.map_values(|p: AutoProjection| p.gsi_name@),
            a <= n,
            res@.map_values(|s: String| s@) == projection_key_names(gsi_views(defs@), projected.take(a as int)),
        decreases n - a,
    {
        assert(projected.take(a + 1).drop_last() =~= projected.take(a as int));
        assert(projected.take(a + 1).last() == projections@[a as int].gsi_name@);
        push_named_key_names(&mut res, defs, projections[a].gsi_name.as_str());
        a = a + 1;
    }
    assert(projected.take(n as int) =~= projected);
    res
}

/// The first of `names`, in order, that does not resolve to a field.
pub fn first_unresolved_name(fields: &[Field], t: RenameAllType, names: &Vec<String>) -> (res: Option<String>)
    ensures
        opt_view(res) == first_unresolved(fields@, t, names@.map_values(|s: String| s@)),
{
    let ghost all = names@.map_values(|s: String| s@);
    let n = names.len();
    let mut i: usize = 0;
    assert(all.skip(0) =~= all);
    while i < n
        invariant
            n == names@.len(),
            all == names@.map_values(|s: String| s@),
            i <= n,
            first_unresolved(fields@, t, all.skip(i as int)) == first_unresolved(fields@, t, all),
        decreases n - i,
    {
        assert(all.skip(i as int).drop_first() =~= all.skip(i + 1));
        assert(all.skip(i as int)[0] == names@[i as int]@);
        if !attr_name_resolvable_check(fields, names[i].as_str(), t) {
            return Some(names[i].clone());
        }
        i = i + 1;
    }
    assert(all.skip(n as int) =~= Seq::<Seq<char>>::empty());
    None
}

} // verus!
