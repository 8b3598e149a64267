//! Lookup of `#[raiden(...)]` and `#[serde(...)]` arguments on the derived
//! struct and on its fields.

use vstd::prelude::*;
use crate::model::{Arg, ArgValue, AttrArgs, Attribute, Field, GsiDefinition, InnerArg, LitValue, TypeShape};
use crate::text::text_is;

verus! {

/// Whether an attribute is one of this derive's own, `#[raiden(...)]`.
pub open spec fn is_raiden(attr: Attribute) -> bool {
    attr.path_head@ == "raiden"@
}

/// Whether a parsed argument list holds a single argument named `name`.
pub open spec fn spec_unary(attr: Attribute, name: Seq<char>) -> bool {
    match attr.args {
        AttrArgs::Parsed(p) => p@.len() == 1 && p@[0].name@ == name,
        _ => false,
    }
}

/// A unary lookup is defined unless the argument list holds more than one
/// argument.
pub open spec fn unary_defined(attr: Attribute) -> bool {
    match attr.args {
        AttrArgs::Parsed(p) => p@.len() <= 1,
        _ => true,
    }
}

/// The first `name = "literal"` among the arguments, if any.
pub open spec fn eq_string_in(args: Seq<Arg>, name: Seq<char>) -> Option<Seq<char>>
    decreases args.len(),
{
    if args.len() == 0 {
        None
    } else {
        let here = match args[0].value {
            ArgValue::Assign(LitValue::Str(s)) => if args[0].name@ == name {
                Some(s@)
            } else {
                None
            },
            _ => None,
        };
        if here is Some {
            here
        } else {
            eq_string_in(args.drop_first(), name)
        }
    }
}

/// The string value of `name = "literal"` in one attribute, if any.
pub open spec fn spec_eq_string_from(attr: Attribute, name: Seq<char>) -> Option<Seq<char>> {
    match attr.args {
        AttrArgs::Parsed(p) => eq_string_in(p@, name),
        _ => None,
    }
}

/// The first `#[raiden(name = "literal")]` value over a list of attributes.
pub open spec fn raiden_eq_string(attrs: Seq<Attribute>, name: Seq<char>) -> Option<Seq<char>>
    decreases attrs.len(),
{
    if attrs.len() == 0 {
        None
    } else if is_raiden(attrs[0]) && spec_eq_string_from(attrs[0], name) is Some {
        spec_eq_string_from(attrs[0], name)
    } else {
        raiden_eq_string(attrs.drop_first(), name)
    }
}

/// Whether some `#[raiden(...)]` attribute consists of the single argument
/// `name`.
pub open spec fn has_unary(attrs: Seq<Attribute>, name: Seq<char>) -> bool {
    exists|i: int| 0 <= i < attrs.len() && is_raiden(attrs[i]) && spec_unary(attrs[i], name)
}

/// The lookup of a unary argument scans the `raiden` attributes in order
/// and stops at the first match; it is defined when no attribute reached
/// before that holds several arguments.
pub open spec fn unary_scan_ok(attrs: Seq<Attribute>, name: Seq<char>) -> bool
    decreases attrs.len(),
{
    if attrs.len() == 0 {
        true
    } else if is_raiden(attrs[0]) {
        if !unary_defined(attrs[0]) {
            false
        } else if spec_unary(attrs[0], name) {
            true
        } else {
            unary_scan_ok(attrs.drop_first(), name)
        }
    } else {
        unary_scan_ok(attrs.drop_first(), name)
    }
}

/// Whether one of the path segments is `Option`.
pub open spec fn has_option_segment(segs: Seq<String>) -> bool {
    exists|k: int| 0 <= k < segs.len() && segs[k]@ == "Option"@
}

/// Whether a type is a path with an `Option` segment.
pub open spec fn spec_is_option(ty: TypeShape) -> bool {
    match ty {
        TypeShape::Path(segs) => has_option_segment(segs@),
        TypeShape::Other => false,
    }
}

/// The identifier of the single argument `name` of an attribute such as
/// `#[raiden(partition_key)]`. An argument list of more than one argument
/// is not a unary attribute.
pub fn find_unary_attr(attr: &Attribute, name: &str) -> (res: Option<String>)
    requires
        unary_defined(*attr),
    ensures
        res is Some <==> spec_unary(*attr, name@),
        res matches Some(s) ==> s@ == name@,
{
    match &attr.args {
        AttrArgs::Parsed(parsed) => {
            if parsed.len() == 0 {
                None
            } else {
                let first = &parsed[0];
                if text_is(&first.name, name) {
                    Some(first.name.clone())
                } else {
                    None
                }
            }
        },
        _ => None,
    }
}

/// The value of the first `name = "literal"` argument of an attribute.
pub fn find_eq_string_from(attr: &Attribute, name: &str) -> (res: Option<String>)
    ensures
        crate::rename::opt_view(res) == spec_eq_string_from(*attr, name@),
{
    match &attr.args {
        AttrArgs::Parsed(parsed) => {
            let n = parsed.len();
            let mut i: usize = 0;
            assert(parsed@.skip(0) =~= parsed@);
            while i < n
                invariant
                    attr.args == AttrArgs::Parsed(*parsed),
                    n == parsed@.len(),
                    i <= n,
                    eq_string_in(parsed@.skip(i as int), name@) == eq_string_in(parsed@, name@),
                decreases n - i,
            {
                assert(parsed@.skip(i as int).drop_first() =~= parsed@.skip(i + 1));
                assert(parsed@.skip(i as int)[0] == parsed@[i as int]);
                let arg = &parsed[i];
                if text_is(&arg.name, name) {
                    match &arg.value {
                        ArgValue::Assign(LitValue::Str(s)) => {
                            let ghost rest = parsed@.skip(i as int);
                            assert(rest[0].name@ == name@);
                            assert(rest[0].value == ArgValue::Assign(LitValue::Str(*s)));
                            assert(eq_string_in(rest, name@) == Some(s@));
                            return Some(s.clone());
                        },
                        _ => {},
                    }
                }
                i = i + 1;
            }
            assert(parsed@.skip(n as int) =~= Seq::<Arg>::empty());
            None
        },
        _ => None,
    }
}

/// The first `#[raiden(name = "literal")]` value over a list of attributes.
pub fn find_raiden_eq_string(attrs: &[Attribute], name: &str) -> (res: Option<String>)
    ensures
        crate::rename::opt_view(res) == raiden_eq_string(attrs@, name@),
{
    let n = attrs.len();
    let mut i: usize = 0;
    assert(attrs@.skip(0) =~= attrs@);
    while i < n
        invariant
            n == attrs@.len(),
            i <= n,
            raiden_eq_string(attrs@.skip(i as int), name@) == raiden_eq_string(attrs@, name@),
        decreases n - i,
    {
        assert(attrs@.skip(i as int).drop_first() =~= attrs@.skip(i + 1));
        assert(attrs@.skip(i as int)[0] == attrs@[i as int]);
        let attr = &attrs[i];
        if text_is(&attr.path_head, "raiden") {
            let found = find_eq_string_from(attr, name);
            if found.is_some() {
                return found;
            }
        }
        i = i + 1;
    }
    assert(attrs@.skip(n as int) =~= Seq::<Attribute>::empty());
    None
}

/// The table name given by `#[raiden(table_name = "...")]`.
pub fn find_table_name(attrs: &[Attribute]) -> (res: Option<String>)
    ensures
        crate::rename::opt_view(res) == raiden_eq_string(attrs@, "table_name"@),
{
    find_raiden_eq_string(attrs, "table_name")
}

/// The casing rule name given by `#[raiden(rename_all = "...")]`.
pub fn find_rename_all(attrs: &[Attribute]) -> (res: Option<String>)
    ensures
        crate::rename::opt_view(res) == raiden_eq_string(attrs@, "rename_all"@),
{
    find_raiden_eq_string(attrs, "rename_all")
}

/// The explicit attribute name given by `#[raiden(rename = "...")]`.
pub fn find_rename_value(attrs: &[Attribute]) -> (res: Option<String>)
    ensures
        crate::rename::opt_view(res) == raiden_eq_string(attrs@, "rename"@),
{
    find_raiden_eq_string(attrs, "rename")
}

/// Whether some `#[raiden(...)]` attribute is exactly `#[raiden(name)]`.
pub fn include_unary_attr(attrs: &[Attribute], name: &str) -> (res: bool)
    requires
        unary_scan_ok(attrs@, name@),
    ensures
        res == has_unary(attrs@, name@),
{
    let n = attrs.len();
    let mut i: usize = 0;
    assert(attrs@.skip(0) =~= attrs@);
    while i < n
        invariant
            n == attrs@.len(),
            i <= n,
            unary_scan_ok(attrs@.skip(i as int), name@),
            forall|j: int| 0 <= j < i ==> !(is_raiden(attrs@[j]) && spec_unary(attrs@[j], name@)),
        decreases n - i,
    {
        assert(attrs@.skip(i as int).drop_first() =~= attrs@.skip(i + 1));
        assert(attrs@.skip(i as int)[0] == attrs@[i as int]);
        let attr = &attrs[i];
        if text_is(&attr.path_head, "raiden") {
            if find_unary_attr(attr, name).is_some() {
                return true;
            }
        }
        i = i + 1;
    }
    false
}

/// Whether a field type is an `Option`.
pub fn is_option(ty: &TypeShape) -> (res: bool)
    ensures
        res == spec_is_option(*ty),
{
    match ty {
        TypeShape::Path(segs) => {
            let n = segs.len();
            let mut k: usize = 0;
            while k < n
                invariant
                    *ty == TypeShape::Path(*segs),
                    n == segs@.len(),
                    k <= n,
                    forall|j: int| 0 <= j < k ==> segs@[j]@ != "Option"@,
                decreases n - k,
            {
                if text_is(&segs[k], "Option") {
                    assert(segs@[k as int]@ == "Option"@);
                    assert(has_option_segment(segs@));
                    return true;
                }
                k = k + 1;
            }
            false
        },
        TypeShape::Other => false,
    }
}

/// Whether a field carries the unary argument `name`, as in
/// `#[raiden(partition_key)]`.
pub open spec fn field_flag(f: Field, name: Seq<char>) -> bool {
    has_unary(f.attrs@, name)
}

/// Whether the lookup of `name` is defined on every field.
pub open spec fn fields_scan_ok(fields: Seq<Field>, name: Seq<char>) -> bool {
    forall|i: int| 0 <= i < fields.len() ==> #[trigger] unary_scan_ok(fields[i].attrs@, name)
}

/// At most one field carries `name`.
pub open spec fn flag_unique(fields: Seq<Field>, name: Seq<char>) -> bool {
    forall|i: int, j: int|
        0 <= i < fields.len() && 0 <= j < fields.len() && #[trigger] field_flag(fields[i], name)
            && #[trigger] field_flag(fields[j], name) ==> i == j
}

/// The indices, in order, of the first `n` fields that carry `name`.
pub open spec fn flagged_upto(fields: Seq<Field>, name: Seq<char>, n: nat) -> Seq<usize>
    decreases n,
{
    if n == 0 {
        Seq::empty()
    } else {
        let prev = flagged_upto(fields, name, (n - 1) as nat);
        if field_flag(fields[n - 1], name) {
            prev.push((n - 1) as usize)
        } else {
            prev
        }
    }
}

/// The indices, in order, of all fields that carry `name`.
pub open spec fn flagged_indices(fields: Seq<Field>, name: Seq<char>) -> Seq<usize> {
    flagged_upto(fields, name, fields.len())
}

/// The flagged indices below `n` are exactly the flagged fields below `n`,
/// in increasing order.
pub proof fn lemma_flagged_upto(fields: Seq<Field>, name: Seq<char>, n: nat)
    requires
        n <= fields.len(),
        n <= usize::MAX + 1,
    ensures
        forall|k: int| 0 <= k < flagged_upto(fields, name, n).len() ==>
            #[trigger] flagged_upto(fields, name, n)[k] < n
                && field_flag(fields[flagged_upto(fields, name, n)[k] as int], name),
        forall|i: int| 0 <= i < n && #[trigger] field_flag(fields[i], name) ==>
            flagged_upto(fields, name, n).contains(i as usize),
        forall|a: int, b: int| 0 <= a < b < flagged_upto(fields, name, n).len() ==>
            flagged_upto(fields, name, n)[a] < flagged_upto(fields, name, n)[b],
    decreases n,
{
    if n > 0 {
        lemma_flagged_upto(fields, name, (n - 1) as nat);
        let prev = flagged_upto(fields, name, (n - 1) as nat);
        if field_flag(fields[n - 1], name) {
            assert(flagged_upto(fields, name, n) == prev.push((n - 1) as usize));
            assert forall|i: int| 0 <= i < n && #[trigger] field_flag(fields[i], name) implies
                flagged_upto(fields, name, n).contains(i as usize) by {
                if i < n - 1 {
                    let k = choose|k: int| 0 <= k < prev.len() && prev[k] == i as usize;
                    assert(prev.push((n - 1) as usize)[k] == i as usize);
                } else {
                    assert(prev.push((n - 1) as usize)[prev.len() as int] == i as usize);
                }
            }
        }
    }
}

/// At most one flagged field exactly when the list of flagged indices has
/// at most one entry.
pub proof fn lemma_flag_unique(fields: Seq<Field>, name: Seq<char>)
    requires
        fields.len() <= usize::MAX,
    ensures
        flagged_indices(fields, name).len() <= 1 <==> flag_unique(fields, name),
{
    lemma_flagged_upto(fields, name, fields.len());
    let ks = flagged_indices(fields, name);
    if ks.len() > 1 {
        assert(ks[0] < ks[1]);
        assert(field_flag(fields[ks[0] as int], name));
        assert(field_flag(fields[ks[1] as int], name));
    }
    if !flag_unique(fields, name) {
        let (i, j) = choose|i: int, j: int|
            0 <= i < fields.len() && 0 <= j < fields.len() && field_flag(fields[i], name)
                && field_flag(fields[j], name) && i != j;
        assert(ks.contains(i as usize));
        assert(ks.contains(j as usize));
        let a = choose|a: int| 0 <= a < ks.len() && ks[a] == i as usize;
        let b = choose|b: int| 0 <= b < ks.len() && ks[b] == j as usize;
        assert(a != b);
    }
}

/// Whether the lookup of the unary argument `name` is defined on a list of
/// attributes.
pub fn unary_scan_defined(attrs: &[Attribute], name: &str) -> (res: bool)
    ensures
        res == unary_scan_ok(attrs@, name@),
{
    let n = attrs.len();
    let mut i: usize = 0;
    assert(attrs@.skip(0) =~= attrs@);
    while i < n
        invariant
            n == attrs@.len(),
            i <= n,
            unary_scan_ok(attrs@.skip(i as int), name@) == unary_scan_ok(attrs@, name@),
        decreases n - i,
    {
        assert(attrs@.skip(i as int).drop_first() =~= attrs@.skip(i + 1));
        assert(attrs@.skip(i as int)[0] == attrs@[i as int]);
        let attr = &attrs[i];
        if text_is(&attr.path_head, "raiden") {
            match &attr.args {
                AttrArgs::Parsed(p) => {
                    if p.len() > 1 {
                        return false;
                    }
                    if find_unary_attr(attr, name).is_some() {
                        return true;
                    }
                },
                _ => {},
            }
        }
        i = i + 1;
    }
    assert(attrs@.skip(n as int) =~= Seq::<Attribute>::empty());
    true
}

/// Whether the lookup of `name` is defined on every field.
pub fn fields_scan_defined(fields: &[Field], name: &str) -> (res: bool)
    ensures
        res == fields_scan_ok(fields@, name@),
{
    let n = fields.len();
    let mut i: usize = 0;
    while i < n
        invariant
            n == fields@.len(),
            i <= n,
            forall|j: int| 0 <= j < i ==> #[trigger] unary_scan_ok(fields@[j].attrs@, name@),
        decreases n - i,
    {
        if !unary_scan_defined(fields[i].attrs.as_slice(), name) {
            return false;
        }
        i = i + 1;
    }
    true
}

/// The indices of the fields that carry the unary argument `name`.
pub fn flagged_field_indices(fields: &[Field], name: &str) -> (res: Vec<usize>)
    requires
        fields_scan_ok(fields@, name@),
    ensures
        res@ == flagged_indices(fields@, name@),
{
    let n = fields.len();
    let mut res: Vec<usize> = Vec::new();
    let mut i: usize = 0;
    while i < n
        invariant
            n == fields@.len(),
            i <= n,
            fields_scan_ok(fields@, name@),
            res@ == flagged_upto(fields@, name@, i as nat),
        decreases n - i,
    {
        assert(unary_scan_ok(fields@[i as int].attrs@, name@));
        if include_unary_attr(fields[i].attrs.as_slice(), name) {
            res.push(i);
        }
        i = i + 1;
    }
    res
}

/// The field that carries `name`, when there is one; several are refused.
fn find_flagged_field(fields: &[Field], name: &str) -> (res: Option<usize>)
    requires
        fields_scan_ok(fields@, name@),
        flag_unique(fields@, name@),
    ensures
        res matches Some(i) ==> i < fields@.len() && field_flag(fields@[i as int], name@),
        res is None ==> forall|i: int| 0 <= i < fields@.len() ==> !field_flag(fields@[i], name@),
{
    let ks = flagged_field_indices(fields, name);
    let n = fields.len();
    proof {
        assert(fields@.len() == n);
        lemma_flagged_upto(fields@, name@, fields@.len());
        lemma_flag_unique(fields@, name@);
    }
    if ks.len() == 0 {
        assert forall|i: int| 0 <= i < fields@.len() implies !field_flag(fields@[i], name@) by {
            if field_flag(fields@[i], name@) {
                assert(ks@.contains(i as usize));
            }
        }
        None
    } else {
        Some(ks[0])
    }
}

/// The field marked `#[raiden(partition_key)]`, if any. Two such fields
/// are refused.
pub fn find_partition_key_field(fields: &[Field]) -> (res: Option<usize>)
    requires
        fields_scan_ok(fields@, "partition_key"@),
        flag_unique(fields@, "partition_key"@),
    ensures
        res matches Some(i) ==> i < fields@.len() && field_flag(fields@[i as int], "partition_key"@),
        res is None ==> forall|i: int|
            0 <= i < fields@.len() ==> !field_flag(fields@[i], "partition_key"@),
{
    find_flagged_field(fields, "partition_key")
}

/// The field marked `#[raiden(sort_key)]`, if any. Two such fields are
/// refused.
pub fn find_sort_key_field(fields: &[Field]) -> (res: Option<usize>)
    requires
        fields_scan_ok(fields@, "sort_key"@),
        flag_unique(fields@, "sort_key"@),
    ensures
        res matches Some(i) ==> i < fields@.len() && field_flag(fields@[i as int], "sort_key"@),
        res is None ==> forall|i: int| 0 <= i < fields@.len() ==> !field_flag(fields@[i], "sort_key"@),
{
    find_flagged_field(fields, "sort_key")
}

/// Whether an attribute is exactly `#[serde(...)]`.
pub open spec fn is_serde(attr: Attribute) -> bool {
    attr.path_head@ == "serde"@ && attr.single_segment
}

/// The value one argument of a `#[serde(...)]` list gives to `key`: `v` for
/// `key = "v"`, the `serialize = "v"` value for `key(serialize = "v", ...)`,
/// and nothing for any other argument.
pub open spec fn serde_arg_value(a: Arg, key: Seq<char>) -> Option<Seq<char>> {
    if a.single_segment && a.name@ == key {
        match a.value {
            ArgValue::Assign(LitValue::Str(v)) => Some(v@),
            ArgValue::Group => inner_string(a.inner@, "serialize"@),
            _ => None,
        }
    } else {
        None
    }
}

/// The value of `key` in one `#[serde(...)]` list, read argument by
/// argument: every other argument is skipped and a later value replaces an
/// earlier one.
pub open spec fn serde_scan(args: Seq<Arg>, key: Seq<char>, acc: Option<Seq<char>>) -> Option<Seq<char>>
    decreases args.len(),
{
    if args.len() == 0 {
        acc
    } else {
        serde_scan(
            args.drop_first(),
            key,
            match serde_arg_value(args[0], key) {
                Some(v) => Some(v),
                None => acc,
            },
        )
    }
}

/// The value of `key` over the `#[serde(...)]` attributes, the last one
/// read winning.
pub open spec fn serde_value_from(attrs: Seq<Attribute>, key: Seq<char>, acc: Option<Seq<char>>) -> Option<Seq<char>>
    decreases attrs.len(),
{
    if attrs.len() == 0 {
        acc
    } else {
        let next = match attrs[0].args {
            AttrArgs::Parsed(p) => if is_serde(attrs[0]) {
                serde_scan(p@, key, acc)
            } else {
                acc
            },
            _ => acc,
        };
        serde_value_from(attrs.drop_first(), key, next)
    }
}

/// The `serde` rename of a field over its attributes, the last one read
/// winning.
pub open spec fn serde_rename_from(attrs: Seq<Attribute>, acc: Option<Seq<char>>) -> Option<Seq<char>> {
    serde_value_from(attrs, "rename"@, acc)
}

fn serde_scan_args(args: &Vec<Arg>, key: &str, acc: Option<String>) -> (res: Option<String>)
    ensures
        crate::rename::opt_view(res) == serde_scan(args@, key@, crate::rename::opt_view(acc)),
{
    let n = args.len();
    let mut cur = acc;
    let mut i: usize = 0;
    assert(args@.skip(0) =~= args@);
    while i < n
        invariant
            n == args@.len(),
            i <= n,
            serde_scan(args@.skip(i as int), key@, crate::rename::opt_view(cur))
                == serde_scan(args@, key@, crate::rename::opt_view(acc)),
        decreases n - i,
    {
        assert(args@.skip(i as int).drop_first() =~= args@.skip(i + 1));
        assert(args@.skip(i as int)[0] == args@[i as int]);
        let a = &args[i];
        if a.single_segment && text_is(&a.name, key) {
            match &a.value {
                ArgValue::Assign(LitValue::Str(v)) => {
                    cur = Some(v.clone());
                },
                ArgValue::Group => {
                    match first_inner_string(&a.inner, "serialize") {
                        Some(v) => {
                            cur = Some(v);
                        },
                        None => {},
                    }
                },
                _ => {},
            }
        }
        i = i + 1;
    }
    assert(args@.skip(n as int) =~= Seq::<Arg>::empty());
    cur
}

/// The value of `key` over the `#[serde(...)]` attributes: the last
/// `key = "..."`, or `serialize` value of `key(...)`, read.
pub fn find_serde_value(attrs: &[Attribute], key: &str) -> (res: Option<String>)
    ensures
        crate::rename::opt_view(res) == serde_value_from(attrs@, key@, None),
{
    let n = attrs.len();
    let mut cur: Option<String> = None;
    let mut i: usize = 0;
    assert(attrs@.skip(0) =~= attrs@);
    while i < n
        invariant
            n == attrs@.len(),
            i <= n,
            serde_value_from(attrs@.skip(i as int), key@, crate::rename::opt_view(cur))
                == serde_value_from(attrs@, key@, None),
        decreases n - i,
    {
        assert(attrs@.skip(i as int).drop_first() =~= attrs@.skip(i + 1));
        assert(attrs@.skip(i as int)[0] == attrs@[i as int]);
        let attr = &attrs[i];
        match &attr.args {
            AttrArgs::Parsed(p) => {
                if attr.single_segment && text_is(&attr.path_head, "serde") {
                    cur = serde_scan_args(p, key, cur);
                }
            },
            _ => {},
        }
        i = i + 1;
    }
    assert(attrs@.skip(n as int) =~= Seq::<Attribute>::empty());
    cur
}

/// The name a `RaidenDocument` field is stored under according to
/// `#[serde(rename = "...")]`; the last such value read wins.
pub fn find_serde_rename(attrs: &[Attribute]) -> (res: Option<String>)
    ensures
        crate::rename::opt_view(res) == serde_rename_from(attrs@, None),
{
    find_serde_value(attrs, "rename")
}

/// A secondary index as the specifications see it.
pub struct GsiView {
    pub name: Seq<char>,
    pub partition_key: Option<Seq<char>>,
    pub sort_keys: Seq<Seq<char>>,
}

/// The view of a declared index.
pub open spec fn gsi_view(g: GsiDefinition) -> GsiView {
    GsiView {
        name: g.name@,
        partition_key: crate::rename::opt_view(g.partition_key),
        sort_keys: g.sort_keys@.map_values(|k: String| k@),
    }
}

/// The first `name = "literal"` among the arguments of a group.
pub open spec fn inner_string(args: Seq<InnerArg>, name: Seq<char>) -> Option<Seq<char>>
    decreases args.len(),
{
    if args.len() == 0 {
        None
    } else {
        let here = match args[0].value {
            ArgValue::Assign(LitValue::Str(v)) => if args[0].name@ == name {
                Some(v@)
            } else {
                None
            },
            _ => None,
        };
        if here is Some {
            here
        } else {
            inner_string(args.drop_first(), name)
        }
    }
}

/// Every `name = "literal"` value of a group, in order.
pub open spec fn inner_strings(args: Seq<InnerArg>, name: Seq<char>) -> Seq<Seq<char>>
    decreases args.len(),
{
    if args.len() == 0 {
        Seq::empty()
    } else {
        let rest = inner_strings(args.drop_first(), name);
        match args[0].value {
            ArgValue::Assign(LitValue::Str(v)) => if args[0].name@ == name {
                seq![v@] + rest
            } else {
                rest
            },
            _ => rest,
        }
    }
}

/// The index an argument of kind `kind` (`gsi` or `lsi`) names:
/// `kind = "name"`, or `kind(name = "name", ...)`.
pub open spec fn decl_name_of_arg(a: Arg, kind: Seq<char>) -> Option<Seq<char>> {
    if a.name@ == kind {
        match a.value {
            ArgValue::Assign(LitValue::Str(v)) => Some(v@),
            ArgValue::Group => inner_string(a.inner@, "name"@),
            _ => None,
        }
    } else {
        None
    }
}

/// Adds a name unless it is already listed.
pub open spec fn add_unique(acc: Seq<Seq<char>>, name: Option<Seq<char>>) -> Seq<Seq<char>> {
    match name {
        Some(n) => if acc.contains(n) {
            acc
        } else {
            acc.push(n)
        },
        None => acc,
    }
}

/// The index names of kind `kind` named by a list of arguments, after
/// those in `acc`.
pub open spec fn decl_names_in(args: Seq<Arg>, kind: Seq<char>, acc: Seq<Seq<char>>) -> Seq<Seq<char>>
    decreases args.len(),
{
    if args.len() == 0 {
        acc
    } else {
        decl_names_in(args.drop_first(), kind, add_unique(acc, decl_name_of_arg(args[0], kind)))
    }
}

/// The index names of kind `kind` declared by `#[raiden(kind = ...)]` or
/// `#[raiden(kind(name = ...))]`, each once, in order of first appearance.
pub open spec fn decl_names_from(attrs: Seq<Attribute>, kind: Seq<char>, acc: Seq<Seq<char>>) -> Seq<Seq<char>>
    decreases attrs.len(),
{
    if attrs.len() == 0 {
        acc
    } else {
        let next = match attrs[0].args {
            AttrArgs::Parsed(p) => if is_raiden(attrs[0]) {
                decl_names_in(p@, kind, acc)
            } else {
                acc
            },
            _ => acc,
        };
        decl_names_from(attrs.drop_first(), kind, next)
    }
}

/// The global secondary index names declared by `#[raiden(gsi = ...)]` or
/// `#[raiden(gsi(name = ...))]`, each once, in order of first appearance.
pub open spec fn gsi_names_from(attrs: Seq<Attribute>, acc: Seq<Seq<char>>) -> Seq<Seq<char>> {
    decl_names_from(attrs, "gsi"@, acc)
}

/// The local secondary index names declared by `#[raiden(lsi = ...)]` or
/// `#[raiden(lsi(name = ...))]`, each once, in order of first appearance.
pub open spec fn lsi_names_from(attrs: Seq<Attribute>, acc: Seq<Seq<char>>) -> Seq<Seq<char>> {
    decl_names_from(attrs, "lsi"@, acc)
}

fn listed(names: &Vec<String>, name: &String) -> (res: bool)
    ensures
        res == names@.map_values(|s: String| s@).contains(name@),
{
    let n = names.len();
    let mut i: usize = 0;
    while i < n
        invariant
            n == names@.len(),
            i <= n,
            forall|j: int| 0 <= j < i ==> names@[j]@ != name@,
        decreases n - i,
    {
        if text_is(&names[i], name.as_str()) {
            assert(names@.map_values(|s: String| s@)[i as int] == name@);
            return true;
        }
        i = i + 1;
    }
    false
}

fn first_inner_string(args: &Vec<InnerArg>, name: &str) -> (res: Option<String>)
    ensures
        crate::rename::opt_view(res) == inner_string(args@, name@),
{
    let n = args.len();
    let mut i: usize = 0;
    assert(args@.skip(0) =~= args@);
    while i < n
        invariant
            n == args@.len(),
            i <= n,
            inner_string(args@.skip(i as int), name@) == inner_string(args@, name@),
        decreases n - i,
    {
        assert(args@.skip(i as int).drop_first() =~= args@.skip(i + 1));
        assert(args@.skip(i as int)[0] == args@[i as int]);
        let a = &args[i];
        if text_is(&a.name, name) {
            match &a.value {
                ArgValue::Assign(LitValue::Str(v)) => {
                    return Some(v.clone());
                },
                _ => {},
            }
        }
        i = i + 1;
    }
    assert(args@.skip(n as int) =~= Seq::<InnerArg>::empty());
    None
}

fn all_inner_strings(args: &Vec<InnerArg>, name: &str) -> (res: Vec<String>)
    ensures
        res@.map_values(|s: String| s@) == inner_strings(args@, name@),
{
    let n = args.len();
    let mut res: Vec<String> = Vec::new();
    let mut i: usize = 0;
    assert(args@.skip(0) =~= args@);
    while i < n
        invariant
            n == args@.len(),
            i <= n,
            res@.map_values(|s: String| s@) + inner_strings(args@.skip(i as int), name@)
                == inner_strings(args@, name@),
        decreases n - i,
    {
        assert(args@.skip(i as int).drop_first() =~= args@.skip(i + 1));
        assert(args@.skip(i as int)[0] == args@[i as int]);
        let ghost before = res@.map_values(|s: String| s@);
        let a = &args[i];
        if text_is(&a.name, name) {
            match &a.value {
                ArgValue::Assign(LitValue::Str(v)) => {
                    res.push(v.clone());
                    assert(res@.map_values(|s: String| s@) =~= before.push(v@));
                },
                _ => {},
            }
        }
        assert(res@.map_values(|s: String| s@) + inner_strings(args@.skip(i + 1), name@)
            =~= inner_strings(args@, name@));
        i = i + 1;
    }
    assert(args@.skip(n as int) =~= Seq::<InnerArg>::empty());
    assert(res@.map_values(|s: String| s@) + Seq::<Seq<char>>::empty() =~= res@.map_values(|s: String| s@));
    res
}

fn decl_name_of(a: &Arg, kind: &str) -> (res: Option<String>)
    ensures
        crate::rename::opt_view(res) == decl_name_of_arg(*a, kind@),
{
    if text_is(&a.name, kind) {
        match &a.value {
            ArgValue::Assign(LitValue::Str(v)) => Some(v.clone()),
            ArgValue::Group => first_inner_string(&a.inner, "name"),
            _ => None,
        }
    } else {
        None
    }
}

/// The index names of kind `kind` declared over the attributes, each once,
/// in order of first appearance.
fn find_decl_names(attrs: &[Attribute], kind: &str) -> (res: Vec<String>)
    ensures
        res@.map_values(|s: String| s@) == decl_names_from(attrs@, kind@, Seq::empty()),
{
    let n = attrs.len();
    let mut res: Vec<String> = Vec::new();
    let mut i: usize = 0;
    assert(attrs@.skip(0) =~= attrs@);
    assert(res@.map_values(|s: String| s@) =~= Seq::<Seq<char>>::empty());
    while i < n
        invariant
            n == attrs@.len(),
            i <= n,
            decl_names_from(attrs@.skip(i as int), kind@, res@.map_values(|s: String| s@))
                == decl_names_from(attrs@, kind@, Seq::empty()),
        decreases n - i,
    {
        assert(attrs@.skip(i as int).drop_first() =~= attrs@.skip(i + 1));
        assert(attrs@.skip(i as int)[0] == attrs@[i as int]);
        let attr = &attrs[i];
        match &attr.args {
            AttrArgs::Parsed(p) => {
                if text_is(&attr.path_head, "raiden") {
                    let m = p.len();
                    let mut k: usize = 0;
                    assert(p@.skip(0) =~= p@);
                    let ghost start = res@.map_values(|s: String| s@);
                    while k < m
                        invariant
                            m == p@.len(),
                            k <= m,
                            decl_names_in(p@.skip(k as int), kind@, res@.map_values(|s: String| s@))
                                == decl_names_in(p@, kind@, start),
                        decreases m - k,
                    {
                        assert(p@.skip(k as int).drop_first() =~= p@.skip(k + 1));
                        assert(p@.skip(k as int)[0] == p@[k as int]);
                        let ghost before = res@.map_values(|s: String| s@);
                        let found = decl_name_of(&p[k], kind);
                        match found {
                            Some(g) => {
                                if !listed(&res, &g) {
                                    res.push(g);
                                    assert(res@.map_values(|s: String| s@) =~= before.push(g@));
                                }
                            },
                            None => {},
                        }
                        k = k + 1;
                    }
                    assert(p@.skip(m as int) =~= Seq::<Arg>::empty());
                }
            },
            _ => {},
        }
        i = i + 1;
    }
    assert(attrs@.skip(n as int) =~= Seq::<Attribute>::empty());
    res
}

/// The index an argument `kind(name = ..., partition_key = ...,
/// sort_key = ...)` declares, for `kind` `gsi` or `lsi`; a group without a
/// `name` declares none.
pub open spec fn decl_def_of_arg(a: Arg, kind: Seq<char>) -> Option<GsiView> {
    if a.name@ == kind && a.value is Group {
        match inner_string(a.inner@, "name"@) {
            Some(n) => Some(GsiView {
                name: n,
                partition_key: inner_string(a.inner@, "partition_key"@),
                sort_keys: inner_strings(a.inner@, "sort_key"@),
            }),
            None => None,
        }
    } else {
        None
    }
}

/// The indexes of kind `kind` declared in one argument list, in order.
pub open spec fn decl_defs_in(args: Seq<Arg>, kind: Seq<char>) -> Seq<GsiView>
    decreases args.len(),
{
    if args.len() == 0 {
        Seq::empty()
    } else {
        let rest = decl_defs_in(args.drop_first(), kind);
        match decl_def_of_arg(args[0], kind) {
            Some(d) => seq![d] + rest,
            None => rest,
        }
    }
}

/// The indexes of kind `kind` declared over a list of attributes, in order.
pub open spec fn decl_defs_from(attrs: Seq<Attribute>, kind: Seq<char>) -> Seq<GsiView>
    decreases attrs.len(),
{
    if attrs.len() == 0 {
        Seq::empty()
    } else {
        let here = match attrs[0].args {
            AttrArgs::Parsed(p) => if is_raiden(attrs[0]) {
                decl_defs_in(p@, kind)
            } else {
                Seq::empty()
            },
            _ => Seq::empty(),
        };
        here + decl_defs_from(attrs.drop_first(), kind)
    }
}

/// The global secondary indexes declared over a list of attributes, in
/// order.
pub open spec fn gsi_defs_from(attrs: Seq<Attribute>) -> Seq<GsiView> {
    decl_defs_from(attrs, "gsi"@)
}

/// The local secondary indexes declared over a list of attributes, in
/// order, as written.
pub open spec fn lsi_defs_from(attrs: Seq<Attribute>) -> Seq<GsiView> {
    decl_defs_from(attrs, "lsi"@)
}

/// Every `name = "literal"` value of one argument list, in order.
pub open spec fn eq_strings_in(args: Seq<Arg>, name: Seq<char>) -> Seq<Seq<char>>
    decreases args.len(),
{
    if args.len() == 0 {
        Seq::empty()
    } else {
        let rest = eq_strings_in(args.drop_first(), name);
        match args[0].value {
            ArgValue::Assign(LitValue::Str(v)) => if args[0].name@ == name {
                seq![v@] + rest
            } else {
                rest
            },
            _ => rest,
        }
    }
}

/// Every `#[raiden(name = "literal")]` value over a list of attributes.
pub open spec fn raiden_eq_strings(attrs: Seq<Attribute>, name: Seq<char>) -> Seq<Seq<char>>
    decreases attrs.len(),
{
    if attrs.len() == 0 {
        Seq::empty()
    } else {
        let here = match attrs[0].args {
            AttrArgs::Parsed(p) => if is_raiden(attrs[0]) {
                eq_strings_in(p@, name)
            } else {
                Seq::empty()
            },
            _ => Seq::empty(),
        };
        here + raiden_eq_strings(attrs.drop_first(), name)
    }
}

fn decl_def_of(a: &Arg, kind: &str) -> (res: Option<GsiDefinition>)
    ensures
        match res {
            Some(d) => decl_def_of_arg(*a, kind@) == Some(gsi_view(d)),
            None => decl_def_of_arg(*a, kind@) is None,
        },
{
    if text_is(&a.name, kind) {
        match &a.value {
            ArgValue::Group => {
                match first_inner_string(&a.inner, "name") {
                    Some(n) => {
                        let pk = first_inner_string(&a.inner, "partition_key");
                        let sks = all_inner_strings(&a.inner, "sort_key");
                        let d = GsiDefinition { name: n, partition_key: pk, sort_keys: sks };
                        assert(gsi_view(d) == decl_def_of_arg(*a, kind@)->0);
                        Some(d)
                    },
                    None => None,
                }
            },
            _ => None,
        }
    } else {
        None
    }
}

/// The indexes of kind `kind` declared over the attributes, in order.
fn find_decl_definitions(attrs: &[Attribute], kind: &str) -> (res: Vec<GsiDefinition>)
    ensures
        res@.map_values(|d: GsiDefinition| gsi_view(d)) == decl_defs_from(attrs@, kind@),
{
    let n = attrs.len();
    let mut res: Vec<GsiDefinition> = Vec::new();
    let mut i: usize = 0;
    assert(attrs@.skip(0) =~= attrs@);
    while i < n
        invariant
            n == attrs@.len(),
            i <= n,
            res@.map_values(|d: GsiDefinition| gsi_view(d)) + decl_defs_from(attrs@.skip(i as int), kind@)
                == decl_defs_from(attrs@, kind@),
        decreases n - i,
    {
        assert(attrs@.skip(i as int).drop_first() =~= attrs@.skip(i + 1));
        assert(attrs@.skip(i as int)[0] == attrs@[i as int]);
        let attr = &attrs[i];
        let ghost outer = res@.map_values(|d: GsiDefinition| gsi_view(d));
        match &attr.args {
            AttrArgs::Parsed(p) => {
                if text_is(&attr.path_head, "raiden") {
                    let m = p.len();
                    let mut k: usize = 0;
                    assert(p@.skip(0) =~= p@);
                    while k < m
                        invariant
                            m == p@.len(),
                            k <= m,
                            res@.map_values(|d: GsiDefinition| gsi_view(d)) + decl_defs_in(p@.skip(k as int), kind@)
                                == outer + decl_defs_in(p@, kind@),
                        decreases m - k,
                    {
                        assert(p@.skip(k as int).drop_first() =~= p@.skip(k + 1));
                        assert(p@.skip(k as int)[0] == p@[k as int]);
                        let ghost before = res@.map_values(|d: GsiDefinition| gsi_view(d));
                        match decl_def_of(&p[k], kind) {
                            Some(d) => {
                                res.push(d);
                                assert(res@.map_values(|d: GsiDefinition| gsi_view(d)) =~= before.push(gsi_view(d)));
                            },
                            None => {},
                        }
                        assert(res@.map_values(|d: GsiDefinition| gsi_view(d)) + decl_defs_in(p@.skip(k + 1), kind@)
                            =~= outer + decl_defs_in(p@, kind@));
                        k = k + 1;
                    }
                    assert(p@.skip(m as int) =~= Seq::<Arg>::empty());
                }
            },
            _ => {},
        }
        assert(res@.map_values(|d: GsiDefinition| gsi_view(d)) + decl_defs_from(attrs@.skip(i + 1), kind@)
            =~= decl_defs_from(attrs@, kind@));
        i = i + 1;
    }
    assert(attrs@.skip(n as int) =~= Seq::<Attribute>::empty());
    assert(res@.map_values(|d: GsiDefinition| gsi_view(d)) + Seq::<GsiView>::empty()
        =~= res@.map_values(|d: GsiDefinition| gsi_view(d)));
    res
}

/// The global secondary index names declared by `#[raiden(gsi = "...")]` or
/// `#[raiden(gsi(name = "...", ...))]`, each once, in order of first
/// appearance.
pub fn find_gsi_names(attrs: &[Attribute]) -> (res: Vec<String>)
    ensures
        res@.map_values(|s: String| s@) == gsi_names_from(attrs@, Seq::empty()),
{
    find_decl_names(attrs, "gsi")
}

/// The local secondary index names declared by `#[raiden(lsi = "...")]` or
/// `#[raiden(lsi(name = "...", ...))]`, each once, in order of first
/// appearance.
pub fn find_lsi_names(attrs: &[Attribute]) -> (res: Vec<String>)
    ensures
        res@.map_values(|s: String| s@) == lsi_names_from(attrs@, Seq::empty()),
{
    find_decl_names(attrs, "lsi")
}

/// The global secondary indexes declared with
/// `#[raiden(gsi(name = "...", ...))]`, in order.
pub fn find_gsi_definitions(attrs: &[Attribute]) -> (res: Vec<GsiDefinition>)
    ensures
        res@.map_values(|d: GsiDefinition| gsi_view(d)) == gsi_defs_from(attrs@),
{
    find_decl_definitions(attrs, "gsi")
}

/// The local secondary indexes declared with
/// `#[raiden(lsi(name = "...", ...))]`, in order, as written.
pub fn find_lsi_definitions(attrs: &[Attribute]) -> (res: Vec<GsiDefinition>)
    ensures
        res@.map_values(|d: GsiDefinition| gsi_view(d)) == lsi_defs_from(attrs@),
{
    find_decl_definitions(attrs, "lsi")
}

/// Every `#[raiden(name = "...")]` value over a list of attributes.
pub fn find_raiden_eq_strings(attrs: &[Attribute], name: &str) -> (res: Vec<String>)
    ensures
        res@.map_values(|s: String| s@) == raiden_eq_strings(attrs@, name@),
{
    let n = attrs.len();
    let mut res: Vec<String> = Vec::new();
    let mut i: usize = 0;
    assert(attrs@.skip(0) =~= attrs@);
    while i < n
        invariant
            n == attrs@.len(),
            i <= n,
            res@.map_values(|s: String| s@) + raiden_eq_strings(attrs@.skip(i as int), name@)
                == raiden_eq_strings(attrs@, name@),
        decreases n - i,
    {
        assert(attrs@.skip(i as int).drop_first() =~= attrs@.skip(i + 1));
        assert(attrs@.skip(i as int)[0] == attrs@[i as int]);
        let attr = &attrs[i];
        let ghost outer = res@.map_values(|s: String| s@);
        match &attr.args {
            AttrArgs::Parsed(p) => {
                if text_is(&attr.path_head, "raiden") {
                    let m = p.len();
                    let mut k: usize = 0;
                    assert(p@.skip(0) =~= p@);
                    while k < m
                        invariant
                            m == p@.len(),
                            k <= m,
                            res@.map_values(|s: String| s@) + eq_strings_in(p@.skip(k as int), name@)
                                == outer + eq_strings_in(p@, name@),
                        decreases m - k,
                    {
                        assert(p@.skip(k as int).drop_first() =~= p@.skip(k + 1));
                        assert(p@.skip(k as int)[0] == p@[k as int]);
                        let ghost before = res@.map_values(|s: String| s@);
                        let a = &p[k];
                        if text_is(&a.name, name) {
                            match &a.value {
                                ArgValue::Assign(LitValue::Str(v)) => {
                                    res.push(v.clone());
                                    assert(res@.map_values(|s: String| s@) =~= before.push(v@));
                                },
                                _ => {},
                            }
                        }
                        assert(res@.map_values(|s: String| s@) + eq_strings_in(p@.skip(k + 1), name@)
                            =~= outer + eq_strings_in(p@, name@));
                        k = k + 1;
                    }
                    assert(p@.skip(m as int) =~= Seq::<Arg>::empty());
                }
            },
            _ => {},
        }
        assert(res@.map_values(|s: String| s@) + raiden_eq_strings(attrs@.skip(i + 1), name@)
            =~= raiden_eq_strings(attrs@, name@));
        i = i + 1;
    }
    assert(attrs@.skip(n as int) =~= Seq::<Attribute>::empty());
    assert(res@.map_values(|s: String| s@) + Seq::<Seq<char>>::empty() =~= res@.map_values(|s: String| s@));
    res
}

/// The indexes a field is left out of, `#[raiden(omit_gsi = "...")]`.
pub fn find_omit_gsi_names(attrs: &[Attribute]) -> (res: Vec<String>)
    ensures
        res@.map_values(|s: String| s@) == raiden_eq_strings(attrs@, "omit_gsi"@),
{
    find_raiden_eq_strings(attrs, "omit_gsi")
}

} // verus!
