//! The parts of a derive input that the planner reads, held as plain values.
//!
//! An attribute `#[head(args)]` is kept with the first segment of its path,
//! whether that path is a single identifier, and its arguments when they
//! parse as a comma-separated list of `name`, `name = literal` or
//! `name(...)` items.

use vstd::prelude::*;

verus! {

/// A literal on the right of `name = ...`: a string, or anything else.
#[derive(Clone, Debug)]
pub enum LitValue {
    Str(String),
    Other,
}

/// The shape of one argument: a bare `name`, `name = value`, or
/// `name(...)`.
#[derive(Clone, Debug)]
pub enum ArgValue {
    Flag,
    Assign(LitValue),
    Group,
}

/// An argument nested inside a group, such as `partition_key = "org_id"`
/// in `gsi(name = "userIndex", partition_key = "org_id")`.
#[derive(Clone, Debug)]
pub struct InnerArg {
    pub name: String,
    pub value: ArgValue,
}

/// One argument of an attribute list. `name` is the first segment of its
/// path and `single_segment` tells whether the path is that one plain
/// identifier; `inner` holds the nested arguments of a group, empty where
/// they do not parse as a list.
#[derive(Clone, Debug)]
pub struct Arg {
    pub name: String,
    pub single_segment: bool,
    pub value: ArgValue,
    pub inner: Vec<InnerArg>,
}

/// The arguments of an attribute: none because it is not of the form
/// `#[head(...)]`, a list that does not parse, or the parsed list.
#[derive(Clone, Debug)]
pub enum AttrArgs {
    NotList,
    Unparsable,
    Parsed(Vec<Arg>),
}

/// An attribute such as `#[raiden(partition_key)]`.
#[derive(Clone, Debug)]
pub struct Attribute {
    pub path_head: String,
    pub single_segment: bool,
    pub args: AttrArgs,
}

/// The shape of a field type: a path with its segment identifiers, or some
/// other type.
#[derive(Clone, Debug)]
pub enum TypeShape {
    Path(Vec<String>),
    Other,
}

/// A named field of the derived struct.
#[derive(Clone, Debug)]
pub struct Field {
    pub ident: String,
    pub attrs: Vec<Attribute>,
    pub ty: TypeShape,
}

/// A secondary index declared with
/// `#[raiden(gsi(name = "...", partition_key = "...", sort_key = "..."))]`,
/// or a local one with `#[raiden(lsi(name = "...", sort_key = "..."))]`.
#[derive(Clone, Debug)]
pub struct GsiDefinition {
    pub name: String,
    pub partition_key: Option<String>,
    pub sort_keys: Vec<String>,
}

} // verus!
