//! Identifier casing through `convert_case`, and raw-identifier escaping.

use vstd::prelude::*;
use convert_case::Casing;

verus! {

/// The two target casings the generator uses.
#[derive(Copy, Clone, Debug, PartialEq, Eq, Structural)]
pub enum CaseStyle {
    Pascal,
    Snake,
}

/// What `convert_case` makes of a text in PascalCase (`pascal`) or in
/// snake_case (otherwise). Its word splitting takes pages to state; the
/// result depends on the text and the casing alone.
pub uninterp spec fn converted_case(text: Seq<char>, pascal: bool) -> Seq<char>;

/// `convert_case::Casing::to_case` with `Case::Pascal` or `Case::Snake`.
/// The contract only names the result: it is a function of the text and
/// of the casing; how words are split and joined is not stated.
#[verifier::external_body]
pub(crate) fn to_case(text: &str, style: CaseStyle) -> (res: String)
    ensures
        res@ == converted_case(text@, style == CaseStyle::Pascal),
{
    let case = match style {
        CaseStyle::Pascal => convert_case::Case::Pascal,
        CaseStyle::Snake => convert_case::Case::Snake,
    };
    text.to_case(case)
}

/// PascalCase of a text.
pub open spec fn pascal(text: Seq<char>) -> Seq<char> {
    converted_case(text, true)
}

/// snake_case of a text.
pub open spec fn snake(text: Seq<char>) -> Seq<char> {
    converted_case(text, false)
}

/// Rust keywords that must be written `r#name` to serve as identifiers.
pub open spec fn keywords() -> Seq<Seq<char>> {
    seq![
        "as"@, "async"@, "await"@, "break"@, "const"@, "continue"@, "dyn"@, "else"@,
        "enum"@, "extern"@, "false"@, "fn"@, "for"@, "if"@, "impl"@, "in"@, "let"@,
        "loop"@, "match"@, "mod"@, "move"@, "mut"@, "pub"@, "ref"@, "return"@,
        "static"@, "struct"@, "trait"@, "true"@, "type"@, "unsafe"@, "use"@, "where"@,
        "while"@, "abstract"@, "become"@, "box"@, "do"@, "final"@, "macro"@,
        "override"@, "priv"@, "try"@, "typeof"@, "unsized"@, "virtual"@, "yield"@
    ]
}

/// Whether a name is a Rust keyword that needs the raw `r#` prefix.
pub fn is_reserved(name: &str) -> (res: bool)
    ensures
        res == keywords().contains(name@),
{
    let words = [
        "as", "async", "await", "break", "const", "continue", "dyn", "else",
        "enum", "extern", "false", "fn", "for", "if", "impl", "in", "let",
        "loop", "match", "mod", "move", "mut", "pub", "ref", "return",
        "static", "struct", "trait", "true", "type", "unsafe", "use", "where",
        "while", "abstract", "become", "box", "do", "final", "macro",
        "override", "priv", "try", "typeof", "unsized", "virtual", "yield",
    ];
    assert(words@.map_values(|w: &str| w@) =~= keywords());
    let n = words.len();
    let mut i: usize = 0;
    while i < n
        invariant
            n == words@.len(),
            i <= n,
            words@.map_values(|w: &str| w@) == keywords(),
            forall|j: int| 0 <= j < i ==> keywords()[j] != name@,
        decreases n - i,
    {
        if crate::text::str_eq(words[i], name) {
            assert(keywords()[i as int] == name@);
            return true;
        }
        i = i + 1;
    }
    false
}

/// A generated method or function name, and whether it must be written as
/// a raw identifier.
#[derive(Clone, Debug)]
pub struct MethodName {
    pub name: String,
    pub raw: bool,
}

/// Marks a name raw when it is a keyword.
pub fn method_name(name: String) -> (res: MethodName)
    ensures
        res.name@ == name@,
        res.raw == keywords().contains(name@),
{
    let raw = is_reserved(name.as_str());
    MethodName { name, raw }
}

} // verus!
