//! The `rename_all` casing rules and the renaming of field names.

use vstd::prelude::*;

verus! {

/// A casing rule given by `#[raiden(rename_all = "...")]`, or `None` when
/// the attribute is absent.
#[derive(Copy, Clone, Debug, PartialEq, Eq, Structural)]
pub enum RenameAllType {
    LowerCase,
    CamelCase,
    PascalCase,
    SnakeCase,
    ScreamingSnakeCase,
    KebabCase,
    Unset,
}

/// ASCII upper-casing of one character; other characters are kept.
pub open spec fn ascii_upper(c: char) -> char {
    if 'a' <= c && c <= 'z' {
        ((c as u32) - 32) as char
    } else {
        c
    }
}

/// ASCII lower-casing of one character; other characters are kept.
pub open spec fn ascii_lower(c: char) -> char {
    if 'A' <= c && c <= 'Z' {
        ((c as u32) + 32) as char
    } else {
        c
    }
}

/// PascalCase of a snake_case field: underscores are dropped and the
/// character after each of them (and the first one, when `cap`) is
/// upper-cased.
pub open spec fn pascal_field(s: Seq<char>, cap: bool) -> Seq<char>
    decreases s.len(),
{
    if s.len() == 0 {
        Seq::empty()
    } else if s[0] == '_' {
        pascal_field(s.drop_first(), true)
    } else if cap {
        seq![ascii_upper(s[0])] + pascal_field(s.drop_first(), false)
    } else {
        seq![s[0]] + pascal_field(s.drop_first(), false)
    }
}

/// camelCase of a snake_case field: its PascalCase with the first
/// character lower-cased.
pub open spec fn camel_field(s: Seq<char>) -> Seq<char> {
    let p = pascal_field(s, true);
    seq![ascii_lower(p[0])] + p.drop_first()
}

/// SCREAMING_SNAKE_CASE of a field: every ASCII letter upper-cased.
pub open spec fn screaming_field(s: Seq<char>) -> Seq<char> {
    s.map_values(|c: char| ascii_upper(c))
}

/// kebab-case of a field: every underscore becomes a hyphen.
pub open spec fn kebab_field(s: Seq<char>) -> Seq<char> {
    s.map_values(|c: char| if c == '_' { '-' } else { c })
}

/// What a rule makes of a snake_case field name.
pub open spec fn spec_rename(t: RenameAllType, s: Seq<char>) -> Seq<char> {
    match t {
        RenameAllType::PascalCase => pascal_field(s, true),
        RenameAllType::CamelCase => camel_field(s),
        RenameAllType::ScreamingSnakeCase => screaming_field(s),
        RenameAllType::KebabCase => kebab_field(s),
        _ => s,
    }
}

/// The camelCase rule cuts the first byte of the PascalCase form: it is
/// defined only when that form is non-empty and starts with an ASCII
/// character. Every other rule applies to every field.
pub open spec fn rule_applies(t: RenameAllType, s: Seq<char>) -> bool {
    t == RenameAllType::CamelCase ==> {
        let p = pascal_field(s, true);
        p.len() > 0 && (p[0] as u32) < 128
    }
}

/// The value of `rename_all` that selects each rule.
pub open spec fn rule_attribute_value(t: RenameAllType) -> Seq<char> {
    match t {
        RenameAllType::LowerCase => "lowercase"@,
        RenameAllType::CamelCase => "camelCase"@,
        RenameAllType::PascalCase => "PascalCase"@,
        RenameAllType::SnakeCase => "snake_case"@,
        RenameAllType::ScreamingSnakeCase => "SCREAMING_SNAKE_CASE"@,
        RenameAllType::KebabCase => "kebab-case"@,
        RenameAllType::Unset => Seq::empty(),
    }
}

/// The rule a `rename_all` value selects; `None` for an unsupported value.
pub open spec fn spec_parse_rule(s: Seq<char>) -> Option<RenameAllType> {
    if s == "lowercase"@ {
        Some(RenameAllType::LowerCase)
    } else if s == "camelCase"@ {
        Some(RenameAllType::CamelCase)
    } else if s == "PascalCase"@ {
        Some(RenameAllType::PascalCase)
    } else if s == "snake_case"@ {
        Some(RenameAllType::SnakeCase)
    } else if s == "SCREAMING_SNAKE_CASE"@ {
        Some(RenameAllType::ScreamingSnakeCase)
    } else if s == "kebab-case"@ {
        Some(RenameAllType::KebabCase)
    } else {
        None
    }
}

/// Views an optional owned string.
pub open spec fn opt_view(o: Option<String>) -> Option<Seq<char>> {
    match o {
        Some(s) => Some(s@),
        None => None,
    }
}

/// The stored name of a field: an explicit `rename` wins; otherwise the
/// `rename_all` rule is applied; otherwise the field name is kept.
pub open spec fn spec_create_renamed(
    basename: Seq<char>,
    renamed: Option<Seq<char>>,
    t: RenameAllType,
) -> Seq<char> {
    match renamed {
        Some(r) => r,
        None => if t != RenameAllType::Unset {
            spec_rename(t, basename)
        } else {
            basename
        },
    }
}

/// When [`create_renamed`] is defined on these arguments.
pub open spec fn create_renamed_defined(
    basename: Seq<char>,
    renamed: Option<Seq<char>>,
    t: RenameAllType,
) -> bool {
    renamed is None ==> rule_applies(t, basename)
}

/// `ident_case::RenameRule::apply_to_field`: the casing of a snake_case
/// field name under one rule. The contract restates the crate's source:
/// `None`, `LowerCase` and `SnakeCase` keep the field, `PascalCase` drops
/// underscores and upper-cases the letter after each (and the first),
/// `CamelCase` lower-cases the first character of that, and the last two
/// rules upper-case ASCII letters or turn `_` into `-`. CamelCase slices
/// off the first byte, which panics unless `rule_applies` holds.
#[verifier::external_body]
fn apply_rule_to_field(rule: RenameAllType, field: &str) -> (res: String)
    requires
        rule_applies(rule, field@),
    ensures
        res@ == spec_rename(rule, field@),
{
    let r = match rule {
        RenameAllType::LowerCase => ident_case::RenameRule::LowerCase,
        RenameAllType::CamelCase => ident_case::RenameRule::CamelCase,
        RenameAllType::PascalCase => ident_case::RenameRule::PascalCase,
        RenameAllType::SnakeCase => ident_case::RenameRule::SnakeCase,
        RenameAllType::ScreamingSnakeCase => ident_case::RenameRule::ScreamingSnakeCase,
        RenameAllType::KebabCase => ident_case::RenameRule::KebabCase,
        RenameAllType::Unset => ident_case::RenameRule::None,
    };
    r.apply_to_field(field)
}

/// The PascalCase form of a field is empty exactly when the field holds
/// only underscores; otherwise it starts with the first other character,
/// upper-cased unless it follows no underscore and `cap` is unset.
pub proof fn lemma_pascal_head(s: Seq<char>, cap: bool, i: int)
    requires
        0 <= i <= s.len(),
        forall|j: int| 0 <= j < i ==> s[j] == '_',
        i < s.len() ==> s[i] != '_',
    ensures
        pascal_field(s, cap).len() > 0 <==> i < s.len(),
        i < s.len() ==> pascal_field(s, cap)[0] == (if cap || i > 0 { ascii_upper(s[i]) } else { s[i] }),
    decreases i,
{
    if i > 0 {
        assert(s[0] == '_');
        lemma_pascal_head(s.drop_first(), true, i - 1);
    }
}

/// The PascalCase form of a field holds no underscore; of a field without
/// underscores it upper-cases the first character only (when `cap`) and
/// keeps the rest.
pub proof fn lemma_pascal_shape(s: Seq<char>, cap: bool)
    ensures
        forall|k: int| 0 <= k < pascal_field(s, cap).len() ==> #[trigger] pascal_field(s, cap)[k] != '_',
        (forall|k: int| 0 <= k < s.len() ==> #[trigger] s[k] != '_') ==> pascal_field(s, cap) == if s.len() == 0 {
            s
        } else if cap {
            seq![ascii_upper(s[0])] + s.drop_first()
        } else {
            s
        },
    decreases s.len(),
{
    if s.len() > 0 {
        let rest = s.drop_first();
        lemma_pascal_shape(rest, true);
        lemma_pascal_shape(rest, false);
        let p = pascal_field(s, cap);
        if s[0] == '_' {
            assert(p == pascal_field(rest, true));
        } else {
            assert(ascii_upper(s[0]) != '_');
            let head = if cap { ascii_upper(s[0]) } else { s[0] };
            assert(p == seq![head] + pascal_field(rest, false));
            assert forall|k: int| 0 <= k < p.len() implies #[trigger] p[k] != '_' by {
                if k > 0 {
                    assert(p[k] == pascal_field(rest, false)[k - 1]);
                }
            }
            if forall|k: int| 0 <= k < s.len() ==> #[trigger] s[k] != '_' {
                assert forall|k: int| 0 <= k < rest.len() implies #[trigger] rest[k] != '_' by {
                    assert(rest[k] == s[k + 1]);
                }
                assert(pascal_field(rest, false) == rest);
                assert(seq![s[0]] + rest =~= s);
            }
        }
    }
}

/// The position of the first character of a field that is not an
/// underscore, at or after `from` when only underscores precede it.
pub proof fn lemma_leading_underscores(s: Seq<char>, from: int) -> (i: int)
    requires
        0 <= from <= s.len(),
        forall|j: int| 0 <= j < from ==> s[j] == '_',
    ensures
        from <= i <= s.len(),
        forall|j: int| 0 <= j < i ==> s[j] == '_',
        i < s.len() ==> s[i] != '_',
    decreases s.len() - from,
{
    if from < s.len() && s[from] == '_' {
        lemma_leading_underscores(s, from + 1)
    } else {
        from
    }
}

/// Applying a rule to a field name it has already renamed changes nothing,
/// and the rule still applies.
pub proof fn lemma_rename_idempotent(t: RenameAllType, s: Seq<char>)
    requires
        rule_applies(t, s),
    ensures
        rule_applies(t, spec_rename(t, s)),
        spec_rename(t, spec_rename(t, s)) == spec_rename(t, s),
{
    let p = pascal_field(s, true);
    lemma_pascal_shape(s, true);
    lemma_pascal_shape(p, true);
    if p.len() > 0 {
        let i = lemma_leading_underscores(s, 0);
        lemma_pascal_head(s, true, i);
        assert(ascii_upper(p[0]) == p[0]);
        assert(pascal_field(p, true) =~= p);
    }
    match t {
        RenameAllType::CamelCase => {
            let c = camel_field(s);
            assert(p.len() > 0);
            assert(ascii_lower(p[0]) != '_');
            assert forall|k: int| 0 <= k < c.len() implies #[trigger] c[k] != '_' by {
                if k > 0 {
                    assert(c[k] == p[k]);
                }
            }
            lemma_pascal_shape(c, true);
            assert(ascii_upper(ascii_lower(p[0])) == p[0]);
            assert(pascal_field(c, true) =~= p);
            assert(camel_field(c) =~= c);
        },
        RenameAllType::ScreamingSnakeCase => {
            assert(screaming_field(screaming_field(s)) =~= screaming_field(s));
        },
        RenameAllType::KebabCase => {
            assert(kebab_field(kebab_field(s)) =~= kebab_field(s));
        },
        _ => {},
    }
}

/// Whether a rule applies to a field name: only camelCase can fail, when
/// the name holds only underscores or its first other character is not
/// ASCII.
pub fn rule_applies_to(t: RenameAllType, field: &str) -> (res: bool)
    ensures
        res == rule_applies(t, field@),
{
    if t != RenameAllType::CamelCase {
        return true;
    }
    let n = field.unicode_len();
    let mut i: usize = 0;
    while i < n
        invariant
            t == RenameAllType::CamelCase,
            n == field@.len(),
            i <= n,
            forall|j: int| 0 <= j < i ==> field@[j] == '_',
        decreases n - i,
    {
        let c = field.get_char(i);
        if c != '_' {
            proof {
                lemma_pascal_head(field@, true, i as int);
                assert((ascii_upper(c) as u32) < 128 <==> (c as u32) < 128);
            }
            return (c as u32) < 128;
        }
        i = i + 1;
    }
    proof {
        lemma_pascal_head(field@, true, n as int);
    }
    false
}

impl RenameAllType {
    /// The rule selected by a `rename_all` attribute value, or `None` for a
    /// value that is not supported.
    pub fn parse(s: &str) -> (res: Option<RenameAllType>)
        ensures
            res == spec_parse_rule(s@),
    {
        if crate::text::str_eq(s, "lowercase") {
            Some(RenameAllType::LowerCase)
        } else if crate::text::str_eq(s, "camelCase") {
            Some(RenameAllType::CamelCase)
        } else if crate::text::str_eq(s, "PascalCase") {
            Some(RenameAllType::PascalCase)
        } else if crate::text::str_eq(s, "snake_case") {
            Some(RenameAllType::SnakeCase)
        } else if crate::text::str_eq(s, "SCREAMING_SNAKE_CASE") {
            Some(RenameAllType::ScreamingSnakeCase)
        } else if crate::text::str_eq(s, "kebab-case") {
            Some(RenameAllType::KebabCase)
        } else {
            None
        }
    }
}

/// Parsing a `rename_all` value. A value that selects no rule is an
/// `Err(())` rather than a panic; the table and index derives refuse such a
/// model with `DeriveError::UnsupportedRenameAll`, whose message names the
/// value.
impl core::str::FromStr for RenameAllType {
    type Err = ();

    fn from_str(s: &str) -> (res: Result<Self, ()>)
        ensures
            res == match spec_parse_rule(s@) {
                Some(t) => Ok::<RenameAllType, ()>(t),
                None => Err(()),
            },
    {
        match RenameAllType::parse(s) {
            Some(t) => Ok(t),
            None => Err(()),
        }
    }
}

/// Applies a `rename_all` rule to a field name. `Unset` is not a rule.
pub fn rename(t: RenameAllType, base: String) -> (res: String)
    requires
        t != RenameAllType::Unset,
        rule_applies(t, base@),
    ensures
        res@ == spec_rename(t, base@),
{
    apply_rule_to_field(t, base.as_str())
}

/// The stored attribute name of a field: the explicit `rename` value when
/// there is one, else the field name under the `rename_all` rule, else the
/// field name itself.
pub fn create_renamed(
    basename: String,
    renamed: Option<String>,
    rename_all_type: RenameAllType,
) -> (res: String)
    requires
        create_renamed_defined(basename@, opt_view(renamed), rename_all_type),
    ensures
        res@ == spec_create_renamed(basename@, opt_view(renamed), rename_all_type),
{
    match renamed {
        None => {
            if rename_all_type != RenameAllType::Unset {
                rename(rename_all_type, basename)
            } else {
                basename
            }
        },
        Some(r) => r,
    }
}

/// A casing rule of serde's `rename_all` for the fields of a struct.
#[derive(Copy, Clone, Debug, PartialEq, Eq, Structural)]
pub enum SerdeRule {
    LowerCase,
    UpperCase,
    PascalCase,
    CamelCase,
    SnakeCase,
    ScreamingSnakeCase,
    KebabCase,
    ScreamingKebabCase,
}

/// The rule a serde `rename_all` value selects; `None` for a value serde
/// does not know.
pub open spec fn spec_parse_serde_rule(s: Seq<char>) -> Option<SerdeRule> {
    if s == "lowercase"@ {
        Some(SerdeRule::LowerCase)
    } else if s == "UPPERCASE"@ {
        Some(SerdeRule::UpperCase)
    } else if s == "PascalCase"@ {
        Some(SerdeRule::PascalCase)
    } else if s == "camelCase"@ {
        Some(SerdeRule::CamelCase)
    } else if s == "snake_case"@ {
        Some(SerdeRule::SnakeCase)
    } else if s == "SCREAMING_SNAKE_CASE"@ {
        Some(SerdeRule::ScreamingSnakeCase)
    } else if s == "kebab-case"@ {
        Some(SerdeRule::KebabCase)
    } else if s == "SCREAMING-KEBAB-CASE"@ {
        Some(SerdeRule::ScreamingKebabCase)
    } else {
        None
    }
}

/// What a serde rule makes of a snake_case field name: the lower-case and
/// snake_case rules keep it, the upper-case ones upper-case its ASCII
/// letters, and the others follow the `rename_all` rules of the same name;
/// SCREAMING-KEBAB-CASE upper-cases and then turns `_` into `-`.
pub open spec fn serde_rename(rule: SerdeRule, s: Seq<char>) -> Seq<char> {
    match rule {
        SerdeRule::LowerCase => s,
        SerdeRule::SnakeCase => s,
        SerdeRule::UpperCase => screaming_field(s),
        SerdeRule::ScreamingSnakeCase => screaming_field(s),
        SerdeRule::PascalCase => pascal_field(s, true),
        SerdeRule::CamelCase => camel_field(s),
        SerdeRule::KebabCase => kebab_field(s),
        SerdeRule::ScreamingKebabCase => kebab_field(screaming_field(s)),
    }
}

/// A serde rule applies to a field name unless it is camelCase and the
/// camelCase rule does not.
pub open spec fn serde_rule_applies(rule: SerdeRule, s: Seq<char>) -> bool {
    rule == SerdeRule::CamelCase ==> rule_applies(RenameAllType::CamelCase, s)
}

impl SerdeRule {
    /// The serde rule selected by a `rename_all` value, or `None`.
    pub fn parse(s: &str) -> (res: Option<SerdeRule>)
        ensures
            res == spec_parse_serde_rule(s@),
    {
        if crate::text::str_eq(s, "lowercase") {
            Some(SerdeRule::LowerCase)
        } else if crate::text::str_eq(s, "UPPERCASE") {
            Some(SerdeRule::UpperCase)
        } else if crate::text::str_eq(s, "PascalCase") {
            Some(SerdeRule::PascalCase)
        } else if crate::text::str_eq(s, "camelCase") {
            Some(SerdeRule::CamelCase)
        } else if crate::text::str_eq(s, "snake_case") {
            Some(SerdeRule::SnakeCase)
        } else if crate::text::str_eq(s, "SCREAMING_SNAKE_CASE") {
            Some(SerdeRule::ScreamingSnakeCase)
        } else if crate::text::str_eq(s, "kebab-case") {
            Some(SerdeRule::KebabCase)
        } else if crate::text::str_eq(s, "SCREAMING-KEBAB-CASE") {
            Some(SerdeRule::ScreamingKebabCase)
        } else {
            None
        }
    }
}

/// Applies a serde rule to a field name.
pub fn serde_rename_field(rule: SerdeRule, field: &str) -> (res: String)
    requires
        serde_rule_applies(rule, field@),
    ensures
        res@ == serde_rename(rule, field@),
{
    match rule {
        SerdeRule::LowerCase => apply_rule_to_field(RenameAllType::LowerCase, field),
        SerdeRule::SnakeCase => apply_rule_to_field(RenameAllType::SnakeCase, field),
        SerdeRule::UpperCase => apply_rule_to_field(RenameAllType::ScreamingSnakeCase, field),
        SerdeRule::ScreamingSnakeCase => apply_rule_to_field(RenameAllType::ScreamingSnakeCase, field),
        SerdeRule::PascalCase => apply_rule_to_field(RenameAllType::PascalCase, field),
        SerdeRule::CamelCase => apply_rule_to_field(RenameAllType::CamelCase, field),
        SerdeRule::KebabCase => apply_rule_to_field(RenameAllType::KebabCase, field),
        SerdeRule::ScreamingKebabCase => {
            let upper = apply_rule_to_field(RenameAllType::ScreamingSnakeCase, field);
            apply_rule_to_field(RenameAllType::KebabCase, upper.as_str())
        },
    }
}

} // verus!
