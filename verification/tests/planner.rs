use raiden_derive::case::is_reserved;
use raiden_derive::derive::{
    plan_document_model, plan_index_model, plan_table_model, DeriveError, DeriveInput,
};
use raiden_derive::fields::{plan_fields, put_input_fields, required_input_fields, uuid_flags};
use raiden_derive::finder::{
    find_eq_string_from, find_gsi_definitions, find_gsi_names, find_omit_gsi_names,
    find_partition_key_field, find_rename_all, find_rename_value, find_serde_rename,
    find_sort_key_field, find_table_name, find_unary_attr, include_unary_attr, is_option,
};
use raiden_derive::gsi::gsi_key_condition_methods;
use raiden_derive::index::{auto_gsi_projections, index_methods, projection_query_token};
use raiden_derive::key::{fetch_partition_key, fetch_sort_key};
use raiden_derive::model::{Arg, ArgValue, AttrArgs, Attribute, Field, GsiDefinition, InnerArg, LitValue, TypeShape};
use raiden_derive::naming::{
    create_auto_gsi_projection_name, create_gsi_partition_token_name, create_gsi_sort_token_name,
    create_gsi_terminal_token_name, create_gsi_token_name, resolve_attr_name_for_fields, struct_names,
};
use raiden_derive::rename::{create_renamed, rename, RenameAllType};
use raiden_derive::text::decimal_string;

fn flag(name: &str) -> Arg {
    Arg { name: name.to_string(), single_segment: true, value: ArgValue::Flag, inner: vec![] }
}

fn assign(name: &str, value: &str) -> Arg {
    Arg {
        name: name.to_string(),
        single_segment: true,
        value: ArgValue::Assign(LitValue::Str(value.to_string())),
        inner: vec![],
    }
}

fn inner(name: &str, value: &str) -> InnerArg {
    InnerArg { name: name.to_string(), value: ArgValue::Assign(LitValue::Str(value.to_string())) }
}

fn group(name: &str, inner: Vec<InnerArg>) -> Arg {
    Arg { name: name.to_string(), single_segment: true, value: ArgValue::Group, inner }
}

fn attr(head: &str, args: Vec<Arg>) -> Attribute {
    Attribute { path_head: head.to_string(), single_segment: true, args: AttrArgs::Parsed(args) }
}

fn raiden(args: Vec<Arg>) -> Attribute {
    attr("raiden", args)
}

fn string_ty() -> TypeShape {
    TypeShape::Path(vec!["String".to_string()])
}

fn field(name: &str, attrs: Vec<Attribute>) -> Field {
    Field { ident: name.to_string(), attrs, ty: string_ty() }
}

fn user_index_input() -> DeriveInput {
    DeriveInput {
        ident: "User".to_string(),
        attrs: vec![
            raiden(vec![assign("table_name", "user")]),
            raiden(vec![group(
                "gsi",
                vec![
                    inner("name", "userIndex"),
                    inner("partition_key", "org_id"),
                    inner("sort_key", "created_at"),
                    inner("sort_key", "status"),
                ],
            )]),
        ],
        fields: vec![
            field("id", vec![raiden(vec![flag("partition_key")])]),
            field("org_id", vec![]),
            field("created_at", vec![]),
            field("status", vec![]),
            field("internal_note", vec![raiden(vec![assign("omit_gsi", "userIndex")])]),
        ],
    }
}

#[test]
fn rename_applies_each_rule() {
    assert_eq!(rename(RenameAllType::CamelCase, "very_tasty".to_string()), "veryTasty");
    assert_eq!(rename(RenameAllType::PascalCase, "very_tasty".to_string()), "VeryTasty");
    assert_eq!(rename(RenameAllType::PascalCase, "_leading_under".to_string()), "LeadingUnder");
    assert_eq!(rename(RenameAllType::ScreamingSnakeCase, "very_tasty".to_string()), "VERY_TASTY");
    assert_eq!(rename(RenameAllType::KebabCase, "double__under".to_string()), "double--under");
    assert_eq!(rename(RenameAllType::SnakeCase, "very_tasty".to_string()), "very_tasty");
    assert_eq!(rename(RenameAllType::LowerCase, "very_tasty".to_string()), "very_tasty");
}

#[test]
fn create_renamed_prefers_explicit_rename() {
    assert_eq!(
        create_renamed("user_name".to_string(), Some("fullName".to_string()), RenameAllType::KebabCase),
        "fullName"
    );
    assert_eq!(create_renamed("user_name".to_string(), None, RenameAllType::CamelCase), "userName");
    assert_eq!(create_renamed("user_name".to_string(), None, RenameAllType::Unset), "user_name");
}

#[test]
fn rename_all_values_parse() {
    assert_eq!(RenameAllType::parse("lowercase"), Some(RenameAllType::LowerCase));
    assert_eq!(RenameAllType::parse("camelCase"), Some(RenameAllType::CamelCase));
    assert_eq!(RenameAllType::parse("PascalCase"), Some(RenameAllType::PascalCase));
    assert_eq!(RenameAllType::parse("snake_case"), Some(RenameAllType::SnakeCase));
    assert_eq!(RenameAllType::parse("SCREAMING_SNAKE_CASE"), Some(RenameAllType::ScreamingSnakeCase));
    assert_eq!(RenameAllType::parse("kebab-case"), Some(RenameAllType::KebabCase));
    assert_eq!(RenameAllType::parse("Kebab-Case"), None);
    assert_eq!("camelCase".parse::<RenameAllType>(), Ok(RenameAllType::CamelCase));
    assert_eq!("UPPERCASE".parse::<RenameAllType>(), Err(()));
}

#[test]
fn unary_and_eq_string_lookup() {
    let pk = raiden(vec![flag("partition_key")]);
    assert_eq!(find_unary_attr(&pk, "partition_key"), Some("partition_key".to_string()));
    assert_eq!(find_unary_attr(&pk, "sort_key"), None);
    let named = raiden(vec![flag("uuid"), assign("rename", "Id"), assign("rename", "Other")]);
    assert_eq!(find_eq_string_from(&named, "rename"), Some("Id".to_string()));
    assert_eq!(find_eq_string_from(&named, "table_name"), None);
    let not_list = Attribute { path_head: "raiden".to_string(), single_segment: true, args: AttrArgs::NotList };
    assert_eq!(find_eq_string_from(&not_list, "rename"), None);
    let empty = raiden(vec![]);
    assert_eq!(find_unary_attr(&empty, "uuid"), None);
}

#[test]
fn struct_level_lookups_skip_other_attributes() {
    let attrs = vec![
        attr("serde", vec![assign("table_name", "wrong")]),
        raiden(vec![assign("rename_all", "camelCase")]),
        raiden(vec![assign("table_name", "user")]),
    ];
    assert_eq!(find_table_name(&attrs), Some("user".to_string()));
    assert_eq!(find_rename_all(&attrs), Some("camelCase".to_string()));
    assert_eq!(find_rename_value(&attrs), None);
}

#[test]
fn unary_markers_on_fields() {
    let attrs = vec![attr("serde", vec![flag("uuid")]), raiden(vec![flag("uuid")])];
    assert!(include_unary_attr(&attrs, "uuid"));
    assert!(!include_unary_attr(&attrs, "use_default"));
    assert!(!include_unary_attr(&[], "uuid"));
    let input = user_index_input();
    assert_eq!(find_partition_key_field(&input.fields), Some(0));
    assert_eq!(find_sort_key_field(&input.fields), None);
}

#[test]
fn option_types_are_recognised() {
    assert!(is_option(&TypeShape::Path(vec!["std".into(), "option".into(), "Option".into()])));
    assert!(!is_option(&TypeShape::Path(vec!["Vec".into()])));
    assert!(!is_option(&TypeShape::Other));
}

#[test]
fn keys_are_fetched_with_their_stored_names() {
    let fields = vec![
        field("user_id", vec![raiden(vec![flag("partition_key")])]),
        field("year", vec![raiden(vec![flag("sort_key")]), raiden(vec![assign("rename", "Year")])]),
    ];
    assert_eq!(fetch_partition_key(&fields, RenameAllType::CamelCase), ("userId".to_string(), 0));
    assert_eq!(fetch_sort_key(&fields, RenameAllType::CamelCase), Some(("Year".to_string(), 1)));
    assert_eq!(raiden_derive::sort_key::fetch_sort_key(&fields, RenameAllType::Unset), Some("Year".to_string()));
    assert_eq!(fetch_sort_key(&fields[..1], RenameAllType::Unset), None);
}

#[test]
fn token_and_item_names() {
    assert_eq!(create_gsi_token_name("User", "userIndex"), "UserUserIndexKeyConditionToken");
    assert_eq!(create_gsi_partition_token_name("User", "userIndex"), "UserUserIndexPartitionKeyConditionToken");
    assert_eq!(create_gsi_sort_token_name("User", "userIndex", 1), "UserUserIndexSort2KeyConditionToken");
    assert_eq!(create_gsi_terminal_token_name("User", "userIndex"), "UserUserIndexTerminalKeyConditionToken");
    assert_eq!(create_auto_gsi_projection_name("User", "userIndex"), "UserIndexItem");
    assert_eq!(create_auto_gsi_projection_name("User", "activityIndex"), "UserActivityIndexItem");
    let names = struct_names("User");
    assert_eq!(names.client, "UserClient");
    assert_eq!(names.put_item_input_builder, "UserPutItemInputBuilder");
    assert_eq!(names.table_terminal_key_condition_token, "UserTableTerminalKeyConditionToken");
}

#[test]
fn casing_and_keywords() {
    assert_eq!(create_gsi_token_name("Event", "activity_index"), "EventActivityIndexKeyConditionToken");
    let names = vec!["userIndex".to_string()];
    assert_eq!(index_methods("User", &names, &[])[0].method.name, "user_index");
    assert!(is_reserved("type"));
    assert!(is_reserved("match"));
    assert!(!is_reserved("types"));
    assert_eq!(decimal_string(0), "0");
    assert_eq!(decimal_string(42), "42");
    assert_eq!(decimal_string(1000), "1000");
}

#[test]
fn gsi_key_conditions_chain_in_declaration_order() {
    let input = user_index_input();
    let defs = find_gsi_definitions(&input.attrs);
    let methods = gsi_key_condition_methods("User", &input.fields, RenameAllType::Unset, &defs);
    let names: Vec<&str> = methods.iter().map(|m| m.method.name.as_str()).collect();
    assert_eq!(
        names,
        vec!["user_index_key_condition", "user_index_sort_key_condition_1", "user_index_sort_key_condition_2"]
    );
    assert_eq!(methods[0].token, "UserUserIndexPartitionKeyConditionToken");
    assert_eq!(methods[0].next_token, "UserUserIndexSort1KeyConditionToken");
    assert_eq!(methods[1].next_token, methods[2].token);
    assert_eq!(methods[2].next_token, "UserUserIndexTerminalKeyConditionToken");
    assert_eq!(methods[0].attr_name, "org_id");
    assert_eq!(methods[2].attr_name, "status");
}

#[test]
fn single_sort_key_gsi_has_unnumbered_method() {
    let defs = vec![GsiDefinition {
        name: "createdIndex".to_string(),
        partition_key: Some("account_id".to_string()),
        sort_keys: vec!["created_at".to_string()],
    }];
    let fields = vec![field("account_id", vec![]), field("created_at", vec![raiden(vec![assign("rename", "createdAt")])])];
    let methods = gsi_key_condition_methods("Event", &fields, RenameAllType::Unset, &defs);
    assert_eq!(methods.len(), 2);
    assert_eq!(methods[1].method.name, "created_index_sort_key_condition");
    assert_eq!(methods[1].attr_name, "createdAt");
    assert_eq!(methods[1].next_token, "EventCreatedIndexTerminalKeyConditionToken");
    let none = vec![GsiDefinition { name: "plainIndex".to_string(), partition_key: None, sort_keys: vec![] }];
    assert!(gsi_key_condition_methods("Event", &fields, RenameAllType::Unset, &none).is_empty());
}

#[test]
fn gsi_names_and_definitions_from_attributes() {
    let attrs = vec![
        raiden(vec![assign("source", "User"), assign("gsi", "userIndex")]),
        raiden(vec![group("gsi", vec![inner("name", "userIndex"), inner("partition_key", "org_id")])]),
        raiden(vec![group("gsi", vec![inner("partition_key", "nameless")])]),
    ];
    assert_eq!(find_gsi_names(&attrs), vec!["userIndex".to_string()]);
    let defs = find_gsi_definitions(&attrs);
    assert_eq!(defs.len(), 1);
    assert_eq!(defs[0].name, "userIndex");
    assert_eq!(defs[0].partition_key, Some("org_id".to_string()));
    assert!(defs[0].sort_keys.is_empty());
    let omit = vec![raiden(vec![assign("omit_gsi", "a")]), raiden(vec![assign("omit_gsi", "b")])];
    assert_eq!(find_omit_gsi_names(&omit), vec!["a".to_string(), "b".to_string()]);
}

#[test]
fn serde_rename_last_value_wins_past_other_arguments() {
    let attrs = vec![
        attr("serde", vec![assign("rename", "first")]),
        attr("serde", vec![flag("default"), assign("rename", "second")]),
    ];
    assert_eq!(find_serde_rename(&attrs), Some("second".to_string()));
    let valued = vec![attr("serde", vec![assign("default", "make_name"), assign("rename", "b")])];
    assert_eq!(find_serde_rename(&valued), Some("b".to_string()));
    let split = vec![attr("serde", vec![group("rename", vec![inner("serialize", "out"), inner("deserialize", "in")])])];
    assert_eq!(find_serde_rename(&split), Some("out".to_string()));
    assert_eq!(find_serde_rename(&[attr("raiden", vec![assign("rename", "x")])]), None);
}

#[test]
fn put_input_skips_uuid_and_requires_non_options() {
    let fields = vec![
        field("id", vec![raiden(vec![flag("uuid")])]),
        field("name", vec![]),
        Field { ident: "note".to_string(), attrs: vec![], ty: TypeShape::Path(vec!["Option".into()]) },
    ];
    let plans = plan_fields(&fields, RenameAllType::Unset);
    assert!(plans[2].optional);
    let uuid = uuid_flags(&fields);
    assert_eq!(uuid, vec![true, false, false]);
    assert_eq!(put_input_fields(&uuid), vec![1, 2]);
    assert_eq!(required_input_fields(&uuid, &plans), vec![1]);
}

#[test]
fn auto_projection_for_omitted_fields() {
    let input = user_index_input();
    let names = find_gsi_names(&input.attrs);
    let defs = find_gsi_definitions(&input.attrs);
    let items = auto_gsi_projections("User", &input.fields, &names, &defs);
    assert_eq!(items.len(), 1);
    assert_eq!(items[0].name, "UserIndexItem");
    assert_eq!(items[0].fields, vec![0, 1, 2, 3]);
    assert_eq!(items[0].definitions, vec![0]);
    assert_eq!(projection_query_token("User", "userIndex", &defs), "UserUserIndexPartitionKeyConditionToken");
    assert_eq!(projection_query_token("User", "otherIndex", &defs), "UserKeyConditionToken");
    let methods = index_methods("User", &names, &defs);
    assert_eq!(methods[0].method.name, "user_index");
    assert_eq!(methods[0].typed_token, Some("UserUserIndexKeyConditionToken".to_string()));
}

#[test]
fn resolve_attr_name_uses_rename_rules() {
    let fields = vec![field("org_id", vec![])];
    assert_eq!(resolve_attr_name_for_fields(&fields, RenameAllType::CamelCase, "org_id"), "orgId");
}

#[test]
fn table_plan_of_readme_model() {
    let plan = match plan_table_model(&user_index_input()) {
        Ok(p) => p,
        Err(_) => panic!("the model is accepted"),
    };
    assert_eq!(plan.table_name, "user");
    assert_eq!(plan.partition_key, ("id".to_string(), 0));
    assert!(plan.sort_key.is_none());
    assert_eq!(plan.partition_next_token, "UserTableTerminalKeyConditionToken");
    assert_eq!(plan.gsi_names, vec!["userIndex".to_string()]);
    assert_eq!(plan.projections.len(), 1);
    assert_eq!(plan.projections[0].item.name, "UserIndexItem");
    assert_eq!(plan.projections[0].gsi_methods.len(), 3);
    assert_eq!(plan.index_queries[0].method.name, "user_index_key_condition");
    assert_eq!(plan.index_query_tokens, vec!["UserUserIndexKeyConditionToken".to_string()]);
    assert_eq!(plan.attr_names[1].variant, "OrgId");
    assert_eq!(plan.attr_names[1].getter.name, "org_id");
    assert_eq!(plan.put_input_fields, vec![0, 1, 2, 3, 4]);
}

#[test]
fn table_plan_without_gsi_uses_struct_name() {
    let input = DeriveInput {
        ident: "Event".to_string(),
        attrs: vec![raiden(vec![assign("rename_all", "camelCase")])],
        fields: vec![
            field("event_id", vec![raiden(vec![flag("partition_key")])]),
            field("created_at", vec![raiden(vec![flag("sort_key")])]),
            field("type", vec![]),
        ],
    };
    let plan = match plan_table_model(&input) {
        Ok(p) => p,
        Err(_) => panic!("the model is accepted"),
    };
    assert_eq!(plan.table_name, "Event");
    assert_eq!(plan.rename_all, RenameAllType::CamelCase);
    assert_eq!(plan.partition_key.0, "eventId");
    assert_eq!(plan.sort_key, Some(("createdAt".to_string(), 1)));
    assert_eq!(plan.partition_next_token, "EventTableSortKeyConditionToken");
    assert!(plan.attr_names[2].getter.raw);
    assert!(plan.projections.is_empty());
}

fn table_error(input: DeriveInput) -> DeriveError {
    match plan_table_model(&input) {
        Ok(_) => panic!("the model is refused"),
        Err(e) => e,
    }
}

#[test]
fn table_plan_refusals() {
    let base = || user_index_input();
    let mut bad_rule = base();
    bad_rule.attrs.push(raiden(vec![assign("rename_all", "UPPER")]));
    assert!(matches!(table_error(bad_rule), DeriveError::UnsupportedRenameAll(v) if v == "UPPER"));
    let mut missing = base();
    missing.fields[0].attrs.clear();
    assert!(matches!(table_error(missing), DeriveError::MissingPartitionKey));
    let mut twice = base();
    twice.fields[1].attrs.push(raiden(vec![flag("partition_key")]));
    assert!(matches!(table_error(twice), DeriveError::MultiplePartitionKeys));
    let mut sorts = base();
    sorts.fields[1].attrs.push(raiden(vec![flag("sort_key")]));
    sorts.fields[2].attrs.push(raiden(vec![flag("sort_key")]));
    assert!(matches!(table_error(sorts), DeriveError::MultipleSortKeys));
    let mut not_unary = base();
    not_unary.fields[1].attrs.push(raiden(vec![flag("uuid"), flag("use_default")]));
    assert!(matches!(table_error(not_unary), DeriveError::NotUnary));
    let mut unknown = base();
    unknown.fields.remove(3);
    assert!(matches!(table_error(unknown), DeriveError::UnknownKeyField(k) if k == "status"));
    let mut unknown_pk = base();
    unknown_pk.attrs.push(raiden(vec![group("gsi", vec![inner("name", "orgIndex"), inner("partition_key", "org")])]));
    assert!(matches!(table_error(unknown_pk), DeriveError::UnknownIndexPartitionKey(k) if k == "org"));
    let mut kebab = base();
    kebab.attrs.push(raiden(vec![assign("rename_all", "kebab-case")]));
    kebab.fields[0].ident = "user_id".to_string();
    assert!(matches!(table_error(kebab), DeriveError::InvalidKeyName(k) if k == "user-id"));
    let mut sort_name = base();
    sort_name.fields[2].attrs.push(raiden(vec![flag("sort_key")]));
    sort_name.fields[2].attrs.push(raiden(vec![assign("rename", "created at")]));
    assert!(matches!(table_error(sort_name), DeriveError::InvalidKeyName(k) if k == "created at"));
    let mut camel = base();
    camel.attrs.push(raiden(vec![assign("rename_all", "camelCase")]));
    camel.fields.push(field("__", vec![]));
    assert!(matches!(table_error(camel), DeriveError::RenameUndefined));
}

fn index_input(attrs: Vec<Attribute>) -> DeriveInput {
    DeriveInput {
        ident: "PublicUserIndexItem".to_string(),
        attrs,
        fields: vec![field("org_id", vec![]), field("display_name", vec![])],
    }
}

#[test]
fn index_plan_of_readme_projection() {
    let input = index_input(vec![
        raiden(vec![assign("source", "User"), assign("gsi", "userIndex")]),
        raiden(vec![group("gsi", vec![inner("name", "userIndex"), inner("partition_key", "org_id")])]),
    ]);
    let plan = match plan_index_model(&input) {
        Ok(p) => p,
        Err(_) => panic!("the projection is accepted"),
    };
    assert_eq!(plan.gsi_name, "userIndex");
    assert_eq!(plan.source_ident, "User");
    assert_eq!(plan.source_names.query_builder, "UserQueryBuilder");
    assert_eq!(plan.query_token, "UserUserIndexPartitionKeyConditionToken");
    assert_eq!(plan.gsi_methods.len(), 1);
    assert_eq!(plan.gsi_methods[0].method.name, "user_index_key_condition");
    let qualified = index_input(vec![raiden(vec![assign("source", "crate::models::User"), assign("gsi", "userIndex")])]);
    match plan_index_model(&qualified) {
        Ok(p) => {
            assert_eq!(p.source_ident, "User");
            assert_eq!(p.query_token, "UserKeyConditionToken");
        },
        Err(_) => panic!("the projection is accepted"),
    }
}

fn index_error(attrs: Vec<Attribute>) -> DeriveError {
    match plan_index_model(&index_input(attrs)) {
        Ok(_) => panic!("the projection is refused"),
        Err(e) => e,
    }
}

#[test]
fn index_plan_refusals() {
    assert!(matches!(index_error(vec![raiden(vec![assign("gsi", "a")])]), DeriveError::MissingSource));
    assert!(matches!(index_error(vec![raiden(vec![assign("source", "User")])]), DeriveError::MissingGsi));
    assert!(matches!(
        index_error(vec![raiden(vec![assign("source", "User"), assign("gsi", "a"), assign("gsi", "b")])]),
        DeriveError::TooManyGsis
    ));
    assert!(matches!(
        index_error(vec![raiden(vec![assign("source", "1 +"), assign("gsi", "a")])]),
        DeriveError::InvalidSource(s) if s == "1 +"
    ));
    assert!(matches!(
        index_error(vec![raiden(vec![assign("source", "&User"), assign("gsi", "a")])]),
        DeriveError::SourceNotPath
    ));
    assert!(matches!(
        index_error(vec![
            raiden(vec![assign("source", "User"), assign("gsi", "a")]),
            raiden(vec![group("gsi", vec![inner("name", "a"), inner("partition_key", "missing")])]),
        ]),
        DeriveError::UnknownKeyField(k) if k == "missing"
    ));
}

#[test]
fn document_plan_uses_serde_rename() {
    let input = DeriveInput {
        ident: "Profile".to_string(),
        attrs: vec![],
        fields: vec![
            field("display_name", vec![attr("serde", vec![assign("default", "make_name"), assign("rename", "displayName")])]),
            field("level", vec![]),
        ],
    };
    let plan = plan_document_model(&input);
    assert_eq!(plan.attr_enum_name, "ProfileDocumentAttrNames");
    assert_eq!(plan.fields[0].variant, "DisplayName");
    assert_eq!(plan.fields[0].attr_name, "displayName");
    assert_eq!(plan.fields[1].attr_name, "level");
    assert_eq!(plan.fields[1].getter, "level");
}

#[test]
fn document_plan_applies_serde_rename_all() {
    let input = DeriveInput {
        ident: "Profile".to_string(),
        attrs: vec![attr("serde", vec![assign("rename_all", "SCREAMING-KEBAB-CASE")])],
        fields: vec![
            field("display_name", vec![]),
            field("level", vec![attr("serde", vec![assign("rename", "lvl")])]),
        ],
    };
    let plan = plan_document_model(&input);
    assert_eq!(plan.fields[0].attr_name, "DISPLAY-NAME");
    assert_eq!(plan.fields[1].attr_name, "lvl");
    let camel = DeriveInput {
        ident: "Profile".to_string(),
        attrs: vec![attr("serde", vec![assign("rename_all", "camelCase")])],
        fields: vec![field("display_name", vec![])],
    };
    assert_eq!(plan_document_model(&camel).fields[0].attr_name, "displayName");
    let unknown = DeriveInput {
        ident: "Profile".to_string(),
        attrs: vec![attr("serde", vec![assign("rename_all", "Title Case")])],
        fields: vec![field("display_name", vec![])],
    };
    assert_eq!(plan_document_model(&unknown).fields[0].attr_name, "display_name");
}

#[test]
fn table_fields_are_read_in_order() {
    let camel = || raiden(vec![assign("rename_all", "camelCase")]);
    let keyed = || {
        let mut input = user_index_input();
        input.attrs.push(camel());
        input.fields[0].attrs =
            vec![raiden(vec![flag("partition_key")]), raiden(vec![flag("sort_key")]), raiden(vec![flag("x"), flag("y")])];
        input
    };
    let mut scan_first = keyed();
    scan_first.fields.push(field("__", vec![]));
    assert!(matches!(table_error(scan_first), DeriveError::NotUnary));
    let mut name_first = keyed();
    name_first.fields.insert(0, field("__", vec![]));
    assert!(matches!(table_error(name_first), DeriveError::RenameUndefined));
}

#[test]
fn index_partition_keys_are_checked_before_uuid_markers() {
    let mut input = user_index_input();
    input.fields[0].attrs = vec![
        raiden(vec![flag("partition_key")]),
        raiden(vec![flag("sort_key")]),
        raiden(vec![flag("use_default")]),
        raiden(vec![flag("x"), flag("y")]),
    ];
    assert!(matches!(table_error(input.clone()), DeriveError::NotUnary));
    input.attrs.push(raiden(vec![group("gsi", vec![inner("name", "orgIndex"), inner("partition_key", "org")])]));
    assert!(matches!(table_error(input), DeriveError::UnknownIndexPartitionKey(k) if k == "org"));
}

#[test]
fn untyped_index_projection_keeps_table_token() {
    let input = DeriveInput {
        ident: "User".to_string(),
        attrs: vec![raiden(vec![assign("gsi", "plainIndex")])],
        fields: vec![
            field("id", vec![raiden(vec![flag("partition_key")])]),
            field("note", vec![raiden(vec![assign("omit_gsi", "plainIndex")])]),
        ],
    };
    let plan = match plan_table_model(&input) {
        Ok(p) => p,
        Err(_) => panic!("the model is accepted"),
    };
    assert_eq!(plan.index_methods[0].method.name, "plain_index");
    assert_eq!(plan.index_methods[0].typed_token, None);
    assert_eq!(plan.projections.len(), 1);
    assert_eq!(plan.projections[0].item.name, "UserPlainIndexItem");
    assert_eq!(plan.projections[0].item.fields, vec![0]);
    assert_eq!(plan.projections[0].query_token, plan.names.key_condition_token);
    assert!(plan.projections[0].gsi_methods.is_empty());
}

#[test]
fn key_names_agree_with_field_plans() {
    let input = DeriveInput {
        ident: "Event".to_string(),
        attrs: vec![raiden(vec![assign("rename_all", "PascalCase")])],
        fields: vec![
            field("account_id", vec![raiden(vec![flag("partition_key")])]),
            field("event_id", vec![raiden(vec![flag("sort_key")]), raiden(vec![assign("rename", "eid")])]),
        ],
    };
    let plan = match plan_table_model(&input) {
        Ok(p) => p,
        Err(_) => panic!("the model is accepted"),
    };
    assert_eq!(plan.partition_key, ("AccountId".to_string(), 0));
    assert_eq!(plan.fields[0].attr_key, plan.partition_key.0);
    assert_eq!(plan.attr_names[0].attr_name, plan.partition_key.0);
    let sort_key = plan.sort_key.clone().expect("the model has a sort key");
    assert_eq!(sort_key, ("eid".to_string(), 1));
    assert_eq!(plan.fields[1].attr_key, sort_key.0);
    assert_eq!(plan.attr_names[1].variant, "Eid");
    assert_eq!(plan.attr_names[1].arm_variant, "Eid");
}

#[test]
fn renaming_twice_changes_nothing() {
    for rule in [
        RenameAllType::LowerCase,
        RenameAllType::CamelCase,
        RenameAllType::PascalCase,
        RenameAllType::SnakeCase,
        RenameAllType::ScreamingSnakeCase,
        RenameAllType::KebabCase,
    ] {
        let once = create_renamed("_very_tasty".to_string(), None, rule);
        assert_eq!(create_renamed(once.clone(), None, rule), once);
    }
}

#[test]
fn keyword_key_names_are_identifiers() {
    let mut input = user_index_input();
    input.fields[0].attrs.push(raiden(vec![assign("rename", "type")]));
    match plan_table_model(&input) {
        Ok(plan) => assert_eq!(plan.partition_key, ("type".to_string(), 0)),
        Err(_) => panic!("the model is accepted"),
    }
}

fn event_lsi_input(lsi: Vec<InnerArg>) -> DeriveInput {
    DeriveInput {
        ident: "Event".to_string(),
        attrs: vec![raiden(vec![assign("table_name", "events")]), raiden(vec![group("lsi", lsi)])],
        fields: vec![
            field("account_id", vec![raiden(vec![flag("partition_key")])]),
            field("event_id", vec![raiden(vec![flag("sort_key")])]),
            field("created_at", vec![]),
            field("private_note", vec![raiden(vec![assign("omit_lsi", "createdIndex")])]),
        ],
    }
}

#[test]
fn typed_lsi_of_readme_model() {
    let input = event_lsi_input(vec![inner("name", "createdIndex"), inner("sort_key", "created_at")]);
    let plan = match plan_table_model(&input) {
        Ok(p) => p,
        Err(e) => panic!("the model is accepted: {:?}", e),
    };
    assert_eq!(plan.lsi_names, vec!["createdIndex".to_string()]);
    assert_eq!(plan.lsi_definitions[0].partition_key, Some("account_id".to_string()));
    let names: Vec<&str> = plan.lsi_methods.iter().map(|m| m.method.name.as_str()).collect();
    assert_eq!(names, vec!["created_index_key_condition", "created_index_sort_key_condition"]);
    assert_eq!(plan.lsi_methods[0].attr_name, "account_id");
    assert_eq!(plan.lsi_methods[1].attr_name, "created_at");
    assert_eq!(plan.lsi_methods[0].next_token, plan.lsi_methods[1].token);
    assert_eq!(plan.lsi_methods[1].next_token, "EventCreatedIndexTerminalKeyConditionToken");
    assert_eq!(plan.lsi_index_methods[0].method.name, "created_index");
    assert_eq!(plan.projections.len(), 1);
    assert_eq!(plan.projections[0].item.name, "EventCreatedIndexItem");
    assert_eq!(plan.projections[0].item.fields, vec![0, 1, 2]);
    assert_eq!(plan.projections[0].query_token, "EventCreatedIndexPartitionKeyConditionToken");
    assert_eq!(plan.projections[0].gsi_methods.len(), 2);
}

#[test]
fn lsi_refusals() {
    let mut unsorted = event_lsi_input(vec![inner("name", "createdIndex"), inner("sort_key", "created_at")]);
    unsorted.fields[1].attrs.clear();
    assert!(matches!(table_error(unsorted), DeriveError::LsiWithoutTableSortKey(n) if n == "createdIndex"));
    let other_pk = event_lsi_input(vec![
        inner("name", "createdIndex"),
        inner("partition_key", "event_id"),
        inner("sort_key", "created_at"),
    ]);
    assert!(matches!(table_error(other_pk), DeriveError::LsiPartitionKeyMismatch(n) if n == "createdIndex"));
    let same_pk = event_lsi_input(vec![
        inner("name", "createdIndex"),
        inner("partition_key", "account_id"),
        inner("sort_key", "created_at"),
    ]);
    assert!(plan_table_model(&same_pk).is_ok());
    let two_sorts = event_lsi_input(vec![
        inner("name", "createdIndex"),
        inner("sort_key", "created_at"),
        inner("sort_key", "event_id"),
    ]);
    assert!(matches!(table_error(two_sorts), DeriveError::InvalidLsiSortKey(n) if n == "createdIndex"));
    let unknown = event_lsi_input(vec![inner("name", "createdIndex"), inner("sort_key", "created")]);
    assert!(matches!(table_error(unknown), DeriveError::UnknownKeyField(n) if n == "created"));
}

#[test]
fn lsi_projection_type_of_raiden_index() {
    let input = DeriveInput {
        ident: "EventByCreated".to_string(),
        attrs: vec![
            raiden(vec![assign("source", "Event"), assign("lsi", "createdIndex")]),
            raiden(vec![group(
                "lsi",
                vec![inner("name", "createdIndex"), inner("partition_key", "account_id"), inner("sort_key", "created_at")],
            )]),
        ],
        fields: vec![field("account_id", vec![]), field("created_at", vec![])],
    };
    let plan = match plan_index_model(&input) {
        Ok(p) => p,
        Err(e) => panic!("the projection is accepted: {:?}", e),
    };
    assert_eq!(plan.gsi_name, "createdIndex");
    assert_eq!(plan.query_token, "EventCreatedIndexPartitionKeyConditionToken");
    assert_eq!(plan.gsi_methods.len(), 2);
    assert_eq!(plan.gsi_methods[1].method.name, "created_index_sort_key_condition");
}
