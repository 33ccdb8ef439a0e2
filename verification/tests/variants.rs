use sylvia_derive::check_generics::CheckGenerics;
use sylvia_derive::error::BuildError;
use sylvia_derive::message::variant::{LegKind, Owner};
use sylvia_derive::message::variants::{find_variant, messages_of, survey};
use sylvia_derive::message::{MsgField, MsgVariant, MsgVariants};
use sylvia_derive::source::{
    find_error, find_msg, Attribute, Custom, CtxShape, DispatchType, ErrorType, Extension, FnArg,
    GenericParam, Item, Method, MsgAttr, MsgType, Pat, PatType, ResultType, ReturnType, Signature,
    Type, WherePredicate,
};
use sylvia_derive::utils::{extract_return_type, filter_wheres, process_fields};

fn ty(text: &str, idents: &[&str]) -> Type {
    Type {
        text: text.to_string(),
        bare: text.split('<').next().unwrap().to_string(),
        idents: idents.iter().map(|i| i.to_string()).collect(),
    }
}

fn arg(name: &str, ty: Type) -> FnArg {
    FnArg::Typed(PatType { attrs: Vec::new(), pat: Pat::Ident(name.to_string()), ty })
}

fn pattern(ty: Type) -> FnArg {
    FnArg::Typed(PatType { attrs: Vec::new(), pat: Pat::Other, ty })
}

fn result_of(inner: &str) -> ReturnType {
    ReturnType::Type(ResultType {
        text: format!("Result<{inner}, Self::Error>"),
        outer: "Result".to_string(),
        inner: Some(inner.to_string()),
    })
}

fn sig(name: &str, ctx: &str, params: Vec<FnArg>, output: ReturnType) -> Signature {
    let mut inputs = vec![FnArg::Receiver, arg("ctx", ty(ctx, &[ctx]))];
    inputs.extend(params);
    Signature { ident: name.to_string(), inputs, output }
}

fn method(attr: MsgAttr, sig: Signature) -> Item {
    Item::Method(Method { attrs: vec![Attribute::Other, Attribute::Msg(Ok(attr))], sig })
}

fn type_param(name: &str) -> GenericParam {
    GenericParam { name: name.to_string(), is_type: true, text: name.to_string() }
}

fn names(params: &[&GenericParam]) -> Vec<String> {
    params.iter().map(|p| p.name.clone()).collect()
}

#[test]
fn msg_attr_gives_its_category() {
    assert_eq!(MsgAttr::Exec.msg_type(), MsgType::Exec);
    assert_eq!(MsgAttr::Query { resp_type: None }.msg_type(), MsgType::Query);
    assert_eq!(MsgAttr::Instantiate { name: "InstantiateMsg".to_string() }.msg_type(), MsgType::Instantiate);
    assert_eq!(MsgAttr::Migrate { name: "MigrateMsg".to_string() }.msg_type(), MsgType::Migrate);
    assert_eq!(MsgAttr::Reply.msg_type(), MsgType::Reply);
    assert_eq!(MsgAttr::Sudo.msg_type(), MsgType::Sudo);
}

#[test]
fn ctx_type_follows_the_category() {
    let query = ty("MyQuery", &["MyQuery"]);
    for (category, shape) in [
        (MsgType::Exec, CtxShape::DepsMutEnvInfo),
        (MsgType::Instantiate, CtxShape::DepsMutEnvInfo),
        (MsgType::Migrate, CtxShape::DepsMutEnv),
        (MsgType::Reply, CtxShape::DepsMutEnv),
        (MsgType::Sudo, CtxShape::DepsMutEnv),
        (MsgType::Query, CtxShape::DepsEnv),
    ] {
        let ctx = category.emit_ctx_type(Extension::Custom(&query));
        assert_eq!(ctx.shape, shape);
        assert!(matches!(ctx.query, Extension::Custom(t) if t.text == "MyQuery"));
    }
    assert!(matches!(MsgType::Exec.emit_ctx_type(Extension::Empty).query, Extension::Empty));
}

#[test]
fn result_type_follows_the_category() {
    let error = ty("ContractError", &["ContractError"]);
    let answer = MsgType::Query.emit_result_type(Extension::Empty, ErrorType::Named(&error));
    assert!(matches!(answer, DispatchType::Binary { error: ErrorType::Named(e) } if e.text == "ContractError"));
    for category in [MsgType::Exec, MsgType::Instantiate, MsgType::Migrate, MsgType::Reply, MsgType::Sudo] {
        let response = category.emit_result_type(Extension::Empty, ErrorType::Handler);
        assert!(matches!(
            response,
            DispatchType::Response { msg: Extension::Empty, error: ErrorType::Handler }
        ));
    }
}

#[test]
fn custom_types_default_to_empty() {
    let none = Custom { msg: None, query: None };
    assert!(none.msg().is_none());
    assert!(none.query().is_none());
    assert!(matches!(none.msg_or_default(), Extension::Empty));
    assert!(matches!(none.query_or_default(), Extension::Empty));
    let both = Custom { msg: Some(ty("MyMsg", &["MyMsg"])), query: Some(ty("MyQuery", &["MyQuery"])) };
    assert_eq!(both.msg().unwrap().text, "MyMsg");
    assert_eq!(both.query().unwrap().text, "MyQuery");
    assert!(matches!(both.msg_or_default(), Extension::Custom(t) if t.text == "MyMsg"));
    assert!(matches!(both.query_or_default(), Extension::Custom(t) if t.text == "MyQuery"));
    assert_eq!(Custom::default_type().text, "sylvia::cw_std::Empty");
    assert_eq!(Custom::default_type().bare, "sylvia::cw_std::Empty");
    let declared = Some(ty("Declared", &[]));
    let associated = Some(ty("Associated", &[]));
    assert!(matches!(Custom::resolve(&declared, &associated), Extension::Custom(t) if t.text == "Declared"));
    assert!(matches!(Custom::resolve(&None, &associated), Extension::Custom(t) if t.text == "Associated"));
    assert!(matches!(Custom::resolve(&None, &None), Extension::Empty));
}

#[test]
fn attributes_are_found_by_kind() {
    let attrs = vec![
        Attribute::Other,
        Attribute::Error(Ok(ty("ContractError", &[]))),
        Attribute::Msg(Err("unknown category".to_string())),
        Attribute::Msg(Ok(MsgAttr::Exec)),
        Attribute::Error(Err("late".to_string())),
    ];
    assert!(matches!(find_msg(&attrs), Some(Err(reason)) if reason == "unknown category"));
    assert!(matches!(find_error(&attrs), Some(Ok(t)) if t.text == "ContractError"));
    assert!(find_msg(&vec![Attribute::Other]).is_none());
    assert!(find_error(&Vec::new()).is_none());
}

#[test]
fn check_generics_marks_in_order_of_first_use() {
    let generics = vec![
        type_param("A"),
        GenericParam { name: "'a".to_string(), is_type: false, text: "'a".to_string() },
        type_param("B"),
        type_param("C"),
    ];
    let mut checker = CheckGenerics::new(&generics);
    checker.visit_type(&ty("Vec<C>", &["C"]));
    checker.visit_type(&ty("Pair<A, C>", &["A", "C"]));
    checker.visit_ident(&"Unrelated".to_string());
    checker.visit_ident(&"'a".to_string());
    let (used, unused) = checker.used_unused();
    assert_eq!(names(&used), vec!["C", "A"]);
    assert_eq!(names(&unused), vec!["'a", "B"]);
    let mut other = CheckGenerics::new(&generics);
    other.visit_where_predicate(&WherePredicate {
        text: "B: Clone".to_string(),
        idents: vec!["B".to_string(), "Clone".to_string()],
    });
    assert_eq!(names(&other.used()), vec!["B"]);
}

#[test]
fn filter_wheres_keeps_predicates_on_used_parameters() {
    let generics = vec![type_param("Msg"), type_param("Param")];
    let clause = Some(vec![
        WherePredicate { text: "Msg: CustomMsg".to_string(), idents: vec!["Msg".to_string(), "CustomMsg".to_string()] },
        WherePredicate { text: "Param: CustomMsg".to_string(), idents: vec!["Param".to_string(), "CustomMsg".to_string()] },
        WherePredicate { text: "Msg: From<Param>".to_string(), idents: vec!["Msg".to_string(), "Param".to_string()] },
        WherePredicate { text: "u8: Copy".to_string(), idents: vec!["u8".to_string(), "Copy".to_string()] },
    ]);
    let used = vec![&generics[0]];
    let kept: Vec<&str> = filter_wheres(&clause, &generics, &used).iter().map(|p| p.text.as_str()).collect();
    assert_eq!(kept, vec!["Msg: CustomMsg", "u8: Copy"]);
    assert!(filter_wheres(&None, &generics, &used).is_empty());
    let nothing: Vec<&GenericParam> = Vec::new();
    let kept: Vec<&str> = filter_wheres(&clause, &generics, &nothing).iter().map(|p| p.text.as_str()).collect();
    assert_eq!(kept, vec!["u8: Copy"]);
}

#[test]
fn a_field_is_made_of_a_named_parameter() {
    let generics = vec![type_param("T")];
    let mut checker = CheckGenerics::new(&generics);
    let item = PatType {
        attrs: vec!["#[serde(default)]".to_string()],
        pat: Pat::Ident("amount".to_string()),
        ty: ty("Option<T>", &["T"]),
    };
    let field = MsgField::new(&item, &mut checker).unwrap();
    assert_eq!(field.name(), "amount");
    assert_eq!(field.ty.text, "Option<T>");
    assert_eq!(field.attrs, &vec!["#[serde(default)]".to_string()]);
    let decl = field.emit();
    assert_eq!((decl.name.as_str(), decl.ty.text.as_str(), decl.attrs.len()), ("amount", "Option<T>", 1));
    let param = field.emit_method_field();
    assert_eq!((param.name.as_str(), param.ty.text.as_str()), ("amount", "Option<T>"));
    assert_eq!(names(&checker.used()), vec!["T"]);
}

#[test]
fn a_pattern_gives_no_field() {
    let generics = vec![type_param("T")];
    let mut checker = CheckGenerics::new(&generics);
    let item = PatType { attrs: Vec::new(), pat: Pat::Other, ty: ty("Pair<T>", &["T"]) };
    assert!(MsgField::new(&item, &mut checker).is_none());
    assert!(checker.used().is_empty());
}

#[test]
fn process_fields_skips_receiver_and_context() {
    let generics = Vec::new();
    let mut checker = CheckGenerics::new(&generics);
    let signature = sig(
        "argumented_execution",
        "ExecCtx",
        vec![arg("addr", ty("Addr", &["Addr"])), arg("coef", ty("Decimal", &["Decimal"])), arg("desc", ty("String", &["String"]))],
        result_of("Response"),
    );
    let fields = process_fields(&signature, &mut checker).unwrap();
    let got: Vec<(&str, &str)> = fields.iter().map(|f| (f.name.as_str(), f.ty.text.as_str())).collect();
    assert_eq!(got, vec![("addr", "Addr"), ("coef", "Decimal"), ("desc", "String")]);
    let bare = Signature { ident: "bare".to_string(), inputs: vec![FnArg::Receiver], output: ReturnType::Default };
    assert!(process_fields(&bare, &mut checker).unwrap().is_empty());
}

#[test]
fn process_fields_names_the_first_offending_parameter() {
    let generics = Vec::new();
    let mut checker = CheckGenerics::new(&generics);
    let destructured = sig(
        "exec_foo",
        "ExecCtx",
        vec![arg("first", ty("u8", &["u8"])), pattern(ty("SomeData", &["SomeData"])), pattern(ty("u8", &["u8"]))],
        result_of("Response"),
    );
    match process_fields(&destructured, &mut checker) {
        Err(BuildError::Parameter { method, position }) => {
            assert_eq!(method, "exec_foo");
            assert_eq!(position, 1);
        },
        other => panic!("unexpected: {other:?}"),
    }
    let second_self = sig("twice", "ExecCtx", vec![FnArg::Receiver], ReturnType::Default);
    assert!(matches!(
        process_fields(&second_self, &mut checker),
        Err(BuildError::Parameter { position: 0, .. })
    ));
}

#[test]
fn extract_return_type_reads_results_only() {
    assert_eq!(extract_return_type(&result_of("QueryResponse")).unwrap(), "QueryResponse");
    let std_result = ReturnType::Type(ResultType {
        text: "StdResult<Count>".to_string(),
        outer: "StdResult".to_string(),
        inner: Some("Count".to_string()),
    });
    assert_eq!(extract_return_type(&std_result).unwrap(), "Count");
    let aliased = ReturnType::Type(ResultType {
        text: "MyResult<Count>".to_string(),
        outer: "MyResult".to_string(),
        inner: Some("Count".to_string()),
    });
    assert!(extract_return_type(&aliased).is_none());
    let bare = ReturnType::Type(ResultType { text: "Result".to_string(), outer: "Result".to_string(), inner: None });
    assert!(extract_return_type(&bare).is_none());
    assert!(extract_return_type(&ReturnType::Default).is_none());
}

#[test]
fn a_variant_is_tagged_in_upper_camel_case() {
    let generics = Vec::new();
    let mut checker = CheckGenerics::new(&generics);
    let signature = sig("no_args_execution", "ExecCtx", Vec::new(), result_of("Response"));
    let attr = MsgAttr::Exec;
    let variant = MsgVariant::new(&signature, &mut checker, &attr).unwrap();
    assert_eq!(variant.name, "NoArgsExecution");
    assert_eq!(variant.function_name, "no_args_execution");
    assert_eq!(variant.wire_name(), "no_args_execution");
    assert_eq!(variant.msg_type, MsgType::Exec);
    assert!(variant.return_type.is_none());
    assert!(variant.fields.is_empty());
}

#[test]
fn wire_names_come_from_the_tag() {
    let generics = Vec::new();
    let mut checker = CheckGenerics::new(&generics);
    let attr = MsgAttr::Exec;
    for (method_name, tag, wire) in [
        ("execute", "Execute", "execute"),
        ("argumented_query", "ArgumentedQuery", "argumented_query"),
        ("mintNFT", "MintNft", "mint_nft"),
        ("transfer2", "Transfer2", "transfer_2"),
        ("__weird__name_", "WeirdName", "weird_name"),
    ] {
        let signature = sig(method_name, "ExecCtx", Vec::new(), result_of("Response"));
        let variant = MsgVariant::new(&signature, &mut checker, &attr).unwrap();
        assert_eq!(variant.name, tag);
        assert_eq!(variant.wire_name(), wire);
    }
}

#[test]
fn a_query_takes_its_response_from_attribute_or_result() {
    let generics = Vec::new();
    let mut checker = CheckGenerics::new(&generics);
    let signature = sig("argumented_query", "QueryCtx", vec![arg("user", ty("Addr", &["Addr"]))], result_of("QueryResponse"));
    let inferred = MsgAttr::Query { resp_type: None };
    let variant = MsgVariant::new(&signature, &mut checker, &inferred).unwrap();
    assert_eq!(variant.return_type.unwrap(), "QueryResponse");
    let named = MsgAttr::Query { resp_type: Some("Other".to_string()) };
    let variant = MsgVariant::new(&signature, &mut checker, &named).unwrap();
    assert_eq!(variant.return_type.unwrap(), "Other");
    assert_eq!(variant.msg_type, MsgType::Query);
}

#[test]
fn a_query_without_response_is_refused() {
    let generics = Vec::new();
    let mut checker = CheckGenerics::new(&generics);
    let signature = sig("count", "QueryCtx", Vec::new(), ReturnType::Default);
    let attr = MsgAttr::Query { resp_type: None };
    match MsgVariant::new(&signature, &mut checker, &attr) {
        Err(BuildError::Response { method }) => assert_eq!(method, "count"),
        other => panic!("unexpected: {other:?}"),
    }
    let named = MsgAttr::Query { resp_type: Some("Count".to_string()) };
    assert!(MsgVariant::new(&signature, &mut checker, &named).is_ok());
    let exec = MsgAttr::Exec;
    assert!(MsgVariant::new(&signature, &mut checker, &exec).is_ok());
}

#[test]
fn a_bad_parameter_comes_before_a_missing_response() {
    let generics = Vec::new();
    let mut checker = CheckGenerics::new(&generics);
    let signature = sig("count", "QueryCtx", vec![pattern(ty("u8", &[]))], ReturnType::Default);
    let attr = MsgAttr::Query { resp_type: None };
    assert!(matches!(
        MsgVariant::new(&signature, &mut checker, &attr),
        Err(BuildError::Parameter { position: 0, .. })
    ));
}

#[test]
fn a_variant_emits_its_declaration() {
    let generics = Vec::new();
    let mut checker = CheckGenerics::new(&generics);
    let signature = sig("argumented_query", "QueryCtx", vec![arg("user", ty("Addr", &["Addr"]))], result_of("QueryResponse"));
    let query = MsgAttr::Query { resp_type: None };
    let variant = MsgVariant::new(&signature, &mut checker, &query).unwrap();
    let decl = variant.emit();
    assert_eq!(decl.name, "ArgumentedQuery");
    assert_eq!(decl.response.unwrap(), "QueryResponse");
    assert_eq!(decl.fields.len(), 1);
    assert_eq!(decl.fields[0].name, "user");
    let exec = MsgAttr::Exec;
    let variant = MsgVariant::new(&signature, &mut checker, &exec).unwrap();
    assert!(variant.emit().response.is_none());
}

#[test]
fn a_dispatch_leg_numbers_its_arguments() {
    let generics = Vec::new();
    let mut checker = CheckGenerics::new(&generics);
    let params: Vec<FnArg> = (0..12).map(|k| arg(&format!("p{k}"), ty("u8", &["u8"]))).collect();
    let signature = sig("many", "ExecCtx", params, result_of("Response"));
    let attr = MsgAttr::Exec;
    let variant = MsgVariant::new(&signature, &mut checker, &attr).unwrap();
    let leg = variant.emit_dispatch_leg(MsgType::Exec).unwrap();
    assert_eq!(leg.variant, "Many");
    assert_eq!(leg.function_name, "many");
    assert_eq!(leg.kind, LegKind::Exec);
    let expected: Vec<String> = (1..=12).map(|k| format!("field{k}")).collect();
    assert_eq!(leg.args, expected);
    let fields: Vec<&str> = leg.fields.iter().map(|f| f.as_str()).collect();
    assert_eq!(fields[0], "p0");
    assert_eq!(fields[11], "p11");
    assert_eq!(variant.emit_dispatch_leg(MsgType::Query).unwrap().kind, LegKind::Query);
}

#[test]
fn only_executions_and_queries_have_dispatch_legs() {
    let generics = Vec::new();
    let mut checker = CheckGenerics::new(&generics);
    let signature = sig("instantiate", "InstantiateCtx", Vec::new(), result_of("Response"));
    let attr = MsgAttr::Instantiate { name: "InstantiateMsg".to_string() };
    let variant = MsgVariant::new(&signature, &mut checker, &attr).unwrap();
    for category in [MsgType::Instantiate, MsgType::Migrate, MsgType::Reply, MsgType::Sudo] {
        match variant.emit_dispatch_leg(category) {
            Err(BuildError::Unsupported { variant }) => assert_eq!(variant, "Instantiate"),
            other => panic!("unexpected: {other:?}"),
        }
    }
}

#[test]
fn a_contract_has_legs_for_its_privileged_operations() {
    let generics = Vec::new();
    let mut checker = CheckGenerics::new(&generics);
    let signature = sig("halt", "SudoCtx", vec![arg("reason", ty("String", &["String"]))], result_of("Response"));
    let attr = MsgAttr::Sudo;
    let variant = MsgVariant::new(&signature, &mut checker, &attr).unwrap();
    let leg = variant.emit_leg(Owner::Contract, MsgType::Sudo).unwrap();
    assert_eq!((leg.variant.as_str(), leg.function_name.as_str(), leg.kind), ("Halt", "halt", LegKind::Exec));
    assert_eq!(leg.args, vec!["field1"]);
    assert!(matches!(variant.emit_leg(Owner::Interface, MsgType::Sudo), Err(BuildError::Unsupported { .. })));
    assert_eq!(variant.emit_leg(Owner::Contract, MsgType::Exec).unwrap().kind, LegKind::Exec);
    assert_eq!(variant.emit_leg(Owner::Interface, MsgType::Query).unwrap().kind, LegKind::Query);
    for category in [MsgType::Instantiate, MsgType::Migrate, MsgType::Reply] {
        match variant.emit_leg(Owner::Contract, category) {
            Err(BuildError::NotDispatched { variant }) => assert_eq!(variant, "Halt"),
            other => panic!("unexpected: {other:?}"),
        }
        assert!(matches!(variant.emit_leg(Owner::Interface, category), Err(BuildError::Unsupported { .. })));
    }
}

#[test]
fn a_constructor_is_named_by_the_wire_name() {
    let generics = Vec::new();
    let mut checker = CheckGenerics::new(&generics);
    let signature = sig(
        "argumented_execution",
        "ExecCtx",
        vec![arg("addr", ty("Addr", &["Addr"])), arg("coef", ty("Decimal", &["Decimal"]))],
        result_of("Response"),
    );
    let attr = MsgAttr::Exec;
    let variant = MsgVariant::new(&signature, &mut checker, &attr).unwrap();
    let constructor = variant.emit_variants_constructors();
    assert_eq!(constructor.method_name, "argumented_execution");
    assert_eq!(constructor.variant, "ArgumentedExecution");
    let params: Vec<(&str, &str)> = constructor.parameters.iter().map(|p| (p.name.as_str(), p.ty.text.as_str())).collect();
    assert_eq!(params, vec![("addr", "Addr"), ("coef", "Decimal")]);
    let arguments: Vec<&str> = constructor.arguments.iter().map(|a| a.as_str()).collect();
    assert_eq!(arguments, vec!["addr", "coef"]);
}

#[test]
fn querier_methods_carry_the_response_type() {
    let generics = Vec::new();
    let mut checker = CheckGenerics::new(&generics);
    let signature = sig("argumented_query", "QueryCtx", vec![arg("user", ty("Addr", &["Addr"]))], result_of("QueryResponse"));
    let attr = MsgAttr::Query { resp_type: None };
    let variant = MsgVariant::new(&signature, &mut checker, &attr).unwrap();
    let module = "interface".to_string();
    let method = variant.emit_querier_impl(Some(&module));
    assert_eq!(method.name, "argumented_query");
    assert_eq!(method.return_type.unwrap(), "QueryResponse");
    assert_eq!(method.module.unwrap(), "interface");
    assert_eq!(method.parameters.len(), 1);
    assert_eq!(method.arguments[0], "user");
    assert!(variant.emit_querier_impl(None).module.is_none());
    let declaration = variant.emit_querier_declaration();
    assert_eq!(declaration.name, "argumented_query");
    assert_eq!(declaration.return_type.unwrap(), "QueryResponse");
    assert_eq!(declaration.parameters[0].name, "user");
}

fn interface_items() -> Vec<Item> {
    vec![
        Item::Other,
        method(MsgAttr::Exec, sig("no_args_execution", "ExecCtx", Vec::new(), result_of("Response"))),
        method(
            MsgAttr::Exec,
            sig(
                "argumented_execution",
                "ExecCtx",
                vec![arg("addr", ty("Addr", &["Addr"])), arg("coef", ty("Decimal", &["Decimal"])), arg("desc", ty("String", &["String"]))],
                result_of("Response"),
            ),
        ),
        Item::Method(Method { attrs: vec![Attribute::Other], sig: sig("helper", "ExecCtx", Vec::new(), ReturnType::Default) }),
        method(MsgAttr::Query { resp_type: None }, sig("no_args_query", "QueryCtx", Vec::new(), result_of("EmptyQueryResponse"))),
        method(
            MsgAttr::Query { resp_type: None },
            sig("argumented_query", "QueryCtx", vec![arg("user", ty("Addr", &["Addr"]))], result_of("QueryResponse")),
        ),
    ]
}

#[test]
fn all_operations_are_collected_in_order() {
    let items = interface_items();
    let generics = Vec::new();
    let variants = MsgVariants::new(&items, &generics).unwrap();
    let tags: Vec<&str> = variants.0.iter().map(|v| v.name.as_str()).collect();
    assert_eq!(tags, vec!["NoArgsExecution", "ArgumentedExecution", "NoArgsQuery", "ArgumentedQuery"]);
}

#[test]
fn an_unreadable_attribute_stops_the_collection() {
    let mut items = interface_items();
    items.insert(
        2,
        Item::Method(Method {
            attrs: vec![Attribute::Msg(Err("expected one of exec, query".to_string()))],
            sig: sig("broken", "ExecCtx", Vec::new(), ReturnType::Default),
        }),
    );
    let generics = Vec::new();
    match MsgVariants::new(&items, &generics) {
        Err(BuildError::Attribute { method, reason }) => {
            assert_eq!(method, "broken");
            assert_eq!(reason, "expected one of exec, query");
        },
        other => panic!("unexpected: {other:?}"),
    }
}

#[test]
fn the_querier_has_a_method_for_each_query() {
    let items = interface_items();
    let generics = Vec::new();
    let variants = MsgVariants::new(&items, &generics).unwrap();
    let querier = variants.emit_querier();
    let methods: Vec<&str> = querier.methods_impl.iter().map(|m| m.name.as_str()).collect();
    assert_eq!(methods, vec!["no_args_query", "argumented_query"]);
    assert!(querier.methods_impl.iter().all(|m| m.module.is_none()));
    let declared: Vec<&str> = querier.methods_declaration.iter().map(|m| m.name.as_str()).collect();
    assert_eq!(declared, vec!["no_args_query", "argumented_query"]);
    assert_eq!(querier.methods_declaration[1].return_type.unwrap(), "QueryResponse");
}

#[test]
fn the_bound_querier_builds_queries_under_the_interface() {
    let items = interface_items();
    let generics = Vec::new();
    let variants = MsgVariants::new(&items, &generics).unwrap();
    let interface = "interface".to_string();
    let contract = "contract".to_string();
    let bound = variants.emit_querier_for_bound_impl(Some(&interface), Some(&contract));
    assert_eq!(bound.querier_module.unwrap(), "interface");
    assert_eq!(bound.bound_querier_module.unwrap(), "contract");
    assert_eq!(bound.methods_impl.len(), 2);
    assert!(bound.methods_impl.iter().all(|m| m.module.unwrap() == "interface"));
    let local = variants.emit_querier_for_bound_impl(None, None);
    assert!(local.querier_module.is_none() && local.bound_querier_module.is_none());
}

#[test]
fn messages_are_listed_ascending() {
    let items = interface_items();
    let generics = Vec::new();
    let variants = MsgVariants::new(&items, &generics).unwrap();
    let mut expected = vec!["argumented_execution", "argumented_query", "no_args_execution", "no_args_query"];
    assert_eq!(messages_of(&variants.0), expected);
    let (listed, twice) = survey(&variants.0);
    assert_eq!(listed, expected);
    assert!(twice.is_none());
    expected.sort();
    assert_eq!(messages_of(&variants.0), expected);
    assert_eq!(find_variant(&variants.0, &"no_args_query".to_string()), Some(2));
    assert_eq!(find_variant(&variants.0, &"NoArgsQuery".to_string()), None);
}

#[test]
fn a_shared_wire_name_is_reported_once_listed() {
    let items = vec![
        method(MsgAttr::Exec, sig("mint_nft", "ExecCtx", Vec::new(), result_of("Response"))),
        method(MsgAttr::Exec, sig("burn", "ExecCtx", Vec::new(), result_of("Response"))),
        method(MsgAttr::Exec, sig("mintNft", "ExecCtx", Vec::new(), result_of("Response"))),
    ];
    let generics = Vec::new();
    let variants = MsgVariants::new(&items, &generics).unwrap();
    let (listed, twice) = survey(&variants.0);
    assert_eq!(listed, vec!["burn", "mint_nft"]);
    assert_eq!(twice.unwrap(), "mint_nft");
    assert_eq!(messages_of(&variants.0), vec!["burn", "mint_nft"]);
    assert_eq!(find_variant(&variants.0, &"mint_nft".to_string()), Some(0));
}
