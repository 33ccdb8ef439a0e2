use cosmwasm_std::testing::{mock_dependencies, mock_env, mock_info};
use cosmwasm_std::{
    from_binary, to_binary, Addr, Binary, Decimal, Deps, DepsMut, Empty, Env, MessageInfo, Response,
    StdError,
};
use std::cell::RefCell;
use std::collections::{BTreeMap, HashMap};
use sylvia_derive::error::BuildError;
use sylvia_derive::message::glue::{ContractMessageAttr, Customs, Interfaces};
use sylvia_derive::message::variant::LegKind;
use sylvia_derive::message::{Composite, ContractEnumMessage, EnumMessage, GlueMessage};
use sylvia_derive::source::{
    Attribute, Custom, CtxShape, DispatchType, ErrorType, Extension, FnArg, Generics, Item,
    ItemImpl, ItemTrait, Method, MsgAttr, MsgType, Pat, PatType, ResultType, ReturnType,
    Signature, Type,
};
use sylvia_derive::types::{ExecCtx, InstantiateCtx, MigrateCtx, QueryCtx};
use sylvia_derive::wire::{settle, DecodeError, GlueMsg, Invocation, Key, Payload, Shape};

fn ty(text: &str, idents: &[&str]) -> Type {
    Type {
        text: text.to_string(),
        bare: text.split('<').next().unwrap().to_string(),
        idents: idents.iter().map(|i| i.to_string()).collect(),
    }
}

fn arg(name: &str, ty: Type) -> FnArg {
    FnArg::Typed(PatType { attrs: Vec::new(), pat: Pat::Ident(name.to_string()), ty })
}

fn result_of(inner: &str) -> ReturnType {
    ReturnType::Type(ResultType {
        text: format!("Result<{inner}, Self::Error>"),
        outer: "Result".to_string(),
        inner: Some(inner.to_string()),
    })
}

fn sig(name: &str, ctx: &str, params: Vec<FnArg>, output: ReturnType) -> Signature {
    let mut inputs = vec![FnArg::Receiver, arg("ctx", ty(ctx, &[ctx]))];
    inputs.extend(params);
    Signature { ident: name.to_string(), inputs, output }
}

fn method(attr: MsgAttr, sig: Signature) -> Item {
    Item::Method(Method { attrs: vec![Attribute::Msg(Ok(attr))], sig })
}

fn exec(name: &str, params: Vec<FnArg>) -> Item {
    method(MsgAttr::Exec, sig(name, "ExecCtx", params, result_of("Response")))
}

fn query(name: &str, params: Vec<FnArg>, response: &str) -> Item {
    method(MsgAttr::Query { resp_type: None }, sig(name, "QueryCtx", params, result_of(response)))
}

fn no_generics() -> Generics {
    Generics { params: Vec::new(), where_clause: None }
}

fn trait_of(name: &str, items: Vec<Item>) -> ItemTrait {
    ItemTrait { ident: name.to_string(), generics: no_generics(), items, exec_custom: None, query_custom: None }
}

fn impl_of(items: Vec<Item>) -> ItemImpl {
    ItemImpl { attrs: Vec::new(), generics: no_generics(), self_ty: ty("Contract<T>", &[]), items }
}

fn interface() -> ItemTrait {
    trait_of(
        "Interface",
        vec![
            exec("no_args_execution", Vec::new()),
            exec(
                "argumented_execution",
                vec![arg("addr", ty("Addr", &["Addr"])), arg("coef", ty("Decimal", &["Decimal"])), arg("desc", ty("String", &["String"]))],
            ),
            query("no_args_query", Vec::new(), "EmptyQueryResponse"),
            query("argumented_query", vec![arg("user", ty("Addr", &["Addr"]))], "QueryResponse"),
        ],
    )
}

/// What a payload is once it is parsed without regard to any message type.
fn payload(text: &str) -> Payload {
    let value: serde_json::Value = serde_json::from_str(text).unwrap();
    let shape = match value.as_object() {
        Some(object) => Shape::Object(object.keys().map(|key| Key::Text(key.clone())).collect()),
        None => Shape::Other,
    };
    Payload { shape, text: serde_json::to_string(&value).unwrap() }
}

#[derive(Clone, Debug, PartialEq, Eq)]
pub struct EmptyQueryResponse {}

#[derive(Clone, Debug, PartialEq, Eq)]
pub struct QueryResponse {
    coef: Decimal,
    desc: String,
}

impl EmptyQueryResponse {
    /// The response as it goes into the binary envelope.
    fn wire(&self) -> Empty {
        Empty {}
    }

    fn from_wire(_: Empty) -> Self {
        EmptyQueryResponse {}
    }
}

impl QueryResponse {
    /// The response as it goes into the binary envelope: its fields by name.
    fn wire(&self) -> BTreeMap<String, String> {
        BTreeMap::from([
            ("coef".to_string(), self.coef.to_string()),
            ("desc".to_string(), self.desc.clone()),
        ])
    }

    fn from_wire(wire: BTreeMap<String, String>) -> Self {
        assert_eq!(wire.len(), 2);
        QueryResponse { coef: wire["coef"].parse().unwrap(), desc: wire["desc"].clone() }
    }
}

type Exec<'a> = ExecCtx<DepsMut<'a>, Env, MessageInfo>;

type Query<'a> = QueryCtx<Deps<'a>, Env>;

#[derive(Default)]
pub struct Contract {
    execs: RefCell<u64>,
    queries: RefCell<u64>,
    data: RefCell<HashMap<Addr, QueryResponse>>,
}

impl Contract {
    fn no_args_execution(&self, _: Exec) -> Result<Response, StdError> {
        *self.execs.borrow_mut() += 1;
        Ok(Response::new())
    }

    fn argumented_execution(
        &self,
        _: Exec,
        addr: Addr,
        coef: Decimal,
        desc: String,
    ) -> Result<Response, StdError> {
        *self.execs.borrow_mut() += 1;
        self.data.borrow_mut().insert(addr, QueryResponse { coef, desc });
        Ok(Response::new())
    }

    fn no_args_query(&self, _: Query) -> Result<EmptyQueryResponse, StdError> {
        *self.queries.borrow_mut() += 1;
        Ok(EmptyQueryResponse {})
    }

    fn argumented_query(&self, _: Query, user: Addr) -> Result<QueryResponse, StdError> {
        *self.queries.borrow_mut() += 1;
        Ok(self.data.borrow().get(&user).unwrap().clone())
    }
}

/// The value of a field of a message.
#[derive(Clone, Debug)]
enum Field {
    Addr(Addr),
    Decimal(Decimal),
    Text(String),
}

/// The context that the host hands to a dispatch.
enum Ctx<'a> {
    Exec((DepsMut<'a>, Env, MessageInfo)),
    Query((Deps<'a>, Env)),
}

/// What a dispatch gives back: the response of an execution, or the answer
/// of a query in its binary envelope.
#[derive(Debug, PartialEq)]
enum Answer {
    Response(Response),
    Binary(Binary),
}

/// A message of the interface: the tag of its variant and its fields by name.
struct Message {
    tag: &'static str,
    fields: Vec<(&'static str, Field)>,
}

/// Makes the call that a dispatch names: the handler gets the context,
/// turned into the one it expects, and the fields in the order given; what a
/// query answers goes into the binary envelope.
#[allow(deprecated)]
fn call(contract: &Contract, call: &Invocation, args: Vec<Field>, ctx: Ctx) -> Result<Answer, StdError> {
    let mut args = args.into_iter();
    match (call.function_name.as_str(), call.kind, ctx) {
        ("no_args_execution", LegKind::Exec, Ctx::Exec(ctx)) => {
            contract.no_args_execution(Into::into(ctx)).map(Answer::Response)
        },
        ("argumented_execution", LegKind::Exec, Ctx::Exec(ctx)) => {
            match (args.next(), args.next(), args.next()) {
                (Some(Field::Addr(addr)), Some(Field::Decimal(coef)), Some(Field::Text(desc))) => contract
                    .argumented_execution(Into::into(ctx), addr, coef, desc)
                    .map(Answer::Response),
                other => panic!("wrong arguments: {other:?}"),
            }
        },
        ("no_args_query", LegKind::Query, Ctx::Query(ctx)) => {
            to_binary(&contract.no_args_query(Into::into(ctx))?.wire()).map(Answer::Binary)
        },
        ("argumented_query", LegKind::Query, Ctx::Query(ctx)) => match args.next() {
            Some(Field::Addr(user)) => {
                to_binary(&contract.argumented_query(Into::into(ctx), user)?.wire()).map(Answer::Binary)
            },
            other => panic!("wrong arguments: {other:?}"),
        },
        (other, kind, _) => panic!("no handler named {other} for {kind:?} with this context"),
    }
}

/// Dispatches a message of a set as the set's enum does: by the variant of
/// the message.
fn dispatch_on(set: &EnumMessage, message: Message, contract: &Contract, ctx: Ctx) -> Result<Answer, StdError> {
    let variant = set.variants.iter().position(|variant| variant.name == message.tag).unwrap();
    let leg = set.dispatch(variant).unwrap();
    assert!(!leg.narrow_ctx && !leg.into_response);
    let args = leg
        .fields
        .iter()
        .map(|name| message.fields.iter().find(|(field, _)| *field == name.as_str()).unwrap().1.clone())
        .collect();
    call(contract, &leg, args, ctx)
}

/// The answer of a query out of its binary envelope.
#[allow(deprecated)]
fn answer(resp: Answer) -> Binary {
    match resp {
        Answer::Binary(binary) => binary,
        Answer::Response(response) => panic!("no answer of a query: {response:?}"),
    }
}

#[test]
#[allow(deprecated)]
fn dispatch() {
    let contract = Contract::default();
    let source = interface();
    let custom = Custom { msg: None, query: None };
    let exec_name = "ExecMsg".to_string();
    let query_name = "QueryMsg".to_string();
    let exec_msg = EnumMessage::new(&exec_name, &source, MsgType::Exec, &source.generics.params, &custom).unwrap();
    let query_msg = EnumMessage::new(&query_name, &source, MsgType::Query, &source.generics.params, &custom).unwrap();

    let mut deps = mock_dependencies();
    let env = mock_env();
    let info = mock_info("owner", &[]);

    let resp = dispatch_on(
        &exec_msg,
        Message { tag: "NoArgsExecution", fields: vec![] },
        &contract,
        Ctx::Exec((deps.as_mut(), env.clone(), info.clone())),
    )
    .unwrap();
    assert_eq!(resp, Answer::Response(Response::new()));

    let resp = dispatch_on(
        &exec_msg,
        Message {
            tag: "ArgumentedExecution",
            fields: vec![
                ("addr", Field::Addr(Addr::unchecked("addr1"))),
                ("coef", Field::Decimal(Decimal::percent(30))),
                ("desc", Field::Text("True".to_owned())),
            ],
        },
        &contract,
        Ctx::Exec((deps.as_mut(), env.clone(), info.clone())),
    )
    .unwrap();
    assert_eq!(resp, Answer::Response(Response::new()));

    let resp = dispatch_on(
        &exec_msg,
        Message {
            tag: "ArgumentedExecution",
            fields: vec![
                ("addr", Field::Addr(Addr::unchecked("addr2"))),
                ("coef", Field::Decimal(Decimal::percent(70))),
                ("desc", Field::Text("False".to_owned())),
            ],
        },
        &contract,
        Ctx::Exec((deps.as_mut(), env.clone(), info)),
    )
    .unwrap();
    assert_eq!(resp, Answer::Response(Response::new()));

    let resp = dispatch_on(
        &query_msg,
        Message { tag: "NoArgsQuery", fields: vec![] },
        &contract,
        Ctx::Query((deps.as_ref(), env.clone())),
    )
    .unwrap();
    let _resp: EmptyQueryResponse = EmptyQueryResponse::from_wire(from_binary(&answer(resp)).unwrap());

    let resp = dispatch_on(
        &query_msg,
        Message { tag: "ArgumentedQuery", fields: vec![("user", Field::Addr(Addr::unchecked("addr2")))] },
        &contract,
        Ctx::Query((deps.as_ref(), env)),
    )
    .unwrap();
    let resp: QueryResponse = QueryResponse::from_wire(from_binary(&answer(resp)).unwrap());
    assert_eq!(
        resp,
        QueryResponse {
            coef: Decimal::percent(70),
            desc: "False".to_owned()
        }
    );

    assert_eq!(*contract.execs.borrow(), 3);
    assert_eq!(*contract.queries.borrow(), 2);
}

#[test]
#[allow(deprecated)]
fn a_query_answers_in_the_binary_envelope() {
    let stored = QueryResponse { coef: Decimal::percent(70), desc: "False".to_owned() };
    let binary = to_binary(&stored.wire()).unwrap();
    assert_eq!(binary.as_slice(), br#"{"coef":"0.7","desc":"False"}"#);
    assert_eq!(QueryResponse::from_wire(from_binary(&binary).unwrap()), stored);
    assert_eq!(to_binary(&EmptyQueryResponse {}.wire()).unwrap().as_slice(), b"{}");
}

/// Reads the fields that a call takes out of the payload's one entry.
fn arguments(call: &Invocation, text: &str) -> Vec<Field> {
    let value: serde_json::Value = serde_json::from_str(text).unwrap();
    let body = value.as_object().unwrap().values().next().unwrap();
    call.fields
        .iter()
        .map(|name| {
            let field = body.get(name.as_str()).unwrap().as_str().unwrap();
            match name.as_str() {
                "addr" | "user" => Field::Addr(Addr::unchecked(field)),
                "coef" => Field::Decimal(field.parse().unwrap()),
                _ => Field::Text(field.to_string()),
            }
        })
        .collect()
}

/// Decodes a payload with a glue message, dispatches it, and makes the call
/// that the dispatch names, with the context of the call's kind.
fn handle(glue: &Composite, text: &str, contract: &Contract) -> Result<Answer, String> {
    let message = glue.deserialize(&payload(text)).map_err(|e| e.message())?;
    let call_for = glue.dispatch(&message).unwrap();
    let mut deps = mock_dependencies();
    let ctx = match call_for.kind {
        LegKind::Exec => Ctx::Exec((deps.as_mut(), mock_env(), mock_info("owner", &[]))),
        LegKind::Query => Ctx::Query((deps.as_ref(), mock_env())),
    };
    call(contract, &call_for, arguments(&call_for, text), ctx).map_err(|e| e.to_string())
}

#[test]
#[allow(deprecated)]
fn a_contract_with_one_interface_dispatches_its_messages() {
    let source = interface();
    let custom = Custom { msg: None, query: None };
    let exec_name = "ExecMsg".to_string();
    let query_name = "QueryMsg".to_string();
    let execs = EnumMessage::new(&exec_name, &source, MsgType::Exec, &source.generics.params, &custom).unwrap();
    let queries = EnumMessage::new(&query_name, &source, MsgType::Query, &source.generics.params, &custom).unwrap();
    let module = "interface".to_string();
    let variant = "Interface".to_string();
    let interfaces = Interfaces {
        interfaces: vec![ContractMessageAttr {
            module: &module,
            variant: &variant,
            customs: Customs { has_msg: false, has_query: false },
        }],
    };
    let contract_impl = impl_of(vec![method(
        MsgAttr::Instantiate { name: "InstantiateMsg".to_string() },
        sig("instanciate", "ExecCtx", Vec::new(), result_of("Response")),
    )]);
    let error = ty("StdError", &["StdError"]);
    let own_execs = ContractEnumMessage::new(&exec_name, &contract_impl, MsgType::Exec, &contract_impl.generics.params, &error, &custom).unwrap();
    let own_queries = ContractEnumMessage::new(&query_name, &contract_impl, MsgType::Query, &contract_impl.generics.params, &error, &custom).unwrap();
    assert!(own_execs.variants.is_empty() && own_queries.variants.is_empty());
    let exec_glue = GlueMessage::new(&exec_name, &contract_impl, MsgType::Exec, &error, &custom, &interfaces);
    let query_glue = GlueMessage::new(&query_name, &contract_impl, MsgType::Query, &error, &custom, &interfaces);
    let exec_glue = exec_glue.compose(vec![&execs], &own_execs).unwrap();
    let query_glue = query_glue.compose(vec![&queries], &own_queries).unwrap();

    let contract = Contract::default();
    let resp = handle(&exec_glue, r#"{"no_args_execution": {}}"#, &contract).unwrap();
    assert_eq!(resp, Answer::Response(Response::default()));
    assert_eq!(*contract.execs.borrow(), 1);

    let resp = handle(
        &exec_glue,
        r#"{"argumented_execution": {"addr": "addr2", "coef": "0.7", "desc": "False"}}"#,
        &contract,
    )
    .unwrap();
    assert_eq!(resp, Answer::Response(Response::default()));
    assert_eq!(*contract.execs.borrow(), 2);

    let resp = handle(&query_glue, r#"{"argumented_query": {"user": "addr2"}}"#, &contract).unwrap();
    let resp = QueryResponse::from_wire(from_binary(&answer(resp)).unwrap());
    assert_eq!(resp, QueryResponse { coef: Decimal::percent(70), desc: "False".to_owned() });
    assert_eq!(*contract.queries.borrow(), 1);

    // an execution is no query, and a query no execution
    assert!(handle(&query_glue, r#"{"no_args_execution": {}}"#, &contract).is_err());
    assert!(handle(&exec_glue, r#"{"argumented_query": {"user": "addr2"}}"#, &contract).is_err());
    assert_eq!(*contract.execs.borrow(), 2);
    assert_eq!(*contract.queries.borrow(), 1);
}

struct Fixture {
    name: String,
    error: Type,
    custom: Custom,
    modules: Vec<String>,
    variants: Vec<String>,
    traits: Vec<ItemTrait>,
    contract: ItemImpl,
}

fn fixture(interfaces: Vec<(&str, Vec<&str>)>, own: Vec<&str>) -> Fixture {
    Fixture {
        name: "ExecMsg".to_string(),
        error: ty("ContractError", &["ContractError"]),
        custom: Custom { msg: None, query: None },
        modules: interfaces.iter().map(|(name, _)| name.to_lowercase()).collect(),
        variants: interfaces.iter().map(|(name, _)| name.to_string()).collect(),
        traits: interfaces
            .iter()
            .map(|(name, methods)| trait_of(name, methods.iter().map(|m| exec(m, vec![arg("by", ty("u8", &["u8"]))])).collect()))
            .collect(),
        contract: impl_of(own.iter().map(|m| exec(m, Vec::new())).collect()),
    }
}

/// The message sets of the fixture's interfaces, for a category.
fn sets(fixture: &Fixture, category: MsgType) -> Vec<EnumMessage<'_>> {
    fixture
        .traits
        .iter()
        .map(|source| EnumMessage::new(&fixture.name, source, category, &source.generics.params, &fixture.custom).unwrap())
        .collect()
}

/// The message set of the fixture's contract, for a category.
fn own(fixture: &Fixture, category: MsgType) -> ContractEnumMessage<'_> {
    ContractEnumMessage::new(
        &fixture.name,
        &fixture.contract,
        category,
        &fixture.contract.generics.params,
        &fixture.error,
        &fixture.custom,
    )
    .unwrap()
}

fn attach(fixture: &Fixture, customs: Customs) -> Interfaces<'_> {
    Interfaces {
        interfaces: (0..fixture.modules.len())
            .map(|k| ContractMessageAttr { module: &fixture.modules[k], variant: &fixture.variants[k], customs })
            .collect(),
    }
}

fn glue<'a>(fixture: &'a Fixture, category: MsgType, interfaces: &'a Interfaces<'a>) -> GlueMessage<'a> {
    GlueMessage::new(&fixture.name, &fixture.contract, category, &fixture.error, &fixture.custom, interfaces)
}

fn plain() -> Customs {
    Customs { has_msg: false, has_query: false }
}

fn single(key: &str) -> Payload {
    Payload { shape: Shape::Object(vec![Key::Text(key.to_string())]), text: format!("{{\"{key}\":{{}}}}") }
}

#[test]
fn the_glue_message_declares_an_arm_for_each_interface() {
    let fixture = fixture(vec![("Cw1", vec!["freeze", "execute"]), ("Whitelist", vec!["remove_admin", "add_admin"])], vec![
        "withdraw", "deposit",
    ]);
    let interfaces = attach(&fixture, plain());
    assert_eq!(interfaces.interfaces().len(), 2);
    let glue = glue(&fixture, MsgType::Exec, &interfaces);
    let decl = glue.emit();
    assert_eq!(decl.contract_name, "ContractExecMsg");
    assert_eq!(decl.name, "ExecMsg");
    assert_eq!(decl.contract, "Contract");
    assert!(!decl.response_schemas);
    let arms: Vec<(&str, &str)> = decl.variants.iter().map(|v| (v.variant.as_str(), v.module.as_str())).collect();
    assert_eq!(arms, vec![("Cw1", "cw1"), ("Whitelist", "whitelist")]);
    let legs: Vec<&str> = decl.dispatch_arms.iter().map(|arm| arm.variant.as_str()).collect();
    assert_eq!(legs, vec!["Cw1", "Whitelist"]);
    assert!(decl.dispatch_arms.iter().all(|arm| !arm.narrow_ctx && !arm.into_response));
    assert_eq!(decl.ctx_type.shape, CtxShape::DepsMutEnvInfo);
    assert!(matches!(decl.ret_type, DispatchType::Response { msg: Extension::Empty, error: ErrorType::Named(e) } if e.text == "ContractError"));
}

#[test]
fn the_glue_message_of_queries_gathers_response_schemas() {
    let mut fixture = fixture(vec![("Cw1", vec!["execute"])], vec!["deposit"]);
    fixture.name = "QueryMsg".to_string();
    let interfaces = attach(&fixture, plain());
    let glue = glue(&fixture, MsgType::Query, &interfaces);
    let decl = glue.emit();
    assert_eq!(decl.contract_name, "ContractQueryMsg");
    assert!(decl.response_schemas);
    assert_eq!(decl.ctx_type.shape, CtxShape::DepsEnv);
    assert!(matches!(decl.ret_type, DispatchType::Binary { .. }));
    // the interface and the contract declare executions only
    let sets = sets(&fixture, MsgType::Query);
    let own = own(&fixture, MsgType::Query);
    let composite = glue.compose(sets.iter().collect(), &own).unwrap();
    assert_eq!(composite.messages(), vec![Vec::<String>::new(), Vec::<String>::new()]);
}

#[test]
fn the_composite_lists_the_names_of_each_arm() {
    let fixture = fixture(vec![("Cw1", vec!["freeze", "execute"]), ("Whitelist", vec!["remove_admin", "add_admin"])], vec![
        "withdraw", "deposit",
    ]);
    let interfaces = attach(&fixture, plain());
    let glue = glue(&fixture, MsgType::Exec, &interfaces);
    let sets = sets(&fixture, MsgType::Exec);
    let own = own(&fixture, MsgType::Exec);
    let composite = glue.compose(sets.iter().collect(), &own).unwrap();
    assert_eq!(
        composite.messages(),
        vec![vec!["execute", "freeze"], vec!["add_admin", "remove_admin"], vec!["deposit", "withdraw"]]
    );
    assert!(std::ptr::eq(composite.message, &glue));
    assert_eq!(composite.interfaces.len(), 2);
}

#[test]
fn a_name_claimed_by_two_interfaces_fails_the_build() {
    let fixture = fixture(
        vec![("Cw1", vec!["execute", "freeze"]), ("Other", vec!["thaw"]), ("Cw20", vec!["burn", "freeze"])],
        vec!["deposit"],
    );
    let interfaces = attach(&fixture, plain());
    let glue = glue(&fixture, MsgType::Exec, &interfaces);
    let sets = sets(&fixture, MsgType::Exec);
    let own = own(&fixture, MsgType::Exec);
    match glue.compose(sets.iter().collect(), &own) {
        Err(error) => {
            assert!(matches!(&error, BuildError::Collision { name } if name == "freeze"));
            assert!(error.message().contains("freeze"));
        },
        other => panic!("unexpected: {other:?}"),
    }
}

#[test]
fn a_name_claimed_by_interface_and_contract_fails_the_build() {
    let fixture = fixture(vec![("Cw1", vec!["execute", "freeze"])], vec!["deposit", "execute"]);
    let interfaces = attach(&fixture, plain());
    let glue = glue(&fixture, MsgType::Exec, &interfaces);
    let sets = sets(&fixture, MsgType::Exec);
    let own = own(&fixture, MsgType::Exec);
    match glue.compose(sets.iter().collect(), &own) {
        Err(BuildError::Collision { name }) => assert_eq!(name, "execute"),
        other => panic!("unexpected: {other:?}"),
    }
}

#[test]
fn one_interface_attached_twice_collides_with_itself() {
    let mut fixture = fixture(vec![("Cw1", vec!["execute"]), ("Cw1", vec!["execute"])], vec![]);
    fixture.variants[1] = "Cw1Again".to_string();
    let interfaces = attach(&fixture, plain());
    let glue = glue(&fixture, MsgType::Exec, &interfaces);
    let sets = sets(&fixture, MsgType::Exec);
    let own = own(&fixture, MsgType::Exec);
    assert!(matches!(glue.compose(sets.iter().collect(), &own), Err(BuildError::Collision { name }) if name == "execute"));
}

#[test]
fn each_attached_interface_needs_its_message_set() {
    let fixture = fixture(vec![("Cw1", vec!["execute"]), ("Cw20", vec!["burn"])], vec!["deposit"]);
    let interfaces = attach(&fixture, plain());
    let glue = glue(&fixture, MsgType::Exec, &interfaces);
    let sets = sets(&fixture, MsgType::Exec);
    let own = own(&fixture, MsgType::Exec);
    match glue.compose(vec![&sets[0]], &own) {
        Err(error) => {
            assert!(matches!(error, BuildError::Attached { declared: 2, given: 1 }));
            assert_eq!(error.message(), "Message sets given for 1 interfaces, attached are 2");
        },
        other => panic!("unexpected: {other:?}"),
    }
    assert!(matches!(
        glue.compose(vec![&sets[0], &sets[1], &sets[0]], &own),
        Err(BuildError::Attached { declared: 2, given: 3 })
    ));
    assert!(glue.compose(vec![&sets[0], &sets[1]], &own).is_ok());
}

#[test]
fn every_message_decodes_to_itself() {
    let fixture = fixture(
        vec![("Cw1", vec!["freeze", "execute"]), ("Whitelist", vec!["remove_admin", "add_admin", "admins"])],
        vec!["withdraw", "deposit"],
    );
    let interfaces = attach(&fixture, plain());
    let glue = glue(&fixture, MsgType::Exec, &interfaces);
    let sets = sets(&fixture, MsgType::Exec);
    let own = own(&fixture, MsgType::Exec);
    let composite = glue.compose(sets.iter().collect(), &own).unwrap();
    let handlers = [vec!["freeze", "execute"], vec!["remove_admin", "add_admin", "admins"], vec!["withdraw", "deposit"]];
    for (arm, names) in handlers.iter().enumerate() {
        for (variant, name) in names.iter().enumerate() {
            let message = GlueMsg { arm, variant };
            let key = composite.key_of(&message).unwrap();
            assert_eq!(key, *name);
            assert_eq!(composite.deserialize(&single(&key)).unwrap(), message);
            let call = composite.dispatch(&message).unwrap();
            assert_eq!(call.function_name, name);
            assert_eq!(call.kind, LegKind::Exec);
            assert_eq!(call.fields.len(), if arm < 2 { 1 } else { 0 });
        }
    }
    assert!(composite.key_of(&GlueMsg { arm: 3, variant: 0 }).is_none());
    assert!(composite.key_of(&GlueMsg { arm: 0, variant: 2 }).is_none());
    assert!(composite.dispatch(&GlueMsg { arm: 3, variant: 0 }).is_none());
    assert!(composite.dispatch(&GlueMsg { arm: 2, variant: 2 }).is_none());
}

#[test]
fn a_shared_name_goes_to_the_arm_that_is_tried_first() {
    let fixture = fixture(
        vec![("First", vec!["only_first", "shared"]), ("Second", vec!["shared", "only_second"])],
        vec!["own", "shared"],
    );
    let interfaces = attach(&fixture, plain());
    let glue = glue(&fixture, MsgType::Exec, &interfaces);
    let sets = sets(&fixture, MsgType::Exec);
    let own = own(&fixture, MsgType::Exec);
    assert!(glue.compose(sets.iter().collect(), &own).is_err());
    let composite = Composite { message: &glue, interfaces: sets.iter().collect(), own: &own };
    assert_eq!(composite.deserialize(&single("shared")).unwrap(), GlueMsg { arm: 0, variant: 1 });
    assert_eq!(composite.deserialize(&single("only_second")).unwrap(), GlueMsg { arm: 1, variant: 1 });
    assert_eq!(composite.deserialize(&single("own")).unwrap(), GlueMsg { arm: 2, variant: 0 });

    // the same sets in the other order
    let swapped = Composite { message: &glue, interfaces: vec![&sets[1], &sets[0]], own: &own };
    assert_eq!(swapped.deserialize(&single("shared")).unwrap(), GlueMsg { arm: 0, variant: 0 });
    assert_eq!(swapped.deserialize(&single("only_first")).unwrap(), GlueMsg { arm: 1, variant: 0 });
    let call = swapped.dispatch(&GlueMsg { arm: 0, variant: 0 }).unwrap();
    assert_eq!(call.function_name, "shared");
    assert_eq!(call.fields.len(), 1);
}

#[test]
fn the_contract_is_tried_after_every_interface() {
    let fixture = fixture(vec![("First", vec!["a"]), ("Second", vec!["shared"])], vec!["shared"]);
    let interfaces = attach(&fixture, plain());
    let glue = glue(&fixture, MsgType::Exec, &interfaces);
    let sets = sets(&fixture, MsgType::Exec);
    let own = own(&fixture, MsgType::Exec);
    let composite = Composite { message: &glue, interfaces: sets.iter().collect(), own: &own };
    assert_eq!(composite.deserialize(&single("shared")).unwrap(), GlueMsg { arm: 1, variant: 0 });
}

#[test]
fn a_payload_must_have_exactly_one_key() {
    let fixture = fixture(vec![("Cw1", vec!["execute"])], vec!["deposit"]);
    let interfaces = attach(&fixture, plain());
    let glue = glue(&fixture, MsgType::Exec, &interfaces);
    let sets = sets(&fixture, MsgType::Exec);
    let own = own(&fixture, MsgType::Exec);
    let composite = glue.compose(sets.iter().collect(), &own).unwrap();
    match composite.deserialize(&payload(r#"{"execute": {}, "deposit": {}}"#)) {
        Err(error) => {
            assert!(matches!(error, DecodeError::KeyCount { found: 2 }));
            assert_eq!(error.message(), "Expected exactly one message. Received 2");
            assert!(error.message().contains("2"));
        },
        other => panic!("unexpected: {other:?}"),
    }
    match composite.deserialize(&payload("{}")) {
        Err(error) => {
            assert!(matches!(error, DecodeError::KeyCount { found: 0 }));
            assert_eq!(error.message(), "Expected exactly one message. Received 0");
        },
        other => panic!("unexpected: {other:?}"),
    }
    let many: Vec<String> = (0..13).map(|k| format!("\"k{k}\": {{}}")).collect();
    match composite.deserialize(&payload(&format!("{{{}}}", many.join(", ")))) {
        Err(error) => assert_eq!(error.message(), "Expected exactly one message. Received 13"),
        other => panic!("unexpected: {other:?}"),
    }
}

#[test]
fn a_payload_must_be_a_map() {
    let fixture = fixture(vec![("Cw1", vec!["execute"])], vec!["deposit"]);
    let interfaces = attach(&fixture, plain());
    let glue = glue(&fixture, MsgType::Exec, &interfaces);
    let sets = sets(&fixture, MsgType::Exec);
    let own = own(&fixture, MsgType::Exec);
    let composite = glue.compose(sets.iter().collect(), &own).unwrap();
    for text in ["\"execute\"", "[\"execute\"]", "1", "null"] {
        match composite.deserialize(&payload(text)) {
            Err(error) => {
                assert!(matches!(error, DecodeError::WrongFormat));
                assert_eq!(error.message(), "Wrong message format!");
            },
            other => panic!("unexpected: {other:?}"),
        }
    }
}

#[test]
fn an_unknown_name_is_answered_with_every_known_name() {
    let fixture = fixture(
        vec![("Cw1", vec!["freeze", "execute"]), ("Whitelist", vec!["remove_admin", "add_admin"])],
        vec!["withdraw", "deposit"],
    );
    let interfaces = attach(&fixture, plain());
    let glue = glue(&fixture, MsgType::Exec, &interfaces);
    let sets = sets(&fixture, MsgType::Exec);
    let own = own(&fixture, MsgType::Exec);
    let composite = glue.compose(sets.iter().collect(), &own).unwrap();
    match composite.deserialize(&payload(r#"{"unknown": {"by": 1}}"#)) {
        Err(error) => {
            match &error {
                DecodeError::Unsupported { received, supported } => {
                    assert_eq!(received, r#"{"unknown":{"by":1}}"#);
                    assert_eq!(supported, &vec!["add_admin", "deposit", "execute", "freeze", "remove_admin", "withdraw"]);
                },
                other => panic!("unexpected: {other:?}"),
            }
            let message = error.message();
            assert_eq!(
                message,
                "Unsupported message received: {\"unknown\":{\"by\":1}}. Messages supported by this contract: add_admin, deposit, execute, freeze, remove_admin, withdraw"
            );
            for name in ["freeze", "execute", "remove_admin", "add_admin", "withdraw", "deposit"] {
                assert!(message.contains(name));
            }
        },
        other => panic!("unexpected: {other:?}"),
    }
}

#[test]
fn a_key_that_is_no_text_is_unsupported() {
    let fixture = fixture(vec![("Cw1", vec!["execute"])], vec![]);
    let interfaces = attach(&fixture, plain());
    let glue = glue(&fixture, MsgType::Exec, &interfaces);
    let sets = sets(&fixture, MsgType::Exec);
    let own = own(&fixture, MsgType::Exec);
    let composite = glue.compose(sets.iter().collect(), &own).unwrap();
    let odd = Payload { shape: Shape::Object(vec![Key::Other]), text: "{1:{}}".to_string() };
    match composite.deserialize(&odd) {
        Err(error) => assert_eq!(
            error.message(),
            "Unsupported message received: {1:{}}. Messages supported by this contract: execute"
        ),
        other => panic!("unexpected: {other:?}"),
    }
}

#[test]
fn a_contract_without_messages_supports_none() {
    let fixture = fixture(vec![], vec![]);
    let interfaces = attach(&fixture, plain());
    let glue = glue(&fixture, MsgType::Exec, &interfaces);
    let own = own(&fixture, MsgType::Exec);
    let composite = glue.compose(Vec::new(), &own).unwrap();
    assert_eq!(composite.messages(), vec![Vec::<String>::new()]);
    match composite.deserialize(&single("anything")) {
        Err(error) => assert_eq!(
            error.message(),
            "Unsupported message received: {\"anything\":{}}. Messages supported by this contract"
        ),
        other => panic!("unexpected: {other:?}"),
    }
}

#[test]
fn customs_apply_to_executions_and_queries() {
    let both = Customs { has_msg: true, has_query: true };
    let none = plain();
    for (category, narrows, converts) in [
        (MsgType::Exec, true, true),
        (MsgType::Query, true, false),
        (MsgType::Instantiate, false, false),
        (MsgType::Migrate, false, false),
        (MsgType::Reply, false, false),
        (MsgType::Sudo, false, false),
    ] {
        assert_eq!(both.narrows(category), narrows);
        assert_eq!(both.converts(category), converts);
        assert!(!none.narrows(category));
        assert!(!none.converts(category));
    }
    assert!(Customs { has_msg: false, has_query: true }.narrows(MsgType::Exec));
    assert!(!Customs { has_msg: false, has_query: true }.converts(MsgType::Exec));
    assert!(!Customs { has_msg: true, has_query: false }.narrows(MsgType::Exec));
}

#[test]
fn the_context_is_narrowed_where_the_interface_says_so() {
    let fixture = fixture(vec![("Cw1", vec!["execute"])], vec!["deposit"]);
    let both = Customs { has_msg: true, has_query: true };
    let interfaces = attach(&fixture, both);
    let glue = glue(&fixture, MsgType::Exec, &interfaces);
    let sets = sets(&fixture, MsgType::Exec);
    let own = own(&fixture, MsgType::Exec);
    let composite = glue.compose(sets.iter().collect(), &own).unwrap();
    let call = composite.dispatch(&GlueMsg { arm: 0, variant: 0 }).unwrap();
    assert!(call.narrow_ctx && call.into_response);
    let own_call = composite.dispatch(&GlueMsg { arm: 1, variant: 0 }).unwrap();
    assert!(!own_call.narrow_ctx && !own_call.into_response);
    let decl = glue.emit();
    assert!(decl.dispatch_arms[0].narrow_ctx && decl.dispatch_arms[0].into_response);

    let queries = self::glue(&fixture, MsgType::Query, &interfaces);
    let decl = queries.emit();
    assert!(decl.dispatch_arms[0].narrow_ctx && !decl.dispatch_arms[0].into_response);

    // an interface declares no privileged operations, so it has no arm there
    let sudo = self::glue(&fixture, MsgType::Sudo, &interfaces);
    assert_eq!(sudo.arm_count(), 0);
    let decl = sudo.emit();
    assert!(decl.variants.is_empty() && decl.dispatch_arms.is_empty());
    assert!(matches!(
        sudo.compose(sets.iter().collect(), &own),
        Err(BuildError::Attached { declared: 0, given: 1 })
    ));
}

#[test]
fn privileged_operations_are_dispatched_to_the_contract_alone() {
    let mut fixture = fixture(vec![("Cw1", vec!["execute"])], vec![]);
    fixture.name = "SudoMsg".to_string();
    fixture.contract = impl_of(vec![
        method(MsgAttr::Sudo, sig("halt", "SudoCtx", vec![arg("reason", ty("String", &["String"]))], result_of("Response"))),
        exec("deposit", Vec::new()),
    ]);
    let interfaces = attach(&fixture, Customs { has_msg: true, has_query: true });
    let glue = glue(&fixture, MsgType::Sudo, &interfaces);
    let own = own(&fixture, MsgType::Sudo);
    let composite = glue.compose(Vec::new(), &own).unwrap();
    assert_eq!(composite.messages(), vec![vec!["halt".to_string()]]);
    let message = composite.deserialize(&single("halt")).unwrap();
    assert_eq!(message, GlueMsg { arm: 0, variant: 0 });
    let call = composite.dispatch(&message).unwrap();
    assert_eq!(call.function_name, "halt");
    assert_eq!(call.fields.iter().map(|f| f.as_str()).collect::<Vec<_>>(), vec!["reason"]);
    assert_eq!(call.kind, LegKind::Exec);
    assert!(!call.narrow_ctx && !call.into_response);
    assert!(composite.deserialize(&single("deposit")).is_err());
    let decl = glue.emit();
    assert_eq!(decl.contract_name, "ContractSudoMsg");
    assert_eq!(decl.ctx_type.shape, CtxShape::DepsMutEnv);
    assert!(decl.variants.is_empty());
    assert_eq!(glue.arm_count(), 0);
}

#[test]
fn what_the_claiming_set_reports_is_final() {
    assert!(matches!(settle::<u8>(Ok(7)), Ok(7)));
    match settle::<u8>(Err("missing field `user`".to_string())) {
        Err(error) => {
            assert!(matches!(&error, DecodeError::Nested { reason } if reason == "missing field `user`"));
            assert_eq!(error.message(), "missing field `user`");
        },
        other => panic!("unexpected: {other:?}"),
    }
}

#[test]
fn contexts_are_made_of_what_the_host_hands_over() {
    let exec: ExecCtx<&str, u64, bool> = ("deps", 7, true).into();
    assert_eq!((exec.deps, exec.env, exec.info), ("deps", 7, true));
    let instantiate: InstantiateCtx<&str, u64, bool> = ("deps", 8, false).into();
    assert_eq!((instantiate.deps, instantiate.env, instantiate.info), ("deps", 8, false));
    let migrate: MigrateCtx<&str, u64> = ("deps", 9).into();
    assert_eq!((migrate.deps, migrate.env), ("deps", 9));
    let query = QueryCtx::from(("deps", 10));
    assert_eq!((query.deps, query.env), ("deps", 10));
}
