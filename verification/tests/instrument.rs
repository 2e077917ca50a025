use checkpoint_ts::instrument::{
    is_typescript, operand_contexts, plan_call, wrapper_method, AsyncCollector, BinaryKind, Callee, ExprContext,
    Initializer, MemberChain, MemberObject, MemberProperty,
};

fn member(obj: MemberObject, prop: &str) -> MemberChain {
    MemberChain { obj, prop: MemberProperty::Ident(prop.to_string()) }
}

#[test]
fn collector_gathers_async_names_once() {
    let mut c = AsyncCollector::new();
    c.record_function(Some("fetchData"), true);
    c.record_function(Some("plain"), false);
    c.record_function(None, true);
    c.record_declarator(Some("load"), Initializer::AsyncArrow);
    c.record_declarator(Some("sync"), Initializer::Other);
    c.record_function(Some("fetchData"), true);
    assert!(c.contains("fetchData"));
    assert!(c.contains("load"));
    assert!(!c.contains("plain"));
    assert!(!c.contains("sync"));
}

#[test]
fn plain_calls_are_wrapped() {
    let mut c = AsyncCollector::new();
    c.record_function(Some("fetchData"), true);
    let p = plan_call(&Callee::Ident("fetchData".to_string()), true, &c).unwrap();
    assert_eq!(p.name, "fetchData");
    assert!(p.is_async);
    assert!(!p.with_context);
    assert_eq!(wrapper_method(p.is_async), "executeAsync");
    let q = plan_call(&Callee::Ident("other".to_string()), true, &c).unwrap();
    assert!(!q.is_async);
    assert_eq!(wrapper_method(q.is_async), "execute");
    assert!(plan_call(&Callee::Ident("other".to_string()), false, &c).is_none());
}

#[test]
fn method_calls_carry_their_object() {
    let c = AsyncCollector::new();
    let m = member(MemberObject::Member(Box::new(member(MemberObject::This, "db"))), "query");
    assert_eq!(m.member_name(), "this.db.query");
    let p = plan_call(&Callee::Member(m), true, &c).unwrap();
    assert_eq!(p.name, "this.db.query");
    assert!(p.with_context);
}

#[test]
fn chains_and_curried_calls_are_left_alone() {
    let c = AsyncCollector::new();
    let chained = member(MemberObject::Call, "bar");
    assert!(chained.is_method_chaining());
    assert!(plan_call(&Callee::Member(chained), true, &c).is_none());
    let constructed = member(MemberObject::New, "bar");
    assert!(constructed.is_method_chaining());
    assert!(constructed.should_skip_transformation());
    assert!(plan_call(&Callee::Member(constructed), true, &c).is_none());
    let nested = member(MemberObject::Member(Box::new(member(MemberObject::New, "a"))), "b");
    assert!(nested.is_method_chaining());
    let runtime = member(MemberObject::Ident("__checkpoint__".to_string()), "execute");
    assert!(runtime.is_checkpoint_reference());
    assert!(plan_call(&Callee::Member(runtime), true, &c).is_none());
    let computed = MemberChain { obj: MemberObject::Ident("a".to_string()), prop: MemberProperty::Computed };
    assert!(computed.should_skip_transformation());
    assert_eq!(computed.member_name(), "a.computed");
    assert!(plan_call(&Callee::Other, true, &c).is_none());
}

#[test]
fn unknown_parts_are_named_unknown() {
    let m = MemberChain { obj: MemberObject::Other, prop: MemberProperty::Other };
    assert_eq!(m.member_name(), "unknown.unknown");
}

#[test]
fn operand_contexts_by_operator() {
    assert_eq!(operand_contexts(BinaryKind::LogicalAnd), (ExprContext::LogicalAndLeft, ExprContext::LogicalAndRight));
    assert_eq!(operand_contexts(BinaryKind::NullishCoalescing), (ExprContext::NullishLeft, ExprContext::NullishRight));
    assert_eq!(operand_contexts(BinaryKind::Other), (ExprContext::BinaryLeft, ExprContext::BinaryRight));
}

#[test]
fn typescript_by_extension() {
    assert!(is_typescript("src/a.ts"));
    assert!(is_typescript("b.tsx"));
    assert!(!is_typescript("c.js"));
    assert!(!is_typescript("ts"));
    assert!(!is_typescript(""));
}
