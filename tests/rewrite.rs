use chiselc::ast::{copy_expr, ArrowBody, BinOp, Callee, Expr, Lit, MemberProp, Module, ModuleItem, Pat, Prop, Span, Stmt, VarDeclarator, VarKind};
use chiselc::codegen::{encode_query, Method};
use chiselc::query::{FilterProperty, QExpr, QOp, Target};
use chiselc::rewrite::{Construct, RewriteError, Rewriter, Symbols};
use std::collections::HashMap;

const SPAN: Span = Span { lo: 10, hi: 40 };

fn s(t: &str) -> String {
    t.to_string()
}

fn ident(n: &str) -> Expr {
    Expr::Ident(s(n))
}

fn num(t: &str) -> Expr {
    Expr::Lit(Lit::Num(s(t)))
}

fn string(t: &str) -> Expr {
    Expr::Lit(Lit::Str(s(t)))
}

fn member(obj: Expr, name: &str) -> Expr {
    Expr::Member { obj: Box::new(obj), prop: MemberProp::Ident(s(name)), optional: false }
}

fn bin(op: BinOp, l: Expr, r: Expr) -> Expr {
    Expr::Binary { op, left: Box::new(l), right: Box::new(r) }
}

fn arrow(param: &str, body: Expr) -> Expr {
    Expr::Arrow { params: vec![Pat::Ident(s(param))], body: ArrowBody::Expr(Box::new(body)) }
}

fn call_at(span: Span, callee: Expr, args: Vec<Expr>) -> Expr {
    Expr::Call { span, callee: Callee::Expr(Box::new(callee)), args }
}

fn method(recv: Expr, name: &str, args: Vec<Expr>) -> Expr {
    call_at(SPAN, member(recv, name), args)
}

fn obj(entries: Vec<(&str, Expr)>) -> Expr {
    Expr::Object(entries.into_iter().map(|(k, v)| Prop { key: s(k), value: v }).collect())
}

fn q_param() -> Expr {
    obj(vec![("exprType", string("Parameter")), ("position", num("0"))])
}

fn q_prop(o: Expr, p: &str) -> Expr {
    obj(vec![("exprType", string("Property")), ("object", o), ("property", string(p))])
}

fn q_lit(v: Expr) -> Expr {
    obj(vec![("exprType", string("Literal")), ("value", v)])
}

fn q_bin(l: Expr, op: &str, r: Expr) -> Expr {
    obj(vec![("exprType", string("Binary")), ("left", l), ("op", string(op)), ("right", r)])
}

fn module_of(e: Expr) -> Module {
    Module { body: vec![ModuleItem::Stmt(Stmt::Expr(e))] }
}

fn rewriter() -> Rewriter {
    Rewriter::new(Symbols::new(vec![s("Person")]))
}

fn rewrite_one(e: Expr) -> (Result<Module, RewriteError>, Vec<FilterProperty>) {
    let mut rw = rewriter();
    let r = rw.rewrite(module_of(e));
    (r, rw.indexes)
}

fn prop(field: &str, operator: QOp) -> FilterProperty {
    FilterProperty { field: s(field), operator }
}

#[test]
fn fully_pure_predicate() {
    let pred = arrow("x", bin(BinOp::Gt, member(ident("x"), "age"), num("18")));
    let (r, idx) = rewrite_one(method(ident("Person"), "filter", vec![pred]));
    let ir = q_bin(q_prop(q_param(), "age"), "Gt", q_lit(num("18")));
    let pred2 = arrow("x", bin(BinOp::Gt, member(ident("x"), "age"), num("18")));
    let expected = method(ident("Person"), "__filter", vec![ir, pred2]);
    assert_eq!(r.unwrap(), module_of(expected));
    assert_eq!(idx, vec![prop("age", QOp::Gt)]);
}

#[test]
fn conjunction_split() {
    let a_eq = || bin(BinOp::EqEq, member(ident("x"), "a"), num("1"));
    let starts = || method(member(ident("x"), "b"), "startsWith", vec![string("y")]);
    let pred = arrow("x", bin(BinOp::LogicalAnd, a_eq(), starts()));
    let (r, idx) = rewrite_one(method(ident("Person"), "filter", vec![pred]));
    let ir = q_bin(q_prop(q_param(), "a"), "Eq", q_lit(num("1")));
    let pure_call = method(ident("Person"), "__filter", vec![ir, arrow("x", a_eq())]);
    let expected = method(pure_call, "filter", vec![arrow("x", starts())]);
    assert_eq!(r.unwrap(), module_of(expected));
    assert_eq!(idx, vec![prop("a", QOp::Eq)]);
}

#[test]
fn fully_impure_predicate_is_left_alone() {
    let make = || method(ident("Person"), "filter", vec![arrow("x", call_at(SPAN, ident("sideEffect"), vec![ident("x")]))]);
    let (r, idx) = rewrite_one(make());
    assert_eq!(r.unwrap(), module_of(make()));
    assert!(idx.is_empty());
}

#[test]
fn computed_property_fails() {
    let computed = Expr::Member {
        obj: Box::new(ident("x")),
        prop: MemberProp::Computed(Box::new(ident("key"))),
        optional: false,
    };
    let span = Span { lo: 3, hi: 27 };
    let call = call_at(span, member(ident("Person"), "filter"), vec![arrow("x", bin(BinOp::EqEq, computed, num("1")))]);
    let (r, idx) = rewrite_one(call);
    assert_eq!(r, Err(RewriteError { construct: Construct::ComputedProperty, call_site: span, method: Method::Filter, receiver: ident("Person") }));
    assert!(idx.is_empty());
}

#[test]
fn parameter_is_never_an_identifier() {
    let q = QExpr::Binary {
        left: Box::new(QExpr::Identifier(s("x"))),
        op: QOp::Eq,
        right: Box::new(QExpr::Identifier(s("limit"))),
    };
    let e = encode_query(&q, &s("x"));
    let expected = q_bin(q_param(), "Eq", obj(vec![("exprType", string("Identifier")), ("ident", string("limit"))]));
    assert_eq!(e, expected);
}

#[test]
fn parameter_encoded_by_position() {
    let pred = arrow("p", bin(BinOp::LogicalOr, bin(BinOp::EqEqEq, member(ident("p"), "name"), string("a")), bin(BinOp::Lt, member(ident("p"), "age"), num("3"))));
    let (r, idx) = rewrite_one(method(ident("Person"), "filter", vec![pred]));
    let m = r.unwrap();
    let text = format!("{:?}", m);
    assert!(!text.contains("\"Identifier\""));
    assert!(text.contains("\"Parameter\""));
    assert_eq!(idx, vec![prop("name", QOp::Eq), prop("age", QOp::Lt)]);
}

#[test]
fn rewriting_twice_gives_the_same_records() {
    let make = || {
        let pred = arrow("x", bin(BinOp::LogicalAnd, bin(BinOp::GtEq, member(ident("x"), "age"), num("2")), bin(BinOp::NotEq, member(ident("x"), "name"), string("z"))));
        module_of(method(ident("Person"), "filter", vec![pred]))
    };
    let mut first = rewriter();
    let mut second = rewriter();
    let m1 = first.rewrite(make()).unwrap();
    let m2 = second.rewrite(make()).unwrap();
    assert_eq!(m1, m2);
    assert_eq!(first.indexes, second.indexes);
    assert_eq!(first.indexes, vec![prop("age", QOp::GtEq), prop("name", QOp::NotEq)]);
    let again = first.rewrite(make()).unwrap();
    assert_eq!(again, m1);
    assert_eq!(first.indexes.len(), 4);
}

#[test]
fn receiver_that_is_not_an_entity_is_left_alone() {
    let make = || method(ident("items"), "filter", vec![arrow("x", bin(BinOp::EqEq, member(ident("x"), "a"), num("1")))]);
    let (r, idx) = rewrite_one(make());
    assert_eq!(r.unwrap(), module_of(make()));
    assert!(idx.is_empty());
}

#[test]
fn two_parameter_closure_is_left_alone() {
    let make = || {
        let pred = Expr::Arrow {
            params: vec![Pat::Ident(s("x")), Pat::Ident(s("i"))],
            body: ArrowBody::Expr(Box::new(bin(BinOp::EqEq, member(ident("x"), "a"), num("1")))),
        };
        method(ident("Person"), "filter", vec![pred])
    };
    let (r, idx) = rewrite_one(make());
    assert_eq!(r.unwrap(), module_of(make()));
    assert!(idx.is_empty());
}

#[test]
fn optional_callee_fails() {
    let callee = Expr::Member { obj: Box::new(ident("Person")), prop: MemberProp::Ident(s("filter")), optional: true };
    let call = call_at(SPAN, callee, vec![arrow("x", bin(BinOp::EqEq, member(ident("x"), "a"), num("1")))]);
    let (r, _) = rewrite_one(call);
    assert_eq!(r, Err(RewriteError { construct: Construct::NonMemberCallee, call_site: SPAN, method: Method::Filter, receiver: ident("Person") }));
}

#[test]
fn computed_callee_fails() {
    let callee = Expr::Member {
        obj: Box::new(ident("Person")),
        prop: MemberProp::Computed(Box::new(string("filter"))),
        optional: false,
    };
    let call = call_at(SPAN, callee, vec![arrow("x", bin(BinOp::EqEq, member(ident("x"), "a"), num("1")))]);
    let (r, _) = rewrite_one(call);
    assert_eq!(r, Err(RewriteError { construct: Construct::NonMemberCallee, call_site: SPAN, method: Method::Filter, receiver: ident("Person") }));
}

#[test]
fn find_keeps_the_predicate_after_the_query() {
    let pred = || arrow("x", bin(BinOp::Gt, member(ident("x"), "age"), num("18")));
    let (r, idx) = rewrite_one(method(ident("Person"), "find", vec![pred()]));
    let ir = q_bin(q_prop(q_param(), "age"), "Gt", q_lit(num("18")));
    let pure_call = method(ident("Person"), "__filter", vec![ir, pred()]);
    assert_eq!(r.unwrap(), module_of(method(pure_call, "find", vec![pred()])));
    assert_eq!(idx, vec![prop("age", QOp::Gt)]);
}

#[test]
fn literal_first_and_nested_paths() {
    let pred = arrow("x", bin(BinOp::LogicalAnd, bin(BinOp::Lt, num("5"), member(ident("x"), "n")), bin(BinOp::EqEq, member(member(ident("x"), "addr"), "city"), string("Oslo"))));
    let (r, idx) = rewrite_one(method(ident("Person"), "filter", vec![pred]));
    assert!(r.is_ok());
    assert_eq!(idx, vec![prop("n", QOp::Lt), prop("addr.city", QOp::Eq)]);
}

#[test]
fn comparison_of_two_fields_gives_no_record() {
    let pred = arrow("x", bin(BinOp::EqEq, member(ident("x"), "a"), member(ident("x"), "b")));
    let (r, idx) = rewrite_one(method(ident("Person"), "filter", vec![pred]));
    assert!(r.is_ok());
    assert!(idx.is_empty());
}

#[test]
fn rewrites_inside_functions_declarations_and_awaits() {
    let pred = || arrow("x", bin(BinOp::EqEq, member(ident("x"), "a"), num("1")));
    let inner = |e: Expr| {
        let decl = Stmt::Var {
            kind: VarKind::Const,
            decls: vec![VarDeclarator { name: Pat::Ident(s("r")), init: Some(Expr::Await(Box::new(e))) }],
        };
        Module {
            body: vec![
                ModuleItem::Other(s("import { Person } from './models';")),
                ModuleItem::ExportDefaultFn { name: None, params: vec![], is_async: true, body: vec![decl] },
            ],
        }
    };
    let mut rw = Rewriter::new(Symbols::new(vec![s("Person")]));
    let m = rw.rewrite(inner(method(method(ident("Person"), "cursor", vec![]), "filter", vec![pred()]))).unwrap();
    let ir = q_bin(q_prop(q_param(), "a"), "Eq", q_lit(num("1")));
    let expected = method(method(ident("Person"), "cursor", vec![]), "__filter", vec![ir, pred()]);
    assert_eq!(m, inner(expected));
    assert_eq!(rw.indexes, vec![prop("a", QOp::Eq)]);
}

#[test]
fn calls_inside_arguments_are_rewritten() {
    let pred = || arrow("x", bin(BinOp::EqEq, member(ident("x"), "a"), num("1")));
    let outer = |e: Expr| call_at(SPAN, ident("show"), vec![e]);
    let (r, idx) = rewrite_one(outer(method(ident("Person"), "filter", vec![pred()])));
    let ir = q_bin(q_prop(q_param(), "a"), "Eq", q_lit(num("1")));
    assert_eq!(r.unwrap(), module_of(outer(method(ident("Person"), "__filter", vec![ir, pred()]))));
    assert_eq!(idx.len(), 1);
}

#[test]
fn outer_variables_are_impure() {
    let cond = || bin(BinOp::EqEq, member(ident("x"), "a"), ident("limit"));
    let keep = || bin(BinOp::Gt, member(ident("x"), "b"), Expr::Lit(Lit::Bool(true)));
    let pred = arrow("x", bin(BinOp::LogicalAnd, cond(), keep()));
    let (r, idx) = rewrite_one(method(ident("Person"), "filter", vec![pred]));
    let ir = q_bin(q_prop(q_param(), "b"), "Gt", q_lit(Expr::Lit(Lit::Bool(true))));
    let pure_call = method(ident("Person"), "__filter", vec![ir, arrow("x", keep())]);
    assert_eq!(r.unwrap(), module_of(method(pure_call, "filter", vec![arrow("x", cond())])));
    assert_eq!(idx, vec![prop("b", QOp::Gt)]);
}

/// Evaluates the predicate fragments used here on a record of integer fields.
fn eval(e: &Expr, rec: &HashMap<&str, i64>) -> i64 {
    match e {
        Expr::Member { prop: MemberProp::Ident(f), .. } => rec[f.as_str()],
        Expr::Lit(Lit::Num(n)) => n.parse().unwrap(),
        Expr::Binary { op, left, right } => {
            let (l, r) = (eval(left, rec), eval(right, rec));
            let b = match op {
                BinOp::EqEq => l == r,
                BinOp::Gt => l > r,
                BinOp::Lt => l < r,
                BinOp::LogicalAnd => l != 0 && r != 0,
                _ => panic!("operator"),
            };
            b as i64
        }
        // isEven(x.f)
        Expr::Call { args, .. } => (eval(&args[0], rec) % 2 == 0) as i64,
        _ => panic!("expression"),
    }
}

fn passes(closure: &Expr, rec: &HashMap<&str, i64>) -> bool {
    match closure {
        Expr::Arrow { body: ArrowBody::Expr(b), .. } => eval(b, rec) != 0,
        _ => panic!("closure"),
    }
}

#[test]
fn split_selects_the_same_records() {
    let body = bin(
        BinOp::LogicalAnd,
        bin(BinOp::LogicalAnd, bin(BinOp::Gt, member(ident("x"), "a"), num("1")), call_at(SPAN, ident("isEven"), vec![member(ident("x"), "b")])),
        bin(BinOp::Lt, member(ident("x"), "b"), num("9")),
    );
    let original = arrow("x", body);
    let (r, _) = rewrite_one(method(ident("Person"), "filter", vec![copy_expr(&original)]));
    let m = r.unwrap();
    let (pure, residual) = match &m.body[0] {
        ModuleItem::Stmt(Stmt::Expr(Expr::Call { callee: Callee::Expr(c), args, .. })) => match &**c {
            Expr::Member { obj, .. } => match &**obj {
                Expr::Call { args: pure_args, .. } => (&pure_args[1], &args[0]),
                _ => panic!("pure call"),
            },
            _ => panic!("callee"),
        },
        _ => panic!("statement"),
    };
    let mut records = Vec::new();
    for a in 0..4 {
        for b in 0..12 {
            let mut rec = HashMap::new();
            rec.insert("a", a);
            rec.insert("b", b);
            records.push(rec);
        }
    }
    let direct: Vec<_> = records.iter().filter(|r| passes(&original, r)).collect();
    let split: Vec<_> = records.iter().filter(|r| passes(pure, r)).filter(|r| passes(residual, r)).collect();
    assert!(!direct.is_empty());
    assert_eq!(direct, split);
}

#[test]
fn target_selectors() {
    assert_eq!(Target::parse("js"), Ok(Target::JavaScript));
    assert_eq!(Target::parse("ts"), Ok(Target::TypeScript));
    assert_eq!(Target::parse("filter-properties"), Ok(Target::FilterProperties));
    let err = Target::parse("xml").unwrap_err();
    assert_eq!(err.selector, "xml");
    assert_eq!("ts".parse::<Target>(), Ok(Target::TypeScript));
}

fn computed(key: &str) -> Expr {
    Expr::Member { obj: Box::new(ident("x")), prop: MemberProp::Computed(Box::new(ident(key))), optional: false }
}

#[test]
fn computed_property_in_impure_part_fails() {
    let pure = bin(BinOp::EqEq, member(ident("x"), "a"), num("1"));
    let impure = call_at(SPAN, ident("f"), vec![computed("key")]);
    let call = method(ident("Person"), "find", vec![arrow("x", bin(BinOp::LogicalAnd, pure, impure))]);
    let (r, idx) = rewrite_one(call);
    assert_eq!(r, Err(RewriteError { construct: Construct::ComputedProperty, call_site: SPAN, method: Method::Find, receiver: ident("Person") }));
    assert!(idx.is_empty());
}

#[test]
fn computed_property_under_other_operator_fails() {
    let sum = bin(BinOp::Add, computed("key"), num("1"));
    let call = method(ident("Person"), "filter", vec![arrow("x", bin(BinOp::EqEq, sum, num("2")))]);
    let (r, _) = rewrite_one(call);
    assert_eq!(r.unwrap_err().construct, Construct::ComputedProperty);
}

#[test]
fn failure_leaves_records_unchanged() {
    let good = method(ident("Person"), "filter", vec![arrow("x", bin(BinOp::Gt, member(ident("x"), "age"), num("1")))]);
    let bad = method(ident("Person"), "filter", vec![arrow("x", bin(BinOp::EqEq, computed("k"), num("1")))]);
    let module = Module { body: vec![ModuleItem::Stmt(Stmt::Expr(good)), ModuleItem::Stmt(Stmt::Expr(bad))] };
    let mut rw = rewriter();
    rw.indexes.push(prop("earlier", QOp::Eq));
    assert!(rw.rewrite(module).is_err());
    assert_eq!(rw.indexes, vec![prop("earlier", QOp::Eq)]);
}

#[test]
fn target_from_str_keeps_unknown_selector() {
    assert_eq!("filter-properties".parse::<Target>(), Ok(Target::FilterProperties));
    assert_eq!("JS".parse::<Target>().unwrap_err().selector, "JS");
    assert_eq!("".parse::<Target>().unwrap_err().selector, "");
}
