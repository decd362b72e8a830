//! Code generation: the rewritten call for an inferred filter, with the query
//! expression encoded as a tree of object literals tagged by `exprType`.
use crate::ast::{
    copy_expr, copy_lit, exprs_view, props_view, Callee, CalleeV, Expr, ExprV, Lit, LitV, MemberProp,
    MemberPropV, Prop, PropV, Span,
};
use crate::infer::lemma_exprs_view_push;
use crate::query::{QExpr, QExprV};
use vstd::prelude::*;
use vstd::string::StringExecFns;

verus! {

/// Which call was rewritten.
#[derive(Clone, Copy, Debug, PartialEq, Eq, Structural)]
pub enum Method {
    Filter,
    Find,
}

/// A `filter` or `find` call whose predicate has a pure part.
#[derive(Debug, PartialEq)]
pub struct Filter {
    /// The query expression of the pure part.
    pub predicate: QExpr,
    /// The names of the closure's parameters.
    pub parameters: Vec<String>,
    pub call_site: Span,
    /// What `filter` or `find` was called on.
    pub receiver: Expr,
    pub method: Method,
    /// A closure over the pure part, kept as a fallback for the runtime.
    pub pure: Expr,
    /// A closure over what the query cannot express, if anything.
    pub impure: Option<Expr>,
}

pub struct FilterV {
    pub predicate: QExprV,
    pub parameters: Seq<Seq<char>>,
    pub call_site: Span,
    pub receiver: ExprV,
    pub method: Method,
    pub pure: ExprV,
    pub impure: Option<ExprV>,
}

impl View for Filter {
    type V = FilterV;

    open spec fn view(&self) -> FilterV {
        FilterV {
            predicate: self.predicate@,
            parameters: self.parameters@.map_values(|s: String| s@),
            call_site: self.call_site,
            receiver: self.receiver@,
            method: self.method,
            pure: self.pure@,
            impure: match self.impure {
                Some(e) => Some(e@),
                None => None,
            },
        }
    }
}

pub open spec fn str_lit(s: Seq<char>) -> ExprV {
    ExprV::Lit(LitV::Str(s))
}

pub open spec fn entry(key: Seq<char>, value: ExprV) -> PropV {
    PropV { key, value }
}

/// The object literal that encodes `q` in a closure whose parameter is `p`.
pub open spec fn encode(q: QExprV, p: Seq<char>) -> ExprV
    decreases q,
{
    match q {
        QExprV::Binary { left, op, right } => ExprV::Object(
            seq![
                entry("exprType"@, str_lit("Binary"@)),
                entry("left"@, encode(*left, p)),
                entry("op"@, str_lit(op.name_spec())),
                entry("right"@, encode(*right, p)),
            ],
        ),
        QExprV::PropertyAccess { object, property } => ExprV::Object(
            seq![
                entry("exprType"@, str_lit("Property"@)),
                entry("object"@, encode(*object, p)),
                entry("property"@, str_lit(property)),
            ],
        ),
        QExprV::Identifier(n) => if n == p {
            ExprV::Object(
                seq![
                    entry("exprType"@, str_lit("Parameter"@)),
                    entry("position"@, ExprV::Lit(LitV::Num("0"@))),
                ],
            )
        } else {
            ExprV::Object(
                seq![entry("exprType"@, str_lit("Identifier"@)), entry("ident"@, str_lit(n))],
            )
        },
        QExprV::Literal(l) => ExprV::Object(
            seq![entry("exprType"@, str_lit("Literal"@)), entry("value"@, ExprV::Lit(l))],
        ),
    }
}

pub open spec fn method_call(obj: ExprV, name: Seq<char>, span: Span, args: Seq<ExprV>) -> ExprV {
    ExprV::Call {
        span,
        callee: CalleeV::Expr(
            Box::new(ExprV::Member { obj: Box::new(obj), prop: MemberPropV::Ident(name), optional: false }),
        ),
        args,
    }
}

/// `receiver.__filter(query, pure)`, followed for `filter` by `.filter(impure)`
/// where there is an impure part, and for `find` by `.find(impure)`, or by
/// `.find(pure)` where there is none.
pub open spec fn render(f: FilterV) -> ExprV {
    let pure_call = method_call(
        f.receiver,
        "__filter"@,
        f.call_site,
        seq![encode(f.predicate, f.parameters[0]), f.pure],
    );
    match f.method {
        Method::Filter => match f.impure {
            None => pure_call,
            Some(i) => method_call(pure_call, "filter"@, f.call_site, seq![i]),
        },
        Method::Find => method_call(
            pure_call,
            "find"@,
            f.call_site,
            seq![
                match f.impure {
                    Some(i) => i,
                    None => f.pure,
                },
            ],
        ),
    }
}

fn string_expr(s: &str) -> (r: Expr)
    ensures
        r@ == str_lit(s@),
{
    Expr::Lit(Lit::Str(String::from_str(s)))
}

fn push_entry(out: &mut Vec<Prop>, key: &str, value: Expr)
    ensures
        props_view(final(out)@) == props_view(old(out)@).push(entry(key@, value@)),
{
    let ghost prev = out@;
    out.push(Prop { key: String::from_str(key), value });
    assert(out@.drop_last() =~= prev);
}

/// The object literal that encodes `q`.
pub fn encode_query(q: &QExpr, p: &String) -> (r: Expr)
    ensures
        r@ == encode(q@, p@),
    decreases q,
{
    let mut v: Vec<Prop> = Vec::new();
    match q {
        QExpr::Binary { left, op, right } => {
            let l = encode_query(left, p);
            let r = encode_query(right, p);
            push_entry(&mut v, "exprType", string_expr("Binary"));
            push_entry(&mut v, "left", l);
            push_entry(&mut v, "op", string_expr(op.name()));
            push_entry(&mut v, "right", r);
            assert(props_view(v@) =~= seq![
                entry("exprType"@, str_lit("Binary"@)),
                entry("left"@, encode(left@, p@)),
                entry("op"@, str_lit(op.name_spec())),
                entry("right"@, encode(right@, p@)),
            ]);
        },
        QExpr::PropertyAccess { object, property } => {
            let o = encode_query(object, p);
            push_entry(&mut v, "exprType", string_expr("Property"));
            push_entry(&mut v, "object", o);
            push_entry(&mut v, "property", Expr::Lit(Lit::Str(property.clone())));
            assert(props_view(v@) =~= seq![
                entry("exprType"@, str_lit("Property"@)),
                entry("object"@, encode(object@, p@)),
                entry("property"@, str_lit(property@)),
            ]);
        },
        QExpr::Identifier(n) => {
            if *n == *p {
                push_entry(&mut v, "exprType", string_expr("Parameter"));
                push_entry(&mut v, "position", Expr::Lit(Lit::Num(String::from_str("0"))));
                assert(props_view(v@) =~= seq![
                    entry("exprType"@, str_lit("Parameter"@)),
                    entry("position"@, ExprV::Lit(LitV::Num("0"@))),
                ]);
            } else {
                push_entry(&mut v, "exprType", string_expr("Identifier"));
                push_entry(&mut v, "ident", Expr::Lit(Lit::Str(n.clone())));
                assert(props_view(v@) =~= seq![
                    entry("exprType"@, str_lit("Identifier"@)),
                    entry("ident"@, str_lit(n@)),
                ]);
            }
        },
        QExpr::Literal(l) => {
            push_entry(&mut v, "exprType", string_expr("Literal"));
            push_entry(&mut v, "value", Expr::Lit(copy_lit(l)));
            assert(props_view(v@) =~= seq![
                entry("exprType"@, str_lit("Literal"@)),
                entry("value"@, ExprV::Lit(l@)),
            ]);
        },
    }
    Expr::Object(v)
}

fn make_method_call(obj: Expr, name: &str, span: Span, args: Vec<Expr>) -> (r: Expr)
    ensures
        r@ == method_call(obj@, name@, span, exprs_view(args@)),
{
    let ghost ov = obj@;
    let callee = Expr::Member {
        obj: Box::new(obj),
        prop: MemberProp::Ident(String::from_str(name)),
        optional: false,
    };
    assert(callee@ == ExprV::Member { obj: Box::new(ov), prop: MemberPropV::Ident(name@), optional: false });
    Expr::Call { span, callee: Callee::Expr(Box::new(callee)), args }
}

fn one_arg(e: Expr) -> (r: Vec<Expr>)
    ensures
        exprs_view(r@) == seq![e@],
{
    let mut v: Vec<Expr> = Vec::new();
    proof {
        lemma_exprs_view_push(v@, e);
    }
    v.push(e);
    assert(exprs_view(v@) =~= seq![e@]);
    v
}

/// The call that replaces the original `filter` or `find` call.
pub fn to_call(f: Filter) -> (r: Expr)
    requires
        f.parameters.len() == 1,
    ensures
        r@ == render(f@),
{
    let ghost fv = f@;
    let query = encode_query(&f.predicate, &f.parameters[0]);
    let mut args: Vec<Expr> = Vec::new();
    proof {
        lemma_exprs_view_push(args@, query);
    }
    args.push(query);
    let ghost a1 = args@;
    proof {
        lemma_exprs_view_push(a1, f.pure);
    }
    let Filter { predicate: _, parameters: _, call_site, receiver, method, pure, impure } = f;
    let ghost pure_v = pure@;
    match method {
        Method::Filter => {
            args.push(pure);
            assert(exprs_view(args@) =~= seq![encode(fv.predicate, fv.parameters[0]), fv.pure]);
            let pure_call = make_method_call(receiver, "__filter", call_site, args);
            match impure {
                None => pure_call,
                Some(i) => make_method_call(pure_call, "filter", call_site, one_arg(i)),
            }
        },
        Method::Find => {
            let last = match impure {
                Some(i) => {
                    args.push(pure);
                    i
                },
                None => {
                    let c = copy_expr(&pure);
                    args.push(pure);
                    c
                },
            };
            assert(exprs_view(args@) =~= seq![encode(fv.predicate, fv.parameters[0]), fv.pure]);
            let pure_call = make_method_call(receiver, "__filter", call_site, args);
            make_method_call(pure_call, "find", call_site, one_arg(last))
        },
    }
}

} // verus!
