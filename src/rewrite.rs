//! The module rewriter: finds `filter` / `find` calls on queryable entities,
//! replaces each with a query call, and collects the indexing records of the
//! whole module.
use crate::ast::{
    copy_expr, copy_pat, copy_pats, decl_view, decls_view, expr_view, exprs_view, item_view,
    items_view, lemma_decls_view, lemma_items_view, lemma_stmts_view, pats_view, stmt_view,
    stmts_view, ArrowBody, ArrowBodyV, Callee, CalleeV, Expr, ExprV, LitV, Lit, MemberProp, MemberPropV, Module,
    ModuleItem, ModuleItemV, Pat, PatV, Span, Stmt, StmtV, VarDeclarator, VarDeclaratorV,
};
use crate::codegen::{render, to_call, Filter, FilterV, Method};
use crate::infer::{
    and_all, build_and, find_computed, has_computed, collect_props, conjuncts, field_props, has_unsupported, impure_part,
    lemma_and_all_pure, lemma_conjuncts_pure, lemma_exprs_view, lemma_exprs_view_push,
    lemma_parts, pure_part, split_conjuncts, to_qexpr, to_query,
};
use crate::query::{props_of, string_is, FilterProperty, FilterPropertyV};
use vstd::prelude::*;

verus! {

/// What the rewriter knows of the program's types: the names of the
/// queryable entities.
#[derive(Debug, PartialEq)]
pub struct Symbols {
    pub entities: Vec<String>,
}

impl View for Symbols {
    type V = Seq<Seq<char>>;

    open spec fn view(&self) -> Seq<Seq<char>> {
        self.entities@.map_values(|s: String| s@)
    }
}

impl Symbols {
    pub fn new(entities: Vec<String>) -> (r: Symbols)
        ensures
            r.entities == entities,
    {
        Symbols { entities }
    }

    /// Whether `name` is a queryable entity.
    pub fn is_entity(&self, name: &String) -> (r: bool)
        ensures
            r == self@.contains(name@),
    {
        let mut i: usize = 0;
        while i < self.entities.len()
            invariant
                i <= self.entities.len(),
                forall|k: int| 0 <= k < i ==> self.entities@[k]@ != name@,
            decreases self.entities.len() - i,
        {
            if self.entities[i] == *name {
                assert(self@[i as int] == name@);
                return true;
            }
            i = i + 1;
        }
        assert forall|k: int| 0 <= k < self@.len() implies self@[k] != name@ by {
            assert(self@[k] == self.entities@[k]@);
        }
        false
    }
}

/// Whether `e` roots a chain of calls on a queryable entity (`Person`,
/// `Person.cursor()`, ...).
pub open spec fn queryable(e: ExprV, ents: Seq<Seq<char>>) -> bool
    decreases e,
{
    match e {
        ExprV::Ident(n) => ents.contains(n),
        ExprV::Call { callee: CalleeV::Expr(c), .. } => match *c {
            ExprV::Member { obj, .. } => queryable(*obj, ents),
            _ => false,
        },
        _ => false,
    }
}

pub fn is_queryable(e: &Expr, symbols: &Symbols) -> (r: bool)
    ensures
        r == queryable(e@, symbols@),
    decreases e,
{
    match e {
        Expr::Ident(n) => symbols.is_entity(n),
        Expr::Call { callee: Callee::Expr(c), .. } => match &**c {
            Expr::Member { obj, .. } => {
                assert((**c)@ is Member);
                is_queryable(obj, symbols)
            },
            _ => {
                assert(!((**c)@ is Member));
                false
            },
        },
        _ => false,
    }
}

/// A construct that makes a rewrite fail.
#[derive(Clone, Copy, Debug, PartialEq, Eq, Structural)]
pub enum Construct {
    /// `obj[expr]` inside a predicate.
    ComputedProperty,
    /// `receiver?.filter(...)` or `receiver["filter"](...)`.
    NonMemberCallee,
}

/// The construct that made a rewrite fail, and the call it was found in:
/// its source span, the method called and what it was called on.
#[derive(Debug, PartialEq)]
pub struct RewriteError {
    pub construct: Construct,
    pub call_site: Span,
    pub method: Method,
    pub receiver: Expr,
}

pub struct RewriteErrorV {
    pub construct: Construct,
    pub call_site: Span,
    pub method: Method,
    pub receiver: ExprV,
}

impl View for RewriteError {
    type V = RewriteErrorV;

    open spec fn view(&self) -> RewriteErrorV {
        RewriteErrorV {
            construct: self.construct,
            call_site: self.call_site,
            method: self.method,
            receiver: self.receiver@,
        }
    }
}

/// What inference makes of one call.
pub enum Inference {
    /// Not a `filter` / `find` call on a queryable entity with a pure part:
    /// left as it is.
    NotApplicable,
    Failed(RewriteErrorV),
    Inferred(FilterV),
}

pub open spec fn method_named(n: Seq<char>) -> Option<Method> {
    if n == "filter"@ {
        Some(Method::Filter)
    } else if n == "find"@ {
        Some(Method::Find)
    } else {
        None
    }
}

/// The method that a member property names, written `.name` or `["name"]`.
pub open spec fn prop_method(prop: MemberPropV) -> Option<Method> {
    match prop {
        MemberPropV::Ident(n) => method_named(n),
        MemberPropV::Computed(b) => match *b {
            ExprV::Lit(LitV::Str(n)) => method_named(n),
            _ => None,
        },
    }
}

pub open spec fn closure(params: Seq<PatV>, body: ExprV) -> ExprV {
    ExprV::Arrow { params, body: ArrowBodyV::Expr(Box::new(body)) }
}

/// Inference on the body `b` of the closure `params => b`, whose one
/// parameter is named `p`.
pub open spec fn infer_body(
    span: Span,
    receiver: ExprV,
    m: Method,
    params: Seq<PatV>,
    b: ExprV,
    p: Seq<char>,
) -> Inference {
    let cs = conjuncts(b);
    if has_computed(b) || has_unsupported(cs, p) {
        Inference::Failed(
            RewriteErrorV {
                construct: Construct::ComputedProperty,
                call_site: span,
                method: m,
                receiver,
            },
        )
    } else if pure_part(cs, p).len() == 0 {
        Inference::NotApplicable
    } else {
        let ic = impure_part(cs, p);
        let pure_body = if ic.len() == 0 {
            b
        } else {
            and_all(pure_part(cs, p))
        };
        Inference::Inferred(
            FilterV {
                predicate: to_query(pure_body),
                parameters: seq![p],
                call_site: span,
                receiver,
                method: m,
                pure: closure(params, pure_body),
                impure: if ic.len() == 0 {
                    None
                } else {
                    Some(closure(params, and_all(ic)))
                },
            },
        )
    }
}

/// Inference on the arguments of a `filter` / `find` call: one arrow
/// function with one named parameter and an expression body.
pub open spec fn infer_args(span: Span, receiver: ExprV, m: Method, args: Seq<ExprV>) -> Inference {
    if args.len() != 1 {
        Inference::NotApplicable
    } else {
        match args[0] {
            ExprV::Arrow { params, body: ArrowBodyV::Expr(b) } => if params.len() == 1
                && params[0] is Ident {
                infer_body(span, receiver, m, params, *b, params[0]->Ident_0)
            } else {
                Inference::NotApplicable
            },
            _ => Inference::NotApplicable,
        }
    }
}

/// What inference makes of the expression `e`.
pub open spec fn infer_spec(e: ExprV, ents: Seq<Seq<char>>) -> Inference {
    match e {
        ExprV::Call { span, callee: CalleeV::Expr(c), args } => match *c {
            ExprV::Member { obj, prop, optional } => match prop_method(prop) {
                None => Inference::NotApplicable,
                Some(m) => if !queryable(*obj, ents) {
                    Inference::NotApplicable
                } else if optional || prop is Computed {
                    Inference::Failed(
                        RewriteErrorV {
                            construct: Construct::NonMemberCallee,
                            call_site: span,
                            method: m,
                            receiver: *obj,
                        },
                    )
                } else {
                    infer_args(span, *obj, m, args)
                },
            },
            _ => Inference::NotApplicable,
        },
        _ => Inference::NotApplicable,
    }
}

fn method_of_name(n: &String) -> (r: Option<Method>)
    ensures
        r == method_named(n@),
{
    if string_is(n, "filter") {
        Some(Method::Filter)
    } else if string_is(n, "find") {
        Some(Method::Find)
    } else {
        None
    }
}

fn method_of_prop(prop: &MemberProp) -> (r: Option<Method>)
    ensures
        r == prop_method(match *prop {
            MemberProp::Ident(n) => MemberPropV::Ident(n@),
            MemberProp::Computed(c) => MemberPropV::Computed(Box::new(expr_view(*c))),
        }),
{
    match prop {
        MemberProp::Ident(n) => method_of_name(n),
        MemberProp::Computed(c) => match &**c {
            Expr::Lit(Lit::Str(n)) => method_of_name(n),
            _ => {
                assert(!((**c)@ matches ExprV::Lit(LitV::Str(_))));
                None
            },
        },
    }
}

fn infer_closure(span: Span, receiver: &Expr, m: Method, params: &Vec<Pat>, b: &Expr, p: &String) -> (r: Result<Option<Filter>, RewriteError>)
    requires
        params.len() == 1,
        params@[0] == Pat::Ident(*p),
    ensures
        match infer_body(span, receiver@, m, pats_view(params@), b@, p@) {
            Inference::NotApplicable => r == Ok::<Option<Filter>, RewriteError>(None),
            Inference::Failed(x) => r matches Err(y) && y@ == x,
            Inference::Inferred(f) => r matches Ok(Some(g)) && g@ == f && g.parameters.len() == 1,
        },
{
    let ghost cs = conjuncts(b@);
    if find_computed(b) {
        return Err(
            RewriteError {
                construct: Construct::ComputedProperty,
                call_site: span,
                method: m,
                receiver: copy_expr(receiver),
            },
        );
    }
    let split = match split_conjuncts(b, p) {
        None => {
            return Err(
                RewriteError {
                    construct: Construct::ComputedProperty,
                    call_site: span,
                    method: m,
                    receiver: copy_expr(receiver),
                },
            );
        },
        Some(s) => s,
    };
    if split.pure.len() == 0 {
        proof {
            lemma_exprs_view(split.pure@);
        }
        return Ok(None);
    }
    proof {
        lemma_exprs_view(split.pure@);
        lemma_exprs_view(split.impure@);
        lemma_parts(cs, p@);
    }
    let pure_body = if split.impure.len() == 0 {
        proof {
            lemma_conjuncts_pure(b@, p@);
        }
        copy_expr(b)
    } else {
        proof {
            lemma_and_all_pure(pure_part(cs, p@), p@);
        }
        build_and(&split.pure)
    };
    let predicate = to_qexpr(&pure_body, p);
    let impure = if split.impure.len() == 0 {
        None
    } else {
        let rest = build_and(&split.impure);
        Some(Expr::Arrow { params: copy_pats(params), body: ArrowBody::Expr(Box::new(rest)) })
    };
    let pure = Expr::Arrow { params: copy_pats(params), body: ArrowBody::Expr(Box::new(pure_body)) };
    let mut parameters: Vec<String> = Vec::new();
    parameters.push(p.clone());
    let f = Filter {
        predicate,
        parameters,
        call_site: span,
        receiver: copy_expr(receiver),
        method: m,
        pure,
        impure,
    };
    assert(f@.parameters =~= seq![p@]);
    Ok(Some(f))
}

/// Inference on one expression.
pub fn infer(e: &Expr, symbols: &Symbols) -> (r: Result<Option<Filter>, RewriteError>)
    ensures
        match infer_spec(e@, symbols@) {
            Inference::NotApplicable => r == Ok::<Option<Filter>, RewriteError>(None),
            Inference::Failed(x) => r matches Err(y) && y@ == x,
            Inference::Inferred(f) => r matches Ok(Some(g)) && g@ == f && g.parameters.len() == 1,
        },
{
    match e {
        Expr::Call { span, callee: Callee::Expr(c), args } => {
            match &**c {
                Expr::Member { obj, prop, optional } => {
                    let m = match method_of_prop(prop) {
                        None => {
                            return Ok(None);
                        },
                        Some(m) => m,
                    };
                    if !is_queryable(obj, symbols) {
                        return Ok(None);
                    }
                    let computed = match prop {
                        MemberProp::Computed(_) => true,
                        MemberProp::Ident(_) => false,
                    };
                    if *optional || computed {
                        return Err(
                            RewriteError {
                                construct: Construct::NonMemberCallee,
                                call_site: *span,
                                method: m,
                                receiver: copy_expr(obj),
                            },
                        );
                    }
                    proof {
                        lemma_exprs_view(args@);
                    }
                    if args.len() != 1 {
                        return Ok(None);
                    }
                    match &args[0] {
                        Expr::Arrow { params, body: ArrowBody::Expr(b) } => {
                            if params.len() != 1 {
                                return Ok(None);
                            }
                            match &params[0] {
                                Pat::Ident(p) => {
                                    assert(pats_view(params@)[0] == PatV::Ident(p@));
                                    infer_closure(*span, obj, m, params, b, p)
                                },
                                Pat::Other(_) => {
                                    assert(!(pats_view(params@)[0] is Ident));
                                    Ok(None)
                                },
                            }
                        },
                        _ => {
                            assert(!(args@[0]@ matches ExprV::Arrow { body: ArrowBodyV::Expr(_), .. }));
                            Ok(None)
                        },
                    }
                },
                _ => {
                    assert(!((**c)@ is Member));
                    Ok(None)
                },
            }
        },
        _ => Ok(None),
    }
}

// ---------------------------------------------------------------------------
// The traversal
/// The outcome of rewriting a node: the new node and the records found in it,
/// in encounter order, or the first failure.
pub type Rewritten<T> = Result<(T, Seq<FilterPropertyV>), RewriteErrorV>;

pub open spec fn rw_expr(e: ExprV, ents: Seq<Seq<char>>) -> Rewritten<ExprV>
    decreases e,
{
    match e {
        ExprV::Arrow { params, body } => match body {
            ArrowBodyV::Block(stmts) => match rw_stmts(stmts, ents) {
                Ok((s2, ps)) => Ok((ExprV::Arrow { params, body: ArrowBodyV::Block(s2) }, ps)),
                Err(x) => Err(x),
            },
            ArrowBodyV::Expr(b) => match rw_expr(*b, ents) {
                Ok((b2, ps)) => Ok((closure(params, b2), ps)),
                Err(x) => Err(x),
            },
        },
        ExprV::Await(a) => match rw_expr(*a, ents) {
            Ok((a2, ps)) => Ok((ExprV::Await(Box::new(a2)), ps)),
            Err(x) => Err(x),
        },
        ExprV::Call { span, callee, args } => match infer_spec(e, ents) {
            Inference::Failed(x) => Err(x),
            Inference::Inferred(f) => Ok((render(f), field_props(f.predicate, f.parameters[0]))),
            Inference::NotApplicable => {
                let c = match callee {
                    CalleeV::Expr(x) => match rw_expr(*x, ents) {
                        Ok((x2, ps)) => Ok((CalleeV::Expr(Box::new(x2)), ps)),
                        Err(err) => Err(err),
                    },
                    _ => Ok((callee, Seq::empty())),
                };
                match c {
                    Err(x) => Err(x),
                    Ok((c2, ps1)) => match rw_exprs(args, ents) {
                        Err(x) => Err(x),
                        Ok((a2, ps2)) => Ok((ExprV::Call { span, callee: c2, args: a2 }, ps1 + ps2)),
                    },
                }
            },
        },
        ExprV::Member { obj, prop, optional } => match rw_expr(*obj, ents) {
            Ok((o2, ps)) => Ok((ExprV::Member { obj: Box::new(o2), prop, optional }, ps)),
            Err(x) => Err(x),
        },
        _ => Ok((e, Seq::empty())),
    }
}

pub open spec fn rw_exprs(s: Seq<ExprV>, ents: Seq<Seq<char>>) -> Rewritten<Seq<ExprV>>
    decreases s,
{
    if s.len() == 0 {
        Ok((s, Seq::empty()))
    } else {
        match rw_exprs(s.drop_last(), ents) {
            Err(x) => Err(x),
            Ok((a, ps)) => match rw_expr(s.last(), ents) {
                Err(x) => Err(x),
                Ok((y, qs)) => Ok((a.push(y), ps + qs)),
            },
        }
    }
}

pub open spec fn rw_stmt(s: StmtV, ents: Seq<Seq<char>>) -> Rewritten<StmtV>
    decreases s,
{
    match s {
        StmtV::Expr(e) => match rw_expr(e, ents) {
            Ok((e2, ps)) => Ok((StmtV::Expr(e2), ps)),
            Err(x) => Err(x),
        },
        StmtV::Var { kind, decls } => match rw_decls(decls, ents) {
            Ok((d2, ps)) => Ok((StmtV::Var { kind, decls: d2 }, ps)),
            Err(x) => Err(x),
        },
        StmtV::Other(_) => Ok((s, Seq::empty())),
    }
}

pub open spec fn rw_stmts(s: Seq<StmtV>, ents: Seq<Seq<char>>) -> Rewritten<Seq<StmtV>>
    decreases s,
{
    if s.len() == 0 {
        Ok((s, Seq::empty()))
    } else {
        match rw_stmts(s.drop_last(), ents) {
            Err(x) => Err(x),
            Ok((a, ps)) => match rw_stmt(s.last(), ents) {
                Err(x) => Err(x),
                Ok((y, qs)) => Ok((a.push(y), ps + qs)),
            },
        }
    }
}

pub open spec fn rw_decls(s: Seq<VarDeclaratorV>, ents: Seq<Seq<char>>) -> Rewritten<
    Seq<VarDeclaratorV>,
>
    decreases s,
{
    if s.len() == 0 {
        Ok((s, Seq::empty()))
    } else {
        match rw_decls(s.drop_last(), ents) {
            Err(x) => Err(x),
            Ok((a, ps)) => match rw_decl(s.last(), ents) {
                Err(x) => Err(x),
                Ok((y, qs)) => Ok((a.push(y), ps + qs)),
            },
        }
    }
}

pub open spec fn rw_decl(d: VarDeclaratorV, ents: Seq<Seq<char>>) -> Rewritten<VarDeclaratorV>
    decreases d,
{
    match d.init {
        None => Ok((d, Seq::empty())),
        Some(e) => match rw_expr(e, ents) {
            Err(x) => Err(x),
            Ok((e2, qs)) => Ok((VarDeclaratorV { name: d.name, init: Some(e2) }, qs)),
        },
    }
}

pub open spec fn rw_item(i: ModuleItemV, ents: Seq<Seq<char>>) -> Rewritten<ModuleItemV> {
    match i {
        ModuleItemV::Stmt(s) => match rw_stmt(s, ents) {
            Ok((s2, ps)) => Ok((ModuleItemV::Stmt(s2), ps)),
            Err(x) => Err(x),
        },
        ModuleItemV::ExportDefaultFn { name, params, is_async, body } => match rw_stmts(body, ents) {
            Ok((b2, ps)) => Ok((ModuleItemV::ExportDefaultFn { name, params, is_async, body: b2 }, ps)),
            Err(x) => Err(x),
        },
        ModuleItemV::Other(_) => Ok((i, Seq::empty())),
    }
}

/// The rewrite of a whole module.
pub open spec fn rw_module(s: Seq<ModuleItemV>, ents: Seq<Seq<char>>) -> Rewritten<Seq<ModuleItemV>>
    decreases s.len(),
{
    if s.len() == 0 {
        Ok((s, Seq::empty()))
    } else {
        match rw_module(s.drop_last(), ents) {
            Err(x) => Err(x),
            Ok((a, ps)) => match rw_item(s.last(), ents) {
                Err(x) => Err(x),
                Ok((y, qs)) => Ok((a.push(y), ps + qs)),
            },
        }
    }
}

/// The records that a rewrite of `m` adds: those of the module where the
/// rewrite succeeds, none where it fails.
pub open spec fn module_records(m: Seq<ModuleItemV>, ents: Seq<Seq<char>>) -> Seq<FilterPropertyV> {
    match rw_module(m, ents) {
        Ok((_, ps)) => ps,
        Err(_) => Seq::empty(),
    }
}

/// Whether an executable outcome `r`, with the records appended from `before`
/// to `after`, is the outcome `spec` of the traversal.
pub open spec fn outcome<T, V>(
    r: Result<T, RewriteError>,
    view: spec_fn(T) -> V,
    before: Seq<FilterProperty>,
    after: Seq<FilterProperty>,
    spec: Rewritten<V>,
) -> bool {
    match spec {
        Ok((v, ps)) => r matches Ok(t) && view(t) == v && props_of(after) == props_of(before) + ps,
        Err(x) => r matches Err(y) && y@ == x,
    }
}

pub proof fn lemma_concat_assoc()
    ensures
        forall|a: Seq<FilterPropertyV>, b: Seq<FilterPropertyV>, c: Seq<FilterPropertyV>|
            #[trigger] ((a + b) + c) == a + (b + c),
{
    assert forall|a: Seq<FilterPropertyV>, b: Seq<FilterPropertyV>, c: Seq<FilterPropertyV>|
        #[trigger] ((a + b) + c) == a + (b + c) by {
        assert((a + b) + c =~= a + (b + c));
    }
}

pub fn rewrite_expr(e: &Expr, symbols: &Symbols, out: &mut Vec<FilterProperty>) -> (r: Result<Expr, RewriteError>)
    ensures
        outcome(r, |x: Expr| x@, old(out)@, final(out)@, rw_expr(e@, symbols@)),
    decreases e,
{
    match e {
        Expr::Arrow { params, body } => match body {
            ArrowBody::Block(stmts) => match rewrite_stmts(stmts, symbols, out) {
                Ok(s2) => Ok(Expr::Arrow { params: copy_pats(params), body: ArrowBody::Block(s2) }),
                Err(x) => Err(x),
            },
            ArrowBody::Expr(b) => match rewrite_expr(b, symbols, out) {
                Ok(b2) => Ok(Expr::Arrow { params: copy_pats(params), body: ArrowBody::Expr(Box::new(b2)) }),
                Err(x) => Err(x),
            },
        },
        Expr::Await(a) => match rewrite_expr(a, symbols, out) {
            Ok(a2) => Ok(Expr::Await(Box::new(a2))),
            Err(x) => Err(x),
        },
        Expr::Call { span, callee, args } => match infer(e, symbols) {
            Err(x) => Err(x),
            Ok(Some(f)) => {
                collect_props(&f.predicate, &f.parameters[0], out);
                Ok(to_call(f))
            },
            Ok(None) => {
                let c2 = match callee {
                    Callee::Expr(x) => match rewrite_expr(x, symbols, out) {
                        Ok(x2) => Callee::Expr(Box::new(x2)),
                        Err(err) => {
                            return Err(err);
                        },
                    },
                    Callee::Super => Callee::Super,
                    Callee::Import => Callee::Import,
                };
                match rewrite_exprs(args, symbols, out) {
                    Ok(a2) => {
                        proof {
                            lemma_concat_assoc();
                        }
                        Ok(Expr::Call { span: *span, callee: c2, args: a2 })
                    },
                    Err(x) => Err(x),
                }
            },
        },
        Expr::Member { obj, prop, optional } => match rewrite_expr(obj, symbols, out) {
            Ok(o2) => {
                let p2 = match prop {
                    MemberProp::Ident(n) => MemberProp::Ident(n.clone()),
                    MemberProp::Computed(c) => MemberProp::Computed(Box::new(copy_expr(c))),
                };
                Ok(Expr::Member { obj: Box::new(o2), prop: p2, optional: *optional })
            },
            Err(x) => Err(x),
        },
        _ => {
            assert(props_of(final(out)@) =~= props_of(old(out)@) + Seq::empty());
            Ok(copy_expr(e))
        },
    }
}

pub fn rewrite_exprs(v: &Vec<Expr>, symbols: &Symbols, out: &mut Vec<FilterProperty>) -> (r: Result<Vec<Expr>, RewriteError>)
    ensures
        outcome(r, |x: Vec<Expr>| exprs_view(x@), old(out)@, final(out)@, rw_exprs(exprs_view(v@), symbols@)),
    decreases v,
{
    proof {
        lemma_exprs_view(v@);
    }
    let ghost ev = exprs_view(v@);
    let mut res: Vec<Expr> = Vec::new();
    let mut i: usize = 0;
    assert(ev.take(0) =~= Seq::<ExprV>::empty());
    assert(props_of(out@) =~= props_of(old(out)@) + Seq::empty());
    while i < v.len()
        invariant
            i <= v.len(),
            ev == exprs_view(v@),
            ev.len() == v.len(),
            forall|k: int| 0 <= k < v.len() ==> #[trigger] ev[k] == expr_view(v@[k]),
            rw_exprs(ev.take(i as int), symbols@) matches Ok((a, ps)) && exprs_view(res@) == a
                && props_of(out@) == props_of(old(out)@) + ps,
        decreases v.len() - i,
    {
        assert(ev.take(i + 1).drop_last() =~= ev.take(i as int));
        match rewrite_expr(&v[i], symbols, out) {
            Ok(y) => {
                proof {
                    lemma_exprs_view_push(res@, y);
                }
                res.push(y);
                proof {
                    lemma_concat_assoc();
                }
            },
            Err(x) => {
                assert(rw_exprs(ev.take(i + 1), symbols@) == Err::<(Seq<ExprV>, Seq<FilterPropertyV>), RewriteErrorV>(x@));
                proof {
                    lemma_rw_exprs_err(ev, i + 1, symbols@);
                }
                return Err(x);
            },
        }
        i = i + 1;
    }
    assert(ev.take(v.len() as int) =~= ev);
    Ok(res)
}

/// Once a prefix fails, the whole sequence fails with the same error.
pub proof fn lemma_rw_exprs_err(s: Seq<ExprV>, n: int, ents: Seq<Seq<char>>)
    requires
        0 <= n <= s.len(),
        rw_exprs(s.take(n), ents) is Err,
    ensures
        rw_exprs(s, ents) == rw_exprs(s.take(n), ents),
    decreases s.len() - n,
{
    if n < s.len() {
        assert(s.take(n + 1).drop_last() =~= s.take(n));
        lemma_rw_exprs_err(s, n + 1, ents);
    } else {
        assert(s.take(n) =~= s);
    }
}

pub fn rewrite_stmts(v: &Vec<Stmt>, symbols: &Symbols, out: &mut Vec<FilterProperty>) -> (r: Result<Vec<Stmt>, RewriteError>)
    ensures
        outcome(r, |x: Vec<Stmt>| stmts_view(x@), old(out)@, final(out)@, rw_stmts(stmts_view(v@), symbols@)),
    decreases v,
{
    proof {
        lemma_stmts_view(v@);
    }
    let ghost ev = stmts_view(v@);
    let mut res: Vec<Stmt> = Vec::new();
    let mut i: usize = 0;
    assert(ev.take(0) =~= Seq::<StmtV>::empty());
    assert(props_of(out@) =~= props_of(old(out)@) + Seq::empty());
    while i < v.len()
        invariant
            i <= v.len(),
            ev == stmts_view(v@),
            ev.len() == v.len(),
            forall|k: int| 0 <= k < v.len() ==> #[trigger] ev[k] == stmt_view(v@[k]),
            rw_stmts(ev.take(i as int), symbols@) matches Ok((a, ps)) && stmts_view(res@) == a
                && props_of(out@) == props_of(old(out)@) + ps,
        decreases v.len() - i,
    {
        assert(ev.take(i + 1).drop_last() =~= ev.take(i as int));
        match rewrite_stmt(&v[i], symbols, out) {
            Ok(y) => {
                let ghost prev = res@;
                res.push(y);
                assert(res@.drop_last() =~= prev);
                proof {
                    lemma_concat_assoc();
                }
            },
            Err(x) => {
                assert(rw_stmts(ev.take(i + 1), symbols@) == Err::<(Seq<StmtV>, Seq<FilterPropertyV>), RewriteErrorV>(x@));
                proof {
                    lemma_rw_stmts_err(ev, i + 1, symbols@);
                }
                return Err(x);
            },
        }
        i = i + 1;
    }
    assert(ev.take(v.len() as int) =~= ev);
    Ok(res)
}

/// Once a prefix fails, the whole sequence fails with the same error.
pub proof fn lemma_rw_stmts_err(s: Seq<StmtV>, n: int, ents: Seq<Seq<char>>)
    requires
        0 <= n <= s.len(),
        rw_stmts(s.take(n), ents) is Err,
    ensures
        rw_stmts(s, ents) == rw_stmts(s.take(n), ents),
    decreases s.len() - n,
{
    if n < s.len() {
        assert(s.take(n + 1).drop_last() =~= s.take(n));
        lemma_rw_stmts_err(s, n + 1, ents);
    } else {
        assert(s.take(n) =~= s);
    }
}

pub fn rewrite_decls(v: &Vec<VarDeclarator>, symbols: &Symbols, out: &mut Vec<FilterProperty>) -> (r: Result<Vec<VarDeclarator>, RewriteError>)
    ensures
        outcome(r, |x: Vec<VarDeclarator>| decls_view(x@), old(out)@, final(out)@, rw_decls(decls_view(v@), symbols@)),
    decreases v,
{
    proof {
        lemma_decls_view(v@);
    }
    let ghost ev = decls_view(v@);
    let mut res: Vec<VarDeclarator> = Vec::new();
    let mut i: usize = 0;
    assert(ev.take(0) =~= Seq::<VarDeclaratorV>::empty());
    assert(props_of(out@) =~= props_of(old(out)@) + Seq::empty());
    while i < v.len()
        invariant
            i <= v.len(),
            ev == decls_view(v@),
            ev.len() == v.len(),
            forall|k: int| 0 <= k < v.len() ==> #[trigger] ev[k] == decl_view(v@[k]),
            rw_decls(ev.take(i as int), symbols@) matches Ok((a, ps)) && decls_view(res@) == a
                && props_of(out@) == props_of(old(out)@) + ps,
        decreases v.len() - i,
    {
        assert(ev.take(i + 1).drop_last() =~= ev.take(i as int));
        match rewrite_decl(&v[i], symbols, out) {
            Ok(y) => {
                let ghost prev = res@;
                res.push(y);
                assert(res@.drop_last() =~= prev);
                proof {
                    lemma_concat_assoc();
                }
            },
            Err(x) => {
                assert(rw_decls(ev.take(i + 1), symbols@) == Err::<(Seq<VarDeclaratorV>, Seq<FilterPropertyV>), RewriteErrorV>(x@));
                proof {
                    lemma_rw_decls_err(ev, i + 1, symbols@);
                }
                return Err(x);
            },
        }
        i = i + 1;
    }
    assert(ev.take(v.len() as int) =~= ev);
    Ok(res)
}

/// Once a prefix fails, the whole sequence fails with the same error.
pub proof fn lemma_rw_decls_err(s: Seq<VarDeclaratorV>, n: int, ents: Seq<Seq<char>>)
    requires
        0 <= n <= s.len(),
        rw_decls(s.take(n), ents) is Err,
    ensures
        rw_decls(s, ents) == rw_decls(s.take(n), ents),
    decreases s.len() - n,
{
    if n < s.len() {
        assert(s.take(n + 1).drop_last() =~= s.take(n));
        lemma_rw_decls_err(s, n + 1, ents);
    } else {
        assert(s.take(n) =~= s);
    }
}

pub fn rewrite_items(v: &Vec<ModuleItem>, symbols: &Symbols, out: &mut Vec<FilterProperty>) -> (r: Result<Vec<ModuleItem>, RewriteError>)
    ensures
        outcome(r, |x: Vec<ModuleItem>| items_view(x@), old(out)@, final(out)@, rw_module(items_view(v@), symbols@)),
    decreases v,
{
    proof {
        lemma_items_view(v@);
    }
    let ghost ev = items_view(v@);
    let mut res: Vec<ModuleItem> = Vec::new();
    let mut i: usize = 0;
    assert(ev.take(0) =~= Seq::<ModuleItemV>::empty());
    assert(props_of(out@) =~= props_of(old(out)@) + Seq::empty());
    while i < v.len()
        invariant
            i <= v.len(),
            ev == items_view(v@),
            ev.len() == v.len(),
            forall|k: int| 0 <= k < v.len() ==> #[trigger] ev[k] == item_view(v@[k]),
            rw_module(ev.take(i as int), symbols@) matches Ok((a, ps)) && items_view(res@) == a
                && props_of(out@) == props_of(old(out)@) + ps,
        decreases v.len() - i,
    {
        assert(ev.take(i + 1).drop_last() =~= ev.take(i as int));
        match rewrite_item(&v[i], symbols, out) {
            Ok(y) => {
                let ghost prev = res@;
                res.push(y);
                assert(res@.drop_last() =~= prev);
                proof {
                    lemma_concat_assoc();
                }
            },
            Err(x) => {
                assert(rw_module(ev.take(i + 1), symbols@) == Err::<(Seq<ModuleItemV>, Seq<FilterPropertyV>), RewriteErrorV>(x@));
                proof {
                    lemma_rw_module_err(ev, i + 1, symbols@);
                }
                return Err(x);
            },
        }
        i = i + 1;
    }
    assert(ev.take(v.len() as int) =~= ev);
    Ok(res)
}

/// Once a prefix fails, the whole sequence fails with the same error.
pub proof fn lemma_rw_module_err(s: Seq<ModuleItemV>, n: int, ents: Seq<Seq<char>>)
    requires
        0 <= n <= s.len(),
        rw_module(s.take(n), ents) is Err,
    ensures
        rw_module(s, ents) == rw_module(s.take(n), ents),
    decreases s.len() - n,
{
    if n < s.len() {
        assert(s.take(n + 1).drop_last() =~= s.take(n));
        lemma_rw_module_err(s, n + 1, ents);
    } else {
        assert(s.take(n) =~= s);
    }
}

pub fn rewrite_stmt(s: &Stmt, symbols: &Symbols, out: &mut Vec<FilterProperty>) -> (r: Result<Stmt, RewriteError>)
    ensures
        outcome(r, |x: Stmt| x@, old(out)@, final(out)@, rw_stmt(s@, symbols@)),
    decreases s,
{
    match s {
        Stmt::Expr(e) => match rewrite_expr(e, symbols, out) {
            Ok(e2) => Ok(Stmt::Expr(e2)),
            Err(x) => Err(x),
        },
        Stmt::Var { kind, decls } => match rewrite_decls(decls, symbols, out) {
            Ok(d2) => Ok(Stmt::Var { kind: *kind, decls: d2 }),
            Err(x) => Err(x),
        },
        Stmt::Other(t) => {
            assert(props_of(final(out)@) =~= props_of(old(out)@) + Seq::empty());
            Ok(Stmt::Other(t.clone()))
        },
    }
}

pub fn rewrite_decl(d: &VarDeclarator, symbols: &Symbols, out: &mut Vec<FilterProperty>) -> (r: Result<VarDeclarator, RewriteError>)
    ensures
        outcome(r, |x: VarDeclarator| decl_view(x), old(out)@, final(out)@, rw_decl(decl_view(*d), symbols@)),
    decreases d,
{
    match &d.init {
        None => {
            assert(props_of(final(out)@) =~= props_of(old(out)@) + Seq::empty());
            Ok(VarDeclarator { name: copy_pat(&d.name), init: None })
        },
        Some(e) => match rewrite_expr(e, symbols, out) {
            Ok(e2) => Ok(VarDeclarator { name: copy_pat(&d.name), init: Some(e2) }),
            Err(x) => Err(x),
        },
    }
}

pub fn rewrite_item(i: &ModuleItem, symbols: &Symbols, out: &mut Vec<FilterProperty>) -> (r: Result<ModuleItem, RewriteError>)
    ensures
        outcome(r, |x: ModuleItem| item_view(x), old(out)@, final(out)@, rw_item(item_view(*i), symbols@)),
{
    match i {
        ModuleItem::Stmt(s) => match rewrite_stmt(s, symbols, out) {
            Ok(s2) => Ok(ModuleItem::Stmt(s2)),
            Err(x) => Err(x),
        },
        ModuleItem::ExportDefaultFn { name, params, is_async, body } => match rewrite_stmts(body, symbols, out) {
            Ok(b2) => {
                let n2 = match name {
                    Some(n) => Some(n.clone()),
                    None => None,
                };
                Ok(ModuleItem::ExportDefaultFn { name: n2, params: copy_pats(params), is_async: *is_async, body: b2 })
            },
            Err(x) => Err(x),
        },
        ModuleItem::Other(t) => {
            assert(props_of(final(out)@) =~= props_of(old(out)@) + Seq::empty());
            Ok(ModuleItem::Other(t.clone()))
        },
    }
}

/// Rewrites `filter` and `find` calls on the queryable entities of
/// `symbols`, and collects the indexing records of what it rewrote.
pub struct Rewriter {
    pub symbols: Symbols,
    /// The records of every rewrite so far, in encounter order.
    pub indexes: Vec<FilterProperty>,
}

impl Rewriter {
    pub fn new(symbols: Symbols) -> (r: Rewriter)
        ensures
            r.symbols == symbols,
            r.indexes@.len() == 0,
    {
        Rewriter { symbols, indexes: Vec::new() }
    }

    /// Rewrites `module`. On success, the records of the module are appended
    /// to `indexes`; on failure no module comes back and `indexes` is left
    /// as it was.
    pub fn rewrite(&mut self, module: Module) -> (r: Result<Module, RewriteError>)
        ensures
            final(self).symbols == old(self).symbols,
            props_of(final(self).indexes@) == props_of(old(self).indexes@) + module_records(
                module@,
                old(self).symbols@,
            ),
            match rw_module(module@, old(self).symbols@) {
                Ok((m, _)) => r matches Ok(n) && n@ == m,
                Err(x) => r matches Err(y) && y@ == x && final(self).indexes@ == old(self).indexes@,
            },
    {
        let mut found: Vec<FilterProperty> = Vec::new();
        match rewrite_items(&module.body, &self.symbols, &mut found) {
            Ok(body) => {
                let ghost prev = self.indexes@;
                let ghost got = found@;
                self.indexes.append(&mut found);
                assert(props_of(self.indexes@) =~= props_of(prev) + props_of(got));
                Ok(Module { body })
            },
            Err(x) => {
                assert(props_of(self.indexes@) =~= props_of(self.indexes@) + Seq::empty());
                Err(x)
            },
        }
    }
}

} // verus!
