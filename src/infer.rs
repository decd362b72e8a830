//! Predicate inference: splits the body of a single-parameter closure into the
//! conjuncts that the query language can express (pure) and the rest (impure).
use crate::ast::{
    copy_expr, copy_lit, decl_view, decls_view, expr_view, exprs_view, lemma_decls_view,
    lemma_stmts_view, props_view, stmt_view, stmts_view, ArrowBody, ArrowBodyV, BinOp, Callee,
    CalleeV, Expr, ExprV, MemberProp, MemberPropV, Prop, PropV, Stmt, StmtV, VarDeclarator,
    VarDeclaratorV,
};
use crate::query::{props_of, FilterProperty, FilterPropertyV, QExpr, QExprV, QOp};
use vstd::string::StringExecFns;
use vstd::prelude::*;

verus! {

/// How far a predicate fragment can be expressed as a query.
#[derive(Clone, Copy, Debug, PartialEq, Eq, Structural)]
pub enum Purity {
    /// Built from the parameter, literals, property reads and the query operators.
    Pure,
    /// Anything else: calls, outer variables, other operators.
    Impure,
    /// A construct that may not appear in a predicate at all: a computed property.
    Unsupported,
}

/// The query operator that a JavaScript operator stands for.
pub open spec fn qop_of(op: BinOp) -> Option<QOp> {
    match op {
        BinOp::EqEq | BinOp::EqEqEq => Some(QOp::Eq),
        BinOp::NotEq | BinOp::NotEqEq => Some(QOp::NotEq),
        BinOp::Gt => Some(QOp::Gt),
        BinOp::GtEq => Some(QOp::GtEq),
        BinOp::Lt => Some(QOp::Lt),
        BinOp::LtEq => Some(QOp::LtEq),
        BinOp::LogicalAnd => Some(QOp::And),
        BinOp::LogicalOr => Some(QOp::Or),
        _ => None,
    }
}

pub fn query_op(op: BinOp) -> (r: Option<QOp>)
    ensures
        r == qop_of(op),
{
    match op {
        BinOp::EqEq | BinOp::EqEqEq => Some(QOp::Eq),
        BinOp::NotEq | BinOp::NotEqEq => Some(QOp::NotEq),
        BinOp::Gt => Some(QOp::Gt),
        BinOp::GtEq => Some(QOp::GtEq),
        BinOp::Lt => Some(QOp::Lt),
        BinOp::LtEq => Some(QOp::LtEq),
        BinOp::LogicalAnd => Some(QOp::And),
        BinOp::LogicalOr => Some(QOp::Or),
        _ => None,
    }
}

pub open spec fn combine(a: Purity, b: Purity) -> Purity {
    if a is Unsupported || b is Unsupported {
        Purity::Unsupported
    } else if a is Pure && b is Pure {
        Purity::Pure
    } else {
        Purity::Impure
    }
}

/// The purity of `e` in a closure whose parameter is `p`.
pub open spec fn purity(e: ExprV, p: Seq<char>) -> Purity
    decreases e,
{
    match e {
        ExprV::Binary { op, left, right } => if qop_of(op) is Some {
            combine(purity(*left, p), purity(*right, p))
        } else {
            Purity::Impure
        },
        ExprV::Member { obj, prop, optional } => match prop {
            MemberPropV::Computed(_) => Purity::Unsupported,
            MemberPropV::Ident(_) => match purity(*obj, p) {
                Purity::Unsupported => Purity::Unsupported,
                Purity::Pure => if optional {
                    Purity::Impure
                } else {
                    Purity::Pure
                },
                Purity::Impure => Purity::Impure,
            },
        },
        ExprV::Ident(n) => if n == p {
            Purity::Pure
        } else {
            Purity::Impure
        },
        ExprV::Lit(_) => Purity::Pure,
        _ => Purity::Impure,
    }
}

pub fn classify(e: &Expr, p: &String) -> (r: Purity)
    ensures
        r == purity(e@, p@),
    decreases e,
{
    match e {
        Expr::Binary { op, left, right } => {
            if query_op(*op).is_some() {
                let a = classify(left, p);
                let b = classify(right, p);
                if a == Purity::Unsupported || b == Purity::Unsupported {
                    Purity::Unsupported
                } else if a == Purity::Pure && b == Purity::Pure {
                    Purity::Pure
                } else {
                    Purity::Impure
                }
            } else {
                Purity::Impure
            }
        },
        Expr::Member { obj, prop, optional } => match prop {
            MemberProp::Computed(_) => Purity::Unsupported,
            MemberProp::Ident(_) => match classify(obj, p) {
                Purity::Unsupported => Purity::Unsupported,
                Purity::Pure => if *optional {
                    Purity::Impure
                } else {
                    Purity::Pure
                },
                Purity::Impure => Purity::Impure,
            },
        },
        Expr::Ident(n) => if *n == *p {
            Purity::Pure
        } else {
            Purity::Impure
        },
        Expr::Lit(_) => Purity::Pure,
        _ => Purity::Impure,
    }
}

/// The operands of a top-level chain of `&&`, left to right.
pub open spec fn conjuncts(e: ExprV) -> Seq<ExprV>
    decreases e,
{
    match e {
        ExprV::Binary { op: BinOp::LogicalAnd, left, right } => conjuncts(*left) + conjuncts(
            *right,
        ),
        _ => seq![e],
    }
}

/// The conjunction of a non-empty sequence, associated to the left as a
/// chain of `&&` is parsed.
pub open spec fn and_all(s: Seq<ExprV>) -> ExprV
    decreases s.len(),
{
    if s.len() <= 1 {
        s[0]
    } else {
        ExprV::Binary {
            op: BinOp::LogicalAnd,
            left: Box::new(and_all(s.drop_last())),
            right: Box::new(s.last()),
        }
    }
}

/// The elements of `s` that are pure, in order.
pub open spec fn pure_part(s: Seq<ExprV>, p: Seq<char>) -> Seq<ExprV>
    decreases s.len(),
{
    if s.len() == 0 {
        s
    } else if purity(s.last(), p) is Pure {
        pure_part(s.drop_last(), p).push(s.last())
    } else {
        pure_part(s.drop_last(), p)
    }
}

/// The elements of `s` that are not pure, in order.
pub open spec fn impure_part(s: Seq<ExprV>, p: Seq<char>) -> Seq<ExprV>
    decreases s.len(),
{
    if s.len() == 0 {
        s
    } else if purity(s.last(), p) is Pure {
        impure_part(s.drop_last(), p)
    } else {
        impure_part(s.drop_last(), p).push(s.last())
    }
}

pub open spec fn has_unsupported(s: Seq<ExprV>, p: Seq<char>) -> bool {
    exists|i: int| 0 <= i < s.len() && purity(#[trigger] s[i], p) is Unsupported
}

pub proof fn lemma_exprs_view(s: Seq<Expr>)
    ensures
        exprs_view(s).len() == s.len(),
        forall|i: int| 0 <= i < s.len() ==> #[trigger] exprs_view(s)[i] == expr_view(s[i]),
    decreases s.len(),
{
    if s.len() > 0 {
        lemma_exprs_view(s.drop_last());
    }
}

pub proof fn lemma_exprs_view_push(s: Seq<Expr>, e: Expr)
    ensures
        exprs_view(s.push(e)) == exprs_view(s).push(expr_view(e)),
{
    assert(s.push(e).drop_last() =~= s);
}

/// Appends a copy of each conjunct of `e` to `out`.
pub fn collect_conjuncts(e: &Expr, out: &mut Vec<Expr>)
    ensures
        exprs_view(final(out)@) == exprs_view(old(out)@) + conjuncts(e@),
    decreases e,
{
    match e {
        Expr::Binary { op: BinOp::LogicalAnd, left, right } => {
            collect_conjuncts(left, out);
            collect_conjuncts(right, out);
            assert(exprs_view(final(out)@) =~= exprs_view(old(out)@) + conjuncts(e@));
        },
        _ => {
            let c = copy_expr(e);
            proof {
                lemma_exprs_view_push(out@, c);
            }
            out.push(c);
            assert(exprs_view(final(out)@) =~= exprs_view(old(out)@) + conjuncts(e@));
        },
    }
}

/// The conjunction of the copies of the elements of `v`, associated to the left.
pub fn build_and(v: &Vec<Expr>) -> (r: Expr)
    requires
        v.len() > 0,
    ensures
        r@ == and_all(exprs_view(v@)),
{
    proof {
        lemma_exprs_view(v@);
    }
    let ghost ev = exprs_view(v@);
    let mut acc = copy_expr(&v[0]);
    assert(ev.take(1).len() == 1);
    let mut i: usize = 1;
    while i < v.len()
        invariant
            1 <= i <= v.len(),
            ev == exprs_view(v@),
            ev.len() == v.len(),
            forall|k: int| 0 <= k < v.len() ==> #[trigger] ev[k] == expr_view(v@[k]),
            acc@ == and_all(ev.take(i as int)),
        decreases v.len() - i,
    {
        let next = copy_expr(&v[i]);
        assert(ev.take(i + 1).drop_last() =~= ev.take(i as int));
        acc = Expr::Binary { op: BinOp::LogicalAnd, left: Box::new(acc), right: Box::new(next) };
        i = i + 1;
    }
    assert(ev.take(v.len() as int) =~= ev);
    acc
}

/// The conjuncts of a closure body, sorted into the pure and the impure ones.
pub struct Split {
    pub pure: Vec<Expr>,
    pub impure: Vec<Expr>,
}

/// Sorts the conjuncts of `body` by purity; `None` where one of them holds an
/// unsupported construct.
pub fn split_conjuncts(body: &Expr, p: &String) -> (r: Option<Split>)
    ensures
        has_unsupported(conjuncts(body@), p@) <==> r is None,
        r matches Some(s) ==> exprs_view(s.pure@) == pure_part(conjuncts(body@), p@)
            && exprs_view(s.impure@) == impure_part(conjuncts(body@), p@),
{
    let mut cs: Vec<Expr> = Vec::new();
    collect_conjuncts(body, &mut cs);
    let ghost cv = conjuncts(body@);
    assert(exprs_view(cs@) =~= cv);
    proof {
        lemma_exprs_view(cs@);
    }
    let mut pure: Vec<Expr> = Vec::new();
    let mut impure: Vec<Expr> = Vec::new();
    let mut i: usize = 0;
    while i < cs.len()
        invariant
            i <= cs.len(),
            cv == conjuncts(body@),
            cv.len() == cs.len(),
            forall|k: int| 0 <= k < cs.len() ==> #[trigger] cv[k] == expr_view(cs@[k]),
            !has_unsupported(cv.take(i as int), p@),
            exprs_view(pure@) == pure_part(cv.take(i as int), p@),
            exprs_view(impure@) == impure_part(cv.take(i as int), p@),
        decreases cs.len() - i,
    {
        let c = classify(&cs[i], p);
        assert(cv.take(i + 1).drop_last() =~= cv.take(i as int));
        assert(cv.take(i + 1).last() == cv[i as int]);
        if c == Purity::Unsupported {
            assert(cs@[i as int]@ == cv[i as int]);
            assert(purity(cv[i as int], p@) is Unsupported);
            assert(has_unsupported(cv, p@));
            return None;
        }
        let x = copy_expr(&cs[i]);
        if c == Purity::Pure {
            proof {
                lemma_exprs_view_push(pure@, x);
            }
            pure.push(x);
        } else {
            proof {
                lemma_exprs_view_push(impure@, x);
            }
            impure.push(x);
        }
        assert forall|k: int| 0 <= k < i + 1 implies !(purity(
            #[trigger] cv.take(i + 1)[k],
            p@,
        ) is Unsupported) by {
            if k < i {
                assert(cv.take(i + 1)[k] == cv.take(i as int)[k]);
            }
        }
        i = i + 1;
    }
    assert(cv.take(cs.len() as int) =~= cv);
    Some(Split { pure, impure })
}

/// The query expression of a pure fragment.
pub open spec fn to_query(e: ExprV) -> QExprV
    decreases e,
{
    match e {
        ExprV::Binary { op, left, right } => QExprV::Binary {
            left: Box::new(to_query(*left)),
            op: qop_of(op)->Some_0,
            right: Box::new(to_query(*right)),
        },
        ExprV::Member { obj, prop: MemberPropV::Ident(n), .. } => QExprV::PropertyAccess {
            object: Box::new(to_query(*obj)),
            property: n,
        },
        ExprV::Ident(n) => QExprV::Identifier(n),
        ExprV::Lit(l) => QExprV::Literal(l),
        _ => QExprV::Identifier(Seq::empty()),
    }
}

pub fn to_qexpr(e: &Expr, p: &String) -> (r: QExpr)
    requires
        purity(e@, p@) is Pure,
    ensures
        r@ == to_query(e@),
    decreases e,
{
    match e {
        Expr::Binary { op, left, right } => {
            let l = to_qexpr(left, p);
            let r = to_qexpr(right, p);
            match query_op(*op) {
                Some(q) => QExpr::Binary { left: Box::new(l), op: q, right: Box::new(r) },
                None => vstd::pervasive::unreached(),
            }
        },
        Expr::Member { obj, prop, .. } => match prop {
            MemberProp::Ident(n) => {
                let o = to_qexpr(obj, p);
                QExpr::PropertyAccess { object: Box::new(o), property: n.clone() }
            },
            MemberProp::Computed(_) => vstd::pervasive::unreached(),
        },
        Expr::Ident(n) => QExpr::Identifier(n.clone()),
        Expr::Lit(l) => QExpr::Literal(copy_lit(l)),
        _ => vstd::pervasive::unreached(),
    }
}

/// The dotted path of a chain of property reads on the parameter `p`.
pub open spec fn path_of(q: QExprV, p: Seq<char>) -> Option<Seq<char>>
    decreases q,
{
    match q {
        QExprV::PropertyAccess { object, property } => match *object {
            QExprV::Identifier(n) => if n == p {
                Some(property)
            } else {
                None
            },
            _ => match path_of(*object, p) {
                Some(base) => Some(base + "."@ + property),
                None => None,
            },
        },
        _ => None,
    }
}

/// One record for each comparison between a property path and a literal, in
/// either order, found under the connectives of `q`, left to right.
pub open spec fn field_props(q: QExprV, p: Seq<char>) -> Seq<FilterPropertyV>
    decreases q,
{
    match q {
        QExprV::Binary { left, op, right } => if !op.is_comparison() {
            field_props(*left, p) + field_props(*right, p)
        } else if path_of(*left, p) is Some && *right is Literal {
            seq![FilterPropertyV { field: path_of(*left, p)->Some_0, operator: op }]
        } else if *left is Literal && path_of(*right, p) is Some {
            seq![FilterPropertyV { field: path_of(*right, p)->Some_0, operator: op }]
        } else {
            Seq::empty()
        },
        _ => Seq::empty(),
    }
}

pub fn property_path(q: &QExpr, p: &String) -> (r: Option<String>)
    ensures
        r matches Some(s) ==> path_of(q@, p@) == Some(s@),
        r is None ==> path_of(q@, p@) is None,
    decreases q,
{
    match q {
        QExpr::PropertyAccess { object, property } => match &**object {
            QExpr::Identifier(n) => if *n == *p {
                assert((**object)@ == QExprV::Identifier(n@));
                Some(property.clone())
            } else {
                assert((**object)@ == QExprV::Identifier(n@));
                None
            },
            _ => match property_path(object, p) {
                Some(base) => {
                    let dotted = base.concat(".");
                    Some(dotted.concat(property.as_str()))
                },
                None => None,
            },
        },
        _ => None,
    }
}

/// Appends the indexing records of `q` to `out`.
pub fn collect_props(q: &QExpr, p: &String, out: &mut Vec<FilterProperty>)
    ensures
        props_of(final(out)@) == props_of(old(out)@) + field_props(q@, p@),
    decreases q,
{
    match q {
        QExpr::Binary { left, op, right } => {
            if *op == QOp::And || *op == QOp::Or {
                collect_props(left, p, out);
                collect_props(right, p, out);
                assert(props_of(final(out)@) =~= props_of(old(out)@) + field_props(q@, p@));
            } else {
                let lp = property_path(left, p);
                let rp = property_path(right, p);
                let l_lit = match &**left {
                    QExpr::Literal(_) => true,
                    _ => false,
                };
                let r_lit = match &**right {
                    QExpr::Literal(_) => true,
                    _ => false,
                };
                if lp.is_some() && r_lit {
                    out.push(FilterProperty { field: lp.unwrap(), operator: *op });
                    assert(props_of(final(out)@) =~= props_of(old(out)@) + field_props(q@, p@));
                } else if l_lit && rp.is_some() {
                    out.push(FilterProperty { field: rp.unwrap(), operator: *op });
                    assert(props_of(final(out)@) =~= props_of(old(out)@) + field_props(q@, p@));
                } else {
                    assert(props_of(final(out)@) =~= props_of(old(out)@) + field_props(q@, p@));
                }
            }
        },
        _ => {
            assert(props_of(final(out)@) =~= props_of(old(out)@) + field_props(q@, p@));
        },
    }
}

/// A non-empty sequence of pure fragments has a pure conjunction.
pub proof fn lemma_and_all_pure(s: Seq<ExprV>, p: Seq<char>)
    requires
        s.len() > 0,
        forall|i: int| 0 <= i < s.len() ==> purity(#[trigger] s[i], p) is Pure,
    ensures
        purity(and_all(s), p) is Pure,
    decreases s.len(),
{
    if s.len() > 1 {
        let d = s.drop_last();
        assert forall|i: int| 0 <= i < d.len() implies purity(#[trigger] d[i], p) is Pure by {
            assert(d[i] == s[i]);
        }
        lemma_and_all_pure(d, p);
        assert(purity(s.last(), p) is Pure);
    }
}

/// The pure part holds exactly the pure elements, the impure part the others.
pub proof fn lemma_parts(s: Seq<ExprV>, p: Seq<char>)
    ensures
        forall|i: int| 0 <= i < pure_part(s, p).len() ==> purity(#[trigger] pure_part(s, p)[i], p) is Pure,
        impure_part(s, p).len() == 0 ==> forall|i: int| 0 <= i < s.len() ==> purity(#[trigger] s[i], p) is Pure,
    decreases s.len(),
{
    if s.len() > 0 {
        let d = s.drop_last();
        lemma_parts(d, p);
        if impure_part(s, p).len() == 0 {
            assert forall|i: int| 0 <= i < s.len() implies purity(#[trigger] s[i], p) is Pure by {
                if i < d.len() {
                    assert(s[i] == d[i]);
                }
            }
        }
    }
}

/// A body whose conjuncts are all pure is pure.
pub proof fn lemma_conjuncts_pure(e: ExprV, p: Seq<char>)
    requires
        forall|i: int| 0 <= i < conjuncts(e).len() ==> purity(#[trigger] conjuncts(e)[i], p) is Pure,
    ensures
        purity(e, p) is Pure,
    decreases e,
{
    match e {
        ExprV::Binary { op: BinOp::LogicalAnd, left, right } => {
            let cl = conjuncts(*left);
            let cr = conjuncts(*right);
            assert forall|i: int| 0 <= i < cl.len() implies purity(#[trigger] cl[i], p) is Pure by {
                assert(conjuncts(e)[i] == cl[i]);
            }
            assert forall|i: int| 0 <= i < cr.len() implies purity(#[trigger] cr[i], p) is Pure by {
                assert(conjuncts(e)[cl.len() + i] == cr[i]);
            }
            lemma_conjuncts_pure(*left, p);
            lemma_conjuncts_pure(*right, p);
        },
        _ => {
            assert(conjuncts(e)[0] == e);
        },
    }
}

// ---------------------------------------------------------------------------
// Computed members anywhere in a predicate
/// Whether `e` holds a computed member `obj[expr]` anywhere, nested
/// functions included.
pub open spec fn has_computed(e: ExprV) -> bool
    decreases e,
{
    match e {
        ExprV::Member { obj, prop, .. } => prop is Computed || has_computed(*obj),
        ExprV::Binary { left, right, .. } => has_computed(*left) || has_computed(*right),
        ExprV::Call { callee, args, .. } => match callee {
            CalleeV::Expr(c) => has_computed(*c) || any_computed(args),
            _ => any_computed(args),
        },
        ExprV::Arrow { body, .. } => match body {
            ArrowBodyV::Expr(b) => has_computed(*b),
            ArrowBodyV::Block(stmts) => stmts_computed(stmts),
        },
        ExprV::Await(a) => has_computed(*a),
        ExprV::Object(ps) => props_computed(ps),
        _ => false,
    }
}

pub open spec fn any_computed(s: Seq<ExprV>) -> bool
    decreases s,
{
    if s.len() == 0 {
        false
    } else {
        any_computed(s.drop_last()) || has_computed(s.last())
    }
}

pub open spec fn props_computed(s: Seq<PropV>) -> bool
    decreases s,
{
    if s.len() == 0 {
        false
    } else {
        props_computed(s.drop_last()) || has_computed(s.last().value)
    }
}

pub open spec fn stmt_computed(s: StmtV) -> bool
    decreases s,
{
    match s {
        StmtV::Expr(e) => has_computed(e),
        StmtV::Var { decls, .. } => decls_computed(decls),
        StmtV::Other(_) => false,
    }
}

pub open spec fn stmts_computed(s: Seq<StmtV>) -> bool
    decreases s,
{
    if s.len() == 0 {
        false
    } else {
        stmts_computed(s.drop_last()) || stmt_computed(s.last())
    }
}

pub open spec fn decl_computed(d: VarDeclaratorV) -> bool
    decreases d,
{
    match d.init {
        Some(e) => has_computed(e),
        None => false,
    }
}

pub open spec fn decls_computed(s: Seq<VarDeclaratorV>) -> bool
    decreases s,
{
    if s.len() == 0 {
        false
    } else {
        decls_computed(s.drop_last()) || decl_computed(s.last())
    }
}

pub proof fn lemma_props_view(s: Seq<Prop>)
    ensures
        props_view(s).len() == s.len(),
        forall|i: int|
            0 <= i < s.len() ==> #[trigger] props_view(s)[i] == (PropV {
                key: s[i].key@,
                value: expr_view(s[i].value),
            }),
    decreases s.len(),
{
    if s.len() > 0 {
        lemma_props_view(s.drop_last());
    }
}

pub fn find_computed(e: &Expr) -> (r: bool)
    ensures
        r == has_computed(e@),
    decreases e,
{
    match e {
        Expr::Member { obj, prop, .. } => match prop {
            MemberProp::Computed(_) => true,
            MemberProp::Ident(_) => find_computed(obj),
        },
        Expr::Binary { left, right, .. } => find_computed(left) || find_computed(right),
        Expr::Call { callee, args, .. } => {
            let a = find_computed_in_exprs(args);
            match callee {
                Callee::Expr(c) => find_computed(c) || a,
                _ => a,
            }
        },
        Expr::Arrow { body, .. } => match body {
            ArrowBody::Expr(b) => find_computed(b),
            ArrowBody::Block(stmts) => find_computed_in_stmts(stmts),
        },
        Expr::Await(a) => find_computed(a),
        Expr::Object(ps) => find_computed_in_props(ps),
        _ => false,
    }
}

pub fn find_computed_in_exprs(v: &Vec<Expr>) -> (r: bool)
    ensures
        r == any_computed(exprs_view(v@)),
    decreases v,
{
    proof {
        lemma_exprs_view(v@);
    }
    let ghost ev = exprs_view(v@);
    let mut found = false;
    let mut i: usize = 0;
    while i < v.len()
        invariant
            i <= v.len(),
            ev == exprs_view(v@),
            ev.len() == v.len(),
            forall|k: int| 0 <= k < v.len() ==> #[trigger] ev[k] == expr_view(v@[k]),
            found == any_computed(ev.take(i as int)),
        decreases v.len() - i,
    {
        let c = find_computed(&v[i]);
        assert(ev.take(i + 1).drop_last() =~= ev.take(i as int));
        found = found || c;
        i = i + 1;
    }
    assert(ev.take(v.len() as int) =~= ev);
    found
}

pub fn find_computed_in_props(v: &Vec<Prop>) -> (r: bool)
    ensures
        r == props_computed(props_view(v@)),
    decreases v,
{
    proof {
        lemma_props_view(v@);
    }
    let ghost ev = props_view(v@);
    let mut found = false;
    let mut i: usize = 0;
    while i < v.len()
        invariant
            i <= v.len(),
            ev == props_view(v@),
            ev.len() == v.len(),
            forall|k: int| 0 <= k < v.len() ==> #[trigger] ev[k] == (PropV {
                key: v@[k].key@,
                value: expr_view(v@[k].value),
            }),
            found == props_computed(ev.take(i as int)),
        decreases v.len() - i,
    {
        let c = find_computed(&v[i].value);
        assert(ev.take(i + 1).drop_last() =~= ev.take(i as int));
        assert(ev.take(i + 1).last() == ev[i as int]);
        found = found || c;
        i = i + 1;
    }
    assert(ev.take(v.len() as int) =~= ev);
    found
}

pub fn find_computed_in_stmt(s: &Stmt) -> (r: bool)
    ensures
        r == stmt_computed(s@),
    decreases s,
{
    match s {
        Stmt::Expr(e) => find_computed(e),
        Stmt::Var { decls, .. } => find_computed_in_decls(decls),
        Stmt::Other(_) => false,
    }
}

pub fn find_computed_in_stmts(v: &Vec<Stmt>) -> (r: bool)
    ensures
        r == stmts_computed(stmts_view(v@)),
    decreases v,
{
    proof {
        lemma_stmts_view(v@);
    }
    let ghost ev = stmts_view(v@);
    let mut found = false;
    let mut i: usize = 0;
    while i < v.len()
        invariant
            i <= v.len(),
            ev == stmts_view(v@),
            ev.len() == v.len(),
            forall|k: int| 0 <= k < v.len() ==> #[trigger] ev[k] == stmt_view(v@[k]),
            found == stmts_computed(ev.take(i as int)),
        decreases v.len() - i,
    {
        let c = find_computed_in_stmt(&v[i]);
        assert(ev.take(i + 1).drop_last() =~= ev.take(i as int));
        found = found || c;
        i = i + 1;
    }
    assert(ev.take(v.len() as int) =~= ev);
    found
}

pub fn find_computed_in_decls(v: &Vec<VarDeclarator>) -> (r: bool)
    ensures
        r == decls_computed(decls_view(v@)),
    decreases v,
{
    proof {
        lemma_decls_view(v@);
    }
    let ghost ev = decls_view(v@);
    let mut found = false;
    let mut i: usize = 0;
    while i < v.len()
        invariant
            i <= v.len(),
            ev == decls_view(v@),
            ev.len() == v.len(),
            forall|k: int| 0 <= k < v.len() ==> #[trigger] ev[k] == decl_view(v@[k]),
            found == decls_computed(ev.take(i as int)),
        decreases v.len() - i,
    {
        let c = match &v[i].init {
            Some(e) => find_computed(e),
            None => false,
        };
        assert(ev.take(i + 1).drop_last() =~= ev.take(i as int));
        assert(decl_computed(ev[i as int]) == c);
        found = found || c;
        i = i + 1;
    }
    assert(ev.take(v.len() as int) =~= ev);
    found
}

} // verus!
