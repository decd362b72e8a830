//! Properties that hold of every rewrite.
use crate::ast::{ArrowBodyV, BinOp, ExprV, LitV, MemberPropV, ModuleItemV, PropV};
use crate::codegen::{encode, entry, str_lit};
use crate::infer::{
    and_all, conjuncts, impure_part, lemma_and_all_pure, lemma_conjuncts_pure, lemma_parts, pure_part,
    purity, qop_of, to_query,
};
use crate::query::{FilterPropertyV, QExprV, QOp};
use crate::rewrite::{infer_spec, module_records, rw_module};
use vstd::prelude::*;

verus! {

/// The truth of `e` under JavaScript's `&&`, where `atom` gives the truth of
/// each operand that is not itself a conjunction.
pub open spec fn holds(e: ExprV, atom: spec_fn(ExprV) -> bool) -> bool
    decreases e,
{
    match e {
        ExprV::Binary { op: BinOp::LogicalAnd, left, right } => holds(*left, atom) && holds(
            *right,
            atom,
        ),
        _ => atom(e),
    }
}

/// Whether a record passes the closure `c` (an arrow function with an
/// expression body).
pub open spec fn passes(c: ExprV, atom: spec_fn(ExprV) -> bool) -> bool {
    match c {
        ExprV::Arrow { body: ArrowBodyV::Expr(b), .. } => holds(*b, atom),
        _ => true,
    }
}

/// Whether a record passes the residual closure, if there is one.
pub open spec fn passes_residual(c: Option<ExprV>, atom: spec_fn(ExprV) -> bool) -> bool {
    match c {
        Some(i) => passes(i, atom),
        None => true,
    }
}

pub open spec fn all_hold(s: Seq<ExprV>, atom: spec_fn(ExprV) -> bool) -> bool {
    forall|i: int| 0 <= i < s.len() ==> #[trigger] atom(s[i])
}

pub open spec fn is_and(e: ExprV) -> bool {
    e matches ExprV::Binary { op: BinOp::LogicalAnd, .. }
}

pub open spec fn no_and(s: Seq<ExprV>) -> bool {
    forall|i: int| 0 <= i < s.len() ==> !is_and(#[trigger] s[i])
}

proof fn lemma_holds_conjuncts(e: ExprV, atom: spec_fn(ExprV) -> bool)
    ensures
        holds(e, atom) == all_hold(conjuncts(e), atom),
        no_and(conjuncts(e)),
    decreases e,
{
    match e {
        ExprV::Binary { op: BinOp::LogicalAnd, left, right } => {
            lemma_holds_conjuncts(*left, atom);
            lemma_holds_conjuncts(*right, atom);
            let cl = conjuncts(*left);
            let cr = conjuncts(*right);
            let c = conjuncts(e);
            assert(c == cl + cr);
            assert forall|i: int| 0 <= i < c.len() implies !is_and(#[trigger] c[i]) by {
                if i < cl.len() {
                    assert(c[i] == cl[i]);
                } else {
                    assert(c[i] == cr[i - cl.len()]);
                }
            }
            if all_hold(c, atom) {
                assert forall|i: int| 0 <= i < cl.len() implies #[trigger] atom(cl[i]) by {
                    assert(c[i] == cl[i]);
                }
                assert forall|i: int| 0 <= i < cr.len() implies #[trigger] atom(cr[i]) by {
                    assert(c[cl.len() + i] == cr[i]);
                }
            }
            if all_hold(cl, atom) && all_hold(cr, atom) {
                assert forall|i: int| 0 <= i < c.len() implies #[trigger] atom(c[i]) by {
                    if i < cl.len() {
                        assert(c[i] == cl[i]);
                    } else {
                        assert(c[i] == cr[i - cl.len()]);
                    }
                }
            }
        },
        _ => {
            let c = conjuncts(e);
            assert(c[0] == e);
        },
    }
}

proof fn lemma_holds_and_all(s: Seq<ExprV>, atom: spec_fn(ExprV) -> bool)
    requires
        s.len() > 0,
        no_and(s),
    ensures
        holds(and_all(s), atom) == all_hold(s, atom),
    decreases s.len(),
{
    if s.len() == 1 {
        assert(!is_and(s[0]));
        assert(holds(s[0], atom) == atom(s[0]));
        if atom(s[0]) {
            assert forall|i: int| 0 <= i < s.len() implies #[trigger] atom(s[i]) by {
                assert(i == 0);
            }
        }
    } else {
        let d = s.drop_last();
        assert forall|i: int| 0 <= i < d.len() implies !is_and(#[trigger] d[i]) by {
            assert(d[i] == s[i]);
        }
        lemma_holds_and_all(d, atom);
        assert(!is_and(s[s.len() - 1]));
        assert(holds(s.last(), atom) == atom(s.last()));
        if all_hold(s, atom) {
            assert forall|i: int| 0 <= i < d.len() implies #[trigger] atom(d[i]) by {
                assert(d[i] == s[i]);
            }
            assert(atom(s[s.len() - 1]));
        }
        if all_hold(d, atom) && atom(s.last()) {
            assert forall|i: int| 0 <= i < s.len() implies #[trigger] atom(s[i]) by {
                if i < d.len() {
                    assert(d[i] == s[i]);
                }
            }
        }
    }
}

proof fn lemma_parts_hold(s: Seq<ExprV>, p: Seq<char>, atom: spec_fn(ExprV) -> bool)
    requires
        no_and(s),
    ensures
        all_hold(s, atom) == (all_hold(pure_part(s, p), atom) && all_hold(impure_part(s, p), atom)),
        no_and(pure_part(s, p)),
        no_and(impure_part(s, p)),
    decreases s.len(),
{
    if s.len() > 0 {
        let d = s.drop_last();
        assert forall|i: int| 0 <= i < d.len() implies !is_and(#[trigger] d[i]) by {
            assert(d[i] == s[i]);
        }
        lemma_parts_hold(d, p, atom);
        let pd = pure_part(d, p);
        let id = impure_part(d, p);
        let x = s.last();
        assert(!is_and(s[s.len() - 1]));
        if purity(x, p) is Pure {
            let ps = pd.push(x);
            assert(pure_part(s, p) == ps);
            assert forall|i: int| 0 <= i < ps.len() implies !is_and(#[trigger] ps[i]) by {
                if i < pd.len() {
                    assert(ps[i] == pd[i]);
                }
            }
            if all_hold(pd, atom) && atom(x) {
                assert forall|i: int| 0 <= i < ps.len() implies #[trigger] atom(ps[i]) by {
                    if i < pd.len() {
                        assert(ps[i] == pd[i]);
                    }
                }
            }
            if all_hold(ps, atom) {
                assert forall|i: int| 0 <= i < pd.len() implies #[trigger] atom(pd[i]) by {
                    assert(ps[i] == pd[i]);
                }
                assert(atom(ps[pd.len() as int]));
            }
        } else {
            let is = id.push(x);
            assert(impure_part(s, p) == is);
            assert forall|i: int| 0 <= i < is.len() implies !is_and(#[trigger] is[i]) by {
                if i < id.len() {
                    assert(is[i] == id[i]);
                }
            }
            if all_hold(id, atom) && atom(x) {
                assert forall|i: int| 0 <= i < is.len() implies #[trigger] atom(is[i]) by {
                    if i < id.len() {
                        assert(is[i] == id[i]);
                    }
                }
            }
            if all_hold(is, atom) {
                assert forall|i: int| 0 <= i < id.len() implies #[trigger] atom(id[i]) by {
                    assert(is[i] == id[i]);
                }
                assert(atom(is[id.len() as int]));
            }
        }
        if all_hold(s, atom) {
            assert forall|i: int| 0 <= i < d.len() implies #[trigger] atom(d[i]) by {
                assert(d[i] == s[i]);
            }
        }
        if all_hold(d, atom) && atom(x) {
            assert forall|i: int| 0 <= i < s.len() implies #[trigger] atom(s[i]) by {
                if i < d.len() {
                    assert(d[i] == s[i]);
                }
            }
        }
    }
}

/// The closure argument of a call.
pub open spec fn predicate_of(e: ExprV) -> ExprV {
    e->Call_args[0]
}

/// For one record: where inference rewrites a call, the record passes the
/// original closure exactly when it passes the pure closure and then the
/// residual one, whatever each operand of `&&` evaluates to on it.
pub proof fn law_split_pointwise(e: ExprV, ents: Seq<Seq<char>>, atom: spec_fn(ExprV) -> bool)
    requires
        infer_spec(e, ents) is Inferred,
    ensures
        passes(predicate_of(e), atom) == (passes(infer_spec(e, ents)->Inferred_0.pure, atom)
            && passes_residual(infer_spec(e, ents)->Inferred_0.impure, atom)),
{
    let f = infer_spec(e, ents)->Inferred_0;
    let arg = predicate_of(e);
    let b = arg->Arrow_body->Expr_0;
    let p = (arg->Arrow_params)[0]->Ident_0;
    let cs = conjuncts(*b);
    lemma_holds_conjuncts(*b, atom);
    lemma_parts_hold(cs, p, atom);
    let pc = pure_part(cs, p);
    let ic = impure_part(cs, p);
    if ic.len() > 0 {
        lemma_holds_and_all(pc, atom);
        lemma_holds_and_all(ic, atom);
    }
}

/// Over any set of records, the pure closure followed
/// by the residual one selects exactly what the original closure selects.
/// `truth(r, x)` is what an operand `x` of `&&` evaluates to on record `r`.
pub proof fn law_split_preserves_selection<R>(
    e: ExprV,
    ents: Seq<Seq<char>>,
    records: Set<R>,
    truth: spec_fn(R, ExprV) -> bool,
)
    requires
        infer_spec(e, ents) is Inferred,
    ensures
        records.filter(|r: R| passes(predicate_of(e), |x: ExprV| truth(r, x))) == records.filter(
            |r: R| passes(infer_spec(e, ents)->Inferred_0.pure, |x: ExprV| truth(r, x)),
        ).filter(
            |r: R| passes_residual(infer_spec(e, ents)->Inferred_0.impure, |x: ExprV| truth(r, x)),
        ),
{
    let f = infer_spec(e, ents)->Inferred_0;
    let lhs = records.filter(|r: R| passes(predicate_of(e), |x: ExprV| truth(r, x)));
    let rhs = records.filter(|r: R| passes(f.pure, |x: ExprV| truth(r, x))).filter(
        |r: R| passes_residual(f.impure, |x: ExprV| truth(r, x)),
    );
    assert forall|r: R| lhs.contains(r) <==> rhs.contains(r) by {
        law_split_pointwise(e, ents, |x: ExprV| truth(r, x));
    }
    assert(lhs =~= rhs);
}

/// The value of a query expression, where `record` is the value the
/// parameter `p` is bound to, `get` reads a property of a value, `lit` gives a
/// literal's value and `apply` applies an operator. Other identifiers have
/// the value `free`.
pub open spec fn eval_query<V>(
    q: QExprV,
    p: Seq<char>,
    record: V,
    free: V,
    get: spec_fn(V, Seq<char>) -> V,
    lit: spec_fn(LitV) -> V,
    apply: spec_fn(QOp, V, V) -> V,
) -> V
    decreases q,
{
    match q {
        QExprV::Binary { left, op, right } => apply(
            op,
            eval_query(*left, p, record, free, get, lit, apply),
            eval_query(*right, p, record, free, get, lit, apply),
        ),
        QExprV::PropertyAccess { object, property } => get(
            eval_query(*object, p, record, free, get, lit, apply),
            property,
        ),
        QExprV::Identifier(n) => if n == p {
            record
        } else {
            free
        },
        QExprV::Literal(l) => lit(l),
    }
}

/// The value of a pure JavaScript fragment, read with the same
/// interpretation as `eval_query`.
pub open spec fn eval_fragment<V>(
    e: ExprV,
    p: Seq<char>,
    record: V,
    free: V,
    get: spec_fn(V, Seq<char>) -> V,
    lit: spec_fn(LitV) -> V,
    apply: spec_fn(QOp, V, V) -> V,
) -> V
    decreases e,
{
    match e {
        ExprV::Binary { op, left, right } => apply(
            qop_of(op)->Some_0,
            eval_fragment(*left, p, record, free, get, lit, apply),
            eval_fragment(*right, p, record, free, get, lit, apply),
        ),
        ExprV::Member { obj, prop: MemberPropV::Ident(n), .. } => get(
            eval_fragment(*obj, p, record, free, get, lit, apply),
            n,
        ),
        ExprV::Ident(n) => if n == p {
            record
        } else {
            free
        },
        ExprV::Lit(l) => lit(l),
        _ => free,
    }
}

/// A pure fragment and its query expression have the same value under any
/// interpretation of properties, literals and operators.
pub proof fn law_query_matches_fragment<V>(
    e: ExprV,
    p: Seq<char>,
    record: V,
    free: V,
    get: spec_fn(V, Seq<char>) -> V,
    lit: spec_fn(LitV) -> V,
    apply: spec_fn(QOp, V, V) -> V,
)
    requires
        purity(e, p) is Pure,
    ensures
        eval_query(to_query(e), p, record, free, get, lit, apply) == eval_fragment(
            e,
            p,
            record,
            free,
            get,
            lit,
            apply,
        ),
    decreases e,
{
    match e {
        ExprV::Binary { op, left, right } => {
            law_query_matches_fragment(*left, p, record, free, get, lit, apply);
            law_query_matches_fragment(*right, p, record, free, get, lit, apply);
        },
        ExprV::Member { obj, .. } => {
            law_query_matches_fragment(*obj, p, record, free, get, lit, apply);
        },
        _ => {},
    }
}

/// Where inference rewrites a call, the query expression it hands to
/// `__filter` has, for every record, the value of the body of the fallback
/// closure handed beside it.
pub proof fn law_query_matches_fallback<V>(
    e: ExprV,
    ents: Seq<Seq<char>>,
    record: V,
    free: V,
    get: spec_fn(V, Seq<char>) -> V,
    lit: spec_fn(LitV) -> V,
    apply: spec_fn(QOp, V, V) -> V,
)
    requires
        infer_spec(e, ents) is Inferred,
    ensures
        infer_spec(e, ents)->Inferred_0.pure matches ExprV::Arrow { body: ArrowBodyV::Expr(b), .. }
            && eval_query(
            infer_spec(e, ents)->Inferred_0.predicate,
            infer_spec(e, ents)->Inferred_0.parameters[0],
            record,
            free,
            get,
            lit,
            apply,
        ) == eval_fragment(
            *b,
            infer_spec(e, ents)->Inferred_0.parameters[0],
            record,
            free,
            get,
            lit,
            apply,
        ),
{
    let arg = predicate_of(e);
    let b = arg->Arrow_body->Expr_0;
    let p = (arg->Arrow_params)[0]->Ident_0;
    let cs = conjuncts(*b);
    lemma_parts(cs, p);
    if impure_part(cs, p).len() == 0 {
        lemma_conjuncts_pure(*b, p);
        law_query_matches_fragment(*b, p, record, free, get, lit, apply);
    } else {
        lemma_and_all_pure(pure_part(cs, p), p);
        law_query_matches_fragment(and_all(pure_part(cs, p)), p, record, free, get, lit, apply);
    }
}

/// The records that a rewrite appends to `indexes` (see `Rewriter::rewrite`)
/// depend on the module and the queryable entities alone: two rewriters,
/// whatever records they already hold, append the same records in the same
/// order when they rewrite the same module, and a rewriter that rewrites a
/// module twice holds those records twice, the older ones kept.
pub proof fn law_rewrite_repeatable(
    first: Seq<FilterPropertyV>,
    second: Seq<FilterPropertyV>,
    m: Seq<ModuleItemV>,
    ents: Seq<Seq<char>>,
)
    ensures
        (first + module_records(m, ents)).subrange(
            first.len() as int,
            (first.len() + module_records(m, ents).len()) as int,
        ) == (second + module_records(m, ents)).subrange(
            second.len() as int,
            (second.len() + module_records(m, ents).len()) as int,
        ),
        (first + module_records(m, ents)) + module_records(m, ents) == first + (module_records(
            m,
            ents,
        ) + module_records(m, ents)),
        rw_module(m, ents) is Err ==> first + module_records(m, ents) == first,
{
    let l = module_records(m, ents);
    assert((first + l).subrange(first.len() as int, (first.len() + l.len()) as int) =~= l);
    assert((second + l).subrange(second.len() as int, (second.len() + l.len()) as int) =~= l);
    assert((first + l) + l =~= first + (l + l));
    if rw_module(m, ents) is Err {
        assert(first + l =~= first);
    }
}

/// Whether `e` holds, at any depth, an encoded identifier named `n`.
pub open spec fn names_identifier(e: ExprV, n: Seq<char>) -> bool
    decreases e,
{
    match e {
        ExprV::Object(ps) => (ps.len() == 2 && ps[0] == entry("exprType"@, str_lit("Identifier"@))
            && ps[1] == entry("ident"@, str_lit(n))) || entries_name_identifier(ps, n),
        _ => false,
    }
}

pub open spec fn entries_name_identifier(ps: Seq<PropV>, n: Seq<char>) -> bool
    decreases ps,
{
    if ps.len() == 0 {
        false
    } else {
        entries_name_identifier(ps.drop_last(), n) || names_identifier(ps.last().value, n)
    }
}

/// The encoded parameter: `{exprType: "Parameter", position: 0}`.
pub open spec fn parameter_node() -> ExprV {
    ExprV::Object(
        seq![
            entry("exprType"@, str_lit("Parameter"@)),
            entry("position"@, ExprV::Lit(LitV::Num("0"@))),
        ],
    )
}

proof fn lemma_entries_4(a: PropV, b: PropV, c: PropV, d: PropV, n: Seq<char>)
    ensures
        entries_name_identifier(seq![a, b, c, d], n) == (names_identifier(a.value, n)
            || names_identifier(b.value, n) || names_identifier(c.value, n) || names_identifier(
            d.value,
            n,
        )),
{
    reveal_with_fuel(entries_name_identifier, 5);
    let s = seq![a, b, c, d];
    assert(s.last() == d);
    assert(seq![a, b, c].last() == c);
    assert(seq![a, b].last() == b);
    assert(seq![a].last() == a);
    assert(s.drop_last() =~= seq![a, b, c]);
    assert(seq![a, b, c].drop_last() =~= seq![a, b]);
    assert(seq![a, b].drop_last() =~= seq![a]);
    assert(seq![a].drop_last() =~= Seq::<PropV>::empty());
}

proof fn lemma_entries_3(a: PropV, b: PropV, c: PropV, n: Seq<char>)
    ensures
        entries_name_identifier(seq![a, b, c], n) == (names_identifier(a.value, n)
            || names_identifier(b.value, n) || names_identifier(c.value, n)),
{
    reveal_with_fuel(entries_name_identifier, 4);
    assert(seq![a, b, c].last() == c);
    assert(seq![a, b].last() == b);
    assert(seq![a].last() == a);
    assert(seq![a, b, c].drop_last() =~= seq![a, b]);
    assert(seq![a, b].drop_last() =~= seq![a]);
    assert(seq![a].drop_last() =~= Seq::<PropV>::empty());
}

proof fn lemma_entries_2(a: PropV, b: PropV, n: Seq<char>)
    ensures
        entries_name_identifier(seq![a, b], n) == (names_identifier(a.value, n)
            || names_identifier(b.value, n)),
{
    reveal_with_fuel(entries_name_identifier, 3);
    assert(seq![a, b].last() == b);
    assert(seq![a].last() == a);
    assert(seq![a, b].drop_last() =~= seq![a]);
    assert(seq![a].drop_last() =~= Seq::<PropV>::empty());
}

/// The closure's parameter is encoded as
/// `{exprType: "Parameter", position: 0}`, and no encoded query names it as
/// an identifier.
pub proof fn law_parameter_identity(q: QExprV, p: Seq<char>)
    ensures
        encode(QExprV::Identifier(p), p) == parameter_node(),
        !names_identifier(encode(q, p), p),
    decreases q,
{
    reveal_strlit("Identifier");
    reveal_strlit("Literal");
    reveal_strlit("Parameter");
    match q {
        QExprV::Binary { left, op, right } => {
            law_parameter_identity(*left, p);
            law_parameter_identity(*right, p);
            lemma_entries_4(
                entry("exprType"@, str_lit("Binary"@)),
                entry("left"@, encode(*left, p)),
                entry("op"@, str_lit(op.name_spec())),
                entry("right"@, encode(*right, p)),
                p,
            );
        },
        QExprV::PropertyAccess { object, property } => {
            law_parameter_identity(*object, p);
            lemma_entries_3(
                entry("exprType"@, str_lit("Property"@)),
                entry("object"@, encode(*object, p)),
                entry("property"@, str_lit(property)),
                p,
            );
        },
        QExprV::Identifier(n) => {
            if n == p {
                lemma_entries_2(
                    entry("exprType"@, str_lit("Parameter"@)),
                    entry("position"@, ExprV::Lit(LitV::Num("0"@))),
                    p,
                );
                assert("Parameter"@[0] != "Identifier"@[0]);
            } else {
                lemma_entries_2(
                    entry("exprType"@, str_lit("Identifier"@)),
                    entry("ident"@, str_lit(n)),
                    p,
                );
            }
        },
        QExprV::Literal(l) => {
            lemma_entries_2(
                entry("exprType"@, str_lit("Literal"@)),
                entry("value"@, ExprV::Lit(l)),
                p,
            );
            assert("Literal"@[0] != "Identifier"@[0]);
        },
    }
}

} // verus!
