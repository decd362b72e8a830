//! The part of a JavaScript / TypeScript module that the rewriter reads and
//! writes, with a mathematical view of each node.
//!
//! Constructs that the rewriter never looks into are carried as `Other`,
//! holding their source text, and are passed through unchanged.
use vstd::prelude::*;

verus! {

/// Location of a node in the source text, as byte offsets.
#[derive(Clone, Copy, Debug, PartialEq, Eq, Structural)]
pub struct Span {
    pub lo: u32,
    pub hi: u32,
}

/// A JavaScript binary operator.
#[derive(Clone, Copy, Debug, PartialEq, Eq, Structural)]
pub enum BinOp {
    EqEq,
    NotEq,
    EqEqEq,
    NotEqEq,
    Lt,
    LtEq,
    Gt,
    GtEq,
    LShift,
    RShift,
    ZeroFillRShift,
    Add,
    Sub,
    Mul,
    Div,
    Mod,
    BitOr,
    BitXor,
    BitAnd,
    LogicalOr,
    LogicalAnd,
    In,
    InstanceOf,
    Exp,
    NullishCoalescing,
}

/// A literal; numbers keep their source text.
#[derive(Debug, PartialEq)]
pub enum Lit {
    Bool(bool),
    Str(String),
    Num(String),
}

/// A binding pattern: a plain name, or any other pattern as source text.
#[derive(Debug, PartialEq)]
pub enum Pat {
    Ident(String),
    Other(String),
}

/// What follows the object in a member expression.
#[derive(Debug, PartialEq)]
pub enum MemberProp {
    /// `obj.name`
    Ident(String),
    /// `obj[expr]`
    Computed(Box<Expr>),
}

/// What a call calls.
#[derive(Debug, PartialEq)]
pub enum Callee {
    Super,
    Import,
    Expr(Box<Expr>),
}

/// The body of an arrow function.
#[derive(Debug, PartialEq)]
pub enum ArrowBody {
    Block(Vec<Stmt>),
    Expr(Box<Expr>),
}

/// A `key: value` entry of an object literal.
#[derive(Debug, PartialEq)]
pub struct Prop {
    pub key: String,
    pub value: Expr,
}

#[derive(Debug, PartialEq)]
pub enum Expr {
    Ident(String),
    Lit(Lit),
    /// `obj.prop`, or `obj?.prop` when `optional`.
    Member { obj: Box<Expr>, prop: MemberProp, optional: bool },
    Binary { op: BinOp, left: Box<Expr>, right: Box<Expr> },
    Call { span: Span, callee: Callee, args: Vec<Expr> },
    Arrow { params: Vec<Pat>, body: ArrowBody },
    Await(Box<Expr>),
    Object(Vec<Prop>),
    Other(String),
}

#[derive(Clone, Copy, Debug, PartialEq, Eq, Structural)]
pub enum VarKind {
    Var,
    Let,
    Const,
}

#[derive(Debug, PartialEq)]
pub struct VarDeclarator {
    pub name: Pat,
    pub init: Option<Expr>,
}

#[derive(Debug, PartialEq)]
pub enum Stmt {
    Expr(Expr),
    Var { kind: VarKind, decls: Vec<VarDeclarator> },
    Other(String),
}

#[derive(Debug, PartialEq)]
pub enum ModuleItem {
    Stmt(Stmt),
    /// `export default function name(params) { body }`
    ExportDefaultFn { name: Option<String>, params: Vec<Pat>, is_async: bool, body: Vec<Stmt> },
    Other(String),
}

#[derive(Debug, PartialEq)]
pub struct Module {
    pub body: Vec<ModuleItem>,
}

// ---------------------------------------------------------------------------
// Views
pub enum LitV {
    Bool(bool),
    Str(Seq<char>),
    Num(Seq<char>),
}

pub enum PatV {
    Ident(Seq<char>),
    Other(Seq<char>),
}

pub enum MemberPropV {
    Ident(Seq<char>),
    Computed(Box<ExprV>),
}

pub enum CalleeV {
    Super,
    Import,
    Expr(Box<ExprV>),
}

pub enum ArrowBodyV {
    Block(Seq<StmtV>),
    Expr(Box<ExprV>),
}

pub struct PropV {
    pub key: Seq<char>,
    pub value: ExprV,
}

pub enum ExprV {
    Ident(Seq<char>),
    Lit(LitV),
    Member { obj: Box<ExprV>, prop: MemberPropV, optional: bool },
    Binary { op: BinOp, left: Box<ExprV>, right: Box<ExprV> },
    Call { span: Span, callee: CalleeV, args: Seq<ExprV> },
    Arrow { params: Seq<PatV>, body: ArrowBodyV },
    Await(Box<ExprV>),
    Object(Seq<PropV>),
    Other(Seq<char>),
}

pub struct VarDeclaratorV {
    pub name: PatV,
    pub init: Option<ExprV>,
}

pub enum StmtV {
    Expr(ExprV),
    Var { kind: VarKind, decls: Seq<VarDeclaratorV> },
    Other(Seq<char>),
}

pub enum ModuleItemV {
    Stmt(StmtV),
    ExportDefaultFn {
        name: Option<Seq<char>>,
        params: Seq<PatV>,
        is_async: bool,
        body: Seq<StmtV>,
    },
    Other(Seq<char>),
}

pub open spec fn lit_view(l: Lit) -> LitV {
    match l {
        Lit::Bool(b) => LitV::Bool(b),
        Lit::Str(s) => LitV::Str(s@),
        Lit::Num(s) => LitV::Num(s@),
    }
}

pub open spec fn pat_view(p: Pat) -> PatV {
    match p {
        Pat::Ident(s) => PatV::Ident(s@),
        Pat::Other(s) => PatV::Other(s@),
    }
}

pub open spec fn pats_view(s: Seq<Pat>) -> Seq<PatV> {
    s.map_values(|p: Pat| pat_view(p))
}

pub open spec fn expr_view(e: Expr) -> ExprV
    decreases e,
{
    match e {
        Expr::Ident(s) => ExprV::Ident(s@),
        Expr::Lit(l) => ExprV::Lit(lit_view(l)),
        Expr::Member { obj, prop, optional } => ExprV::Member {
            obj: Box::new(expr_view(*obj)),
            prop: match prop {
                MemberProp::Ident(s) => MemberPropV::Ident(s@),
                MemberProp::Computed(c) => MemberPropV::Computed(Box::new(expr_view(*c))),
            },
            optional,
        },
        Expr::Binary { op, left, right } => ExprV::Binary {
            op,
            left: Box::new(expr_view(*left)),
            right: Box::new(expr_view(*right)),
        },
        Expr::Call { span, callee, args } => ExprV::Call {
            span,
            callee: match callee {
                Callee::Super => CalleeV::Super,
                Callee::Import => CalleeV::Import,
                Callee::Expr(c) => CalleeV::Expr(Box::new(expr_view(*c))),
            },
            args: exprs_view(args@),
        },
        Expr::Arrow { params, body } => ExprV::Arrow {
            params: pats_view(params@),
            body: match body {
                ArrowBody::Block(b) => ArrowBodyV::Block(stmts_view(b@)),
                ArrowBody::Expr(x) => ArrowBodyV::Expr(Box::new(expr_view(*x))),
            },
        },
        Expr::Await(a) => ExprV::Await(Box::new(expr_view(*a))),
        Expr::Object(ps) => ExprV::Object(props_view(ps@)),
        Expr::Other(s) => ExprV::Other(s@),
    }
}

pub open spec fn exprs_view(s: Seq<Expr>) -> Seq<ExprV>
    decreases s,
{
    if s.len() == 0 {
        Seq::empty()
    } else {
        exprs_view(s.drop_last()).push(expr_view(s.last()))
    }
}

pub open spec fn props_view(s: Seq<Prop>) -> Seq<PropV>
    decreases s,
{
    if s.len() == 0 {
        Seq::empty()
    } else {
        props_view(s.drop_last()).push(PropV { key: s.last().key@, value: expr_view(s.last().value) })
    }
}

pub open spec fn stmt_view(s: Stmt) -> StmtV
    decreases s,
{
    match s {
        Stmt::Expr(e) => StmtV::Expr(expr_view(e)),
        Stmt::Var { kind, decls } => StmtV::Var { kind, decls: decls_view(decls@) },
        Stmt::Other(t) => StmtV::Other(t@),
    }
}

pub open spec fn stmts_view(s: Seq<Stmt>) -> Seq<StmtV>
    decreases s,
{
    if s.len() == 0 {
        Seq::empty()
    } else {
        stmts_view(s.drop_last()).push(stmt_view(s.last()))
    }
}

pub open spec fn decl_view(d: VarDeclarator) -> VarDeclaratorV
    decreases d,
{
    VarDeclaratorV {
        name: pat_view(d.name),
        init: match d.init {
            Some(e) => Some(expr_view(e)),
            None => None,
        },
    }
}

pub open spec fn decls_view(s: Seq<VarDeclarator>) -> Seq<VarDeclaratorV>
    decreases s,
{
    if s.len() == 0 {
        Seq::empty()
    } else {
        decls_view(s.drop_last()).push(decl_view(s.last()))
    }
}

pub open spec fn item_view(i: ModuleItem) -> ModuleItemV {
    match i {
        ModuleItem::Stmt(s) => ModuleItemV::Stmt(stmt_view(s)),
        ModuleItem::ExportDefaultFn { name, params, is_async, body } => ModuleItemV::ExportDefaultFn {
            name: match name {
                Some(n) => Some(n@),
                None => None,
            },
            params: pats_view(params@),
            is_async,
            body: stmts_view(body@),
        },
        ModuleItem::Other(t) => ModuleItemV::Other(t@),
    }
}

pub open spec fn items_view(s: Seq<ModuleItem>) -> Seq<ModuleItemV>
    decreases s.len(),
{
    if s.len() == 0 {
        Seq::empty()
    } else {
        items_view(s.drop_last()).push(item_view(s.last()))
    }
}

pub proof fn lemma_stmts_view(s: Seq<Stmt>)
    ensures
        stmts_view(s).len() == s.len(),
        forall|i: int| 0 <= i < s.len() ==> #[trigger] stmts_view(s)[i] == stmt_view(s[i]),
    decreases s.len(),
{
    if s.len() > 0 {
        lemma_stmts_view(s.drop_last());
    }
}

pub proof fn lemma_decls_view(s: Seq<VarDeclarator>)
    ensures
        decls_view(s).len() == s.len(),
        forall|i: int| 0 <= i < s.len() ==> #[trigger] decls_view(s)[i] == decl_view(s[i]),
    decreases s.len(),
{
    if s.len() > 0 {
        lemma_decls_view(s.drop_last());
    }
}

pub proof fn lemma_items_view(s: Seq<ModuleItem>)
    ensures
        items_view(s).len() == s.len(),
        forall|i: int| 0 <= i < s.len() ==> #[trigger] items_view(s)[i] == item_view(s[i]),
    decreases s.len(),
{
    if s.len() > 0 {
        lemma_items_view(s.drop_last());
    }
}

impl View for Lit {
    type V = LitV;

    open spec fn view(&self) -> LitV {
        lit_view(*self)
    }
}

impl View for Pat {
    type V = PatV;

    open spec fn view(&self) -> PatV {
        pat_view(*self)
    }
}

impl View for Expr {
    type V = ExprV;

    open spec fn view(&self) -> ExprV {
        expr_view(*self)
    }
}

impl View for Stmt {
    type V = StmtV;

    open spec fn view(&self) -> StmtV {
        stmt_view(*self)
    }
}

impl View for Module {
    type V = Seq<ModuleItemV>;

    open spec fn view(&self) -> Seq<ModuleItemV> {
        items_view(self.body@)
    }
}

// ---------------------------------------------------------------------------
// Deep copies
pub fn copy_string(s: &String) -> (r: String)
    ensures
        r@ == s@,
{
    s.clone()
}

pub fn copy_lit(l: &Lit) -> (r: Lit)
    ensures
        r@ == l@,
{
    match l {
        Lit::Bool(b) => Lit::Bool(*b),
        Lit::Str(s) => Lit::Str(s.clone()),
        Lit::Num(s) => Lit::Num(s.clone()),
    }
}

pub fn copy_pat(p: &Pat) -> (r: Pat)
    ensures
        r@ == p@,
{
    match p {
        Pat::Ident(s) => Pat::Ident(s.clone()),
        Pat::Other(s) => Pat::Other(s.clone()),
    }
}

pub fn copy_pats(v: &Vec<Pat>) -> (r: Vec<Pat>)
    ensures
        pats_view(r@) == pats_view(v@),
{
    let mut out: Vec<Pat> = Vec::new();
    let mut i: usize = 0;
    while i < v.len()
        invariant
            i <= v.len(),
            out@.len() == i,
            forall|k: int| 0 <= k < i ==> pat_view(#[trigger] out@[k]) == pat_view(v@[k]),
        decreases v.len() - i,
    {
        out.push(copy_pat(&v[i]));
        i = i + 1;
    }
    assert(pats_view(out@) =~= pats_view(v@));
    out
}

pub fn copy_expr(e: &Expr) -> (r: Expr)
    ensures
        r@ == e@,
    decreases e,
{
    match e {
        Expr::Ident(s) => Expr::Ident(s.clone()),
        Expr::Lit(l) => Expr::Lit(copy_lit(l)),
        Expr::Member { obj, prop, optional } => {
            let obj2 = copy_expr(obj);
            let prop2 = match prop {
                MemberProp::Ident(s) => MemberProp::Ident(s.clone()),
                MemberProp::Computed(c) => MemberProp::Computed(Box::new(copy_expr(c))),
            };
            Expr::Member { obj: Box::new(obj2), prop: prop2, optional: *optional }
        },
        Expr::Binary { op, left, right } => {
            let l = copy_expr(left);
            let r = copy_expr(right);
            Expr::Binary { op: *op, left: Box::new(l), right: Box::new(r) }
        },
        Expr::Call { span, callee, args } => {
            let c = match callee {
                Callee::Super => Callee::Super,
                Callee::Import => Callee::Import,
                Callee::Expr(x) => Callee::Expr(Box::new(copy_expr(x))),
            };
            let a = copy_exprs(args);
            Expr::Call { span: *span, callee: c, args: a }
        },
        Expr::Arrow { params, body } => {
            let p = copy_pats(params);
            let b = match body {
                ArrowBody::Block(stmts) => ArrowBody::Block(copy_stmts(stmts)),
                ArrowBody::Expr(x) => ArrowBody::Expr(Box::new(copy_expr(x))),
            };
            Expr::Arrow { params: p, body: b }
        },
        Expr::Await(a) => Expr::Await(Box::new(copy_expr(a))),
        Expr::Object(ps) => Expr::Object(copy_props(ps)),
        Expr::Other(s) => Expr::Other(s.clone()),
    }
}

pub fn copy_exprs(v: &Vec<Expr>) -> (r: Vec<Expr>)
    ensures
        exprs_view(r@) == exprs_view(v@),
    decreases v,
{
    let mut out: Vec<Expr> = Vec::new();
    let mut i: usize = 0;
    while i < v.len()
        invariant
            i <= v.len(),
            exprs_view(out@) == exprs_view(v@.take(i as int)),
        decreases v.len() - i,
    {
        let x = copy_expr(&v[i]);
        let ghost prev = out@;
        out.push(x);
        assert(out@.drop_last() =~= prev);
        assert(v@.take(i + 1).drop_last() =~= v@.take(i as int));
        i = i + 1;
    }
    assert(v@.take(v.len() as int) =~= v@);
    out
}

pub fn copy_props(v: &Vec<Prop>) -> (r: Vec<Prop>)
    ensures
        props_view(r@) == props_view(v@),
    decreases v,
{
    let mut out: Vec<Prop> = Vec::new();
    let mut i: usize = 0;
    while i < v.len()
        invariant
            i <= v.len(),
            props_view(out@) == props_view(v@.take(i as int)),
        decreases v.len() - i,
    {
        let x = Prop { key: v[i].key.clone(), value: copy_expr(&v[i].value) };
        let ghost prev = out@;
        out.push(x);
        assert(out@.drop_last() =~= prev);
        assert(v@.take(i + 1).drop_last() =~= v@.take(i as int));
        i = i + 1;
    }
    assert(v@.take(v.len() as int) =~= v@);
    out
}

pub fn copy_stmt(s: &Stmt) -> (r: Stmt)
    ensures
        r@ == s@,
    decreases s,
{
    match s {
        Stmt::Expr(e) => Stmt::Expr(copy_expr(e)),
        Stmt::Var { kind, decls } => Stmt::Var { kind: *kind, decls: copy_decls(decls) },
        Stmt::Other(t) => Stmt::Other(t.clone()),
    }
}

pub fn copy_stmts(v: &Vec<Stmt>) -> (r: Vec<Stmt>)
    ensures
        stmts_view(r@) == stmts_view(v@),
    decreases v,
{
    let mut out: Vec<Stmt> = Vec::new();
    let mut i: usize = 0;
    while i < v.len()
        invariant
            i <= v.len(),
            stmts_view(out@) == stmts_view(v@.take(i as int)),
        decreases v.len() - i,
    {
        let x = copy_stmt(&v[i]);
        let ghost prev = out@;
        out.push(x);
        assert(out@.drop_last() =~= prev);
        assert(v@.take(i + 1).drop_last() =~= v@.take(i as int));
        i = i + 1;
    }
    assert(v@.take(v.len() as int) =~= v@);
    out
}

pub fn copy_decls(v: &Vec<VarDeclarator>) -> (r: Vec<VarDeclarator>)
    ensures
        decls_view(r@) == decls_view(v@),
    decreases v,
{
    let mut out: Vec<VarDeclarator> = Vec::new();
    let mut i: usize = 0;
    while i < v.len()
        invariant
            i <= v.len(),
            decls_view(out@) == decls_view(v@.take(i as int)),
        decreases v.len() - i,
    {
        let init = match &v[i].init {
            Some(e) => Some(copy_expr(e)),
            None => None,
        };
        let x = VarDeclarator { name: copy_pat(&v[i].name), init };
        assert(decl_view(x) == decl_view(v@[i as int]));
        let ghost prev = out@;
        out.push(x);
        assert(out@.drop_last() =~= prev);
        assert(v@.take(i + 1).drop_last() =~= v@.take(i as int));
        i = i + 1;
    }
    assert(v@.take(v.len() as int) =~= v@);
    out
}

} // verus!
