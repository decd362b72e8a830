//! The query expression model: the pure part of a predicate as a tree that a
//! storage engine can evaluate, and the records that describe how fields are
//! compared.
use crate::ast::{Lit, LitV};
use vstd::prelude::*;
use vstd::string::StringExecFns;

verus! {

/// The binary operators of the query language.
#[derive(Clone, Copy, Debug, PartialEq, Eq, Structural)]
pub enum QOp {
    And,
    Or,
    Eq,
    NotEq,
    Gt,
    GtEq,
    Lt,
    LtEq,
}

impl QOp {
    /// The operator's name in the encoded query.
    pub open spec fn name_spec(self) -> Seq<char> {
        match self {
            QOp::And => "And"@,
            QOp::Or => "Or"@,
            QOp::Eq => "Eq"@,
            QOp::NotEq => "NotEq"@,
            QOp::Gt => "Gt"@,
            QOp::GtEq => "GtEq"@,
            QOp::Lt => "Lt"@,
            QOp::LtEq => "LtEq"@,
        }
    }

    pub fn name(&self) -> (r: &'static str)
        ensures
            r@ == self.name_spec(),
    {
        match self {
            QOp::And => "And",
            QOp::Or => "Or",
            QOp::Eq => "Eq",
            QOp::NotEq => "NotEq",
            QOp::Gt => "Gt",
            QOp::GtEq => "GtEq",
            QOp::Lt => "Lt",
            QOp::LtEq => "LtEq",
        }
    }

    /// A comparison, as opposed to a logical connective.
    pub open spec fn is_comparison(self) -> bool {
        !(self is And) && !(self is Or)
    }
}

/// A query expression.
#[derive(Debug, PartialEq)]
pub enum QExpr {
    Binary { left: Box<QExpr>, op: QOp, right: Box<QExpr> },
    PropertyAccess { object: Box<QExpr>, property: String },
    Identifier(String),
    Literal(Lit),
}

pub enum QExprV {
    Binary { left: Box<QExprV>, op: QOp, right: Box<QExprV> },
    PropertyAccess { object: Box<QExprV>, property: Seq<char> },
    Identifier(Seq<char>),
    Literal(LitV),
}

pub open spec fn qexpr_view(q: QExpr) -> QExprV
    decreases q,
{
    match q {
        QExpr::Binary { left, op, right } => QExprV::Binary {
            left: Box::new(qexpr_view(*left)),
            op,
            right: Box::new(qexpr_view(*right)),
        },
        QExpr::PropertyAccess { object, property } => QExprV::PropertyAccess {
            object: Box::new(qexpr_view(*object)),
            property: property@,
        },
        QExpr::Identifier(n) => QExprV::Identifier(n@),
        QExpr::Literal(l) => QExprV::Literal(l@),
    }
}

impl View for QExpr {
    type V = QExprV;

    open spec fn view(&self) -> QExprV {
        qexpr_view(*self)
    }
}

/// One comparison of a field that a predicate makes: a hint for indexing.
#[derive(Debug, PartialEq)]
pub struct FilterProperty {
    pub field: String,
    pub operator: QOp,
}

pub struct FilterPropertyV {
    pub field: Seq<char>,
    pub operator: QOp,
}

impl View for FilterProperty {
    type V = FilterPropertyV;

    open spec fn view(&self) -> FilterPropertyV {
        FilterPropertyV { field: self.field@, operator: self.operator }
    }
}

pub open spec fn props_of(v: Seq<FilterProperty>) -> Seq<FilterPropertyV> {
    v.map_values(|p: FilterProperty| p@)
}

/// The output encoding of a rewrite.
#[derive(Clone, Copy, Debug, PartialEq, Eq, Structural)]
pub enum Target {
    /// JavaScript with query expressions.
    JavaScript,
    /// TypeScript with query expressions.
    TypeScript,
    /// The fields and operators used in `filter` calls, as JSON.
    FilterProperties,
}

/// An output selector that names no target.
#[derive(Debug, PartialEq)]
pub struct TargetParseError {
    pub selector: String,
}

/// The target that a selector names, if any.
pub open spec fn target_of(s: Seq<char>) -> Option<Target> {
    if s == "js"@ {
        Some(Target::JavaScript)
    } else if s == "ts"@ {
        Some(Target::TypeScript)
    } else if s == "filter-properties"@ {
        Some(Target::FilterProperties)
    } else {
        None
    }
}

/// Whether `s` holds the characters of `lit`.
pub fn string_is(s: &String, lit: &str) -> (r: bool)
    ensures
        r == (s@ == lit@),
{
    let l = String::from_str(lit);
    *s == l
}

impl Target {
    pub fn parse(selector: &str) -> (r: Result<Target, TargetParseError>)
        ensures
            match target_of(selector@) {
                Some(t) => r == Ok::<Target, TargetParseError>(t),
                None => r is Err && r->Err_0.selector@ == selector@,
            },
    {
        let s = String::from_str(selector);
        if string_is(&s, "js") {
            Ok(Target::JavaScript)
        } else if string_is(&s, "ts") {
            Ok(Target::TypeScript)
        } else if string_is(&s, "filter-properties") {
            Ok(Target::FilterProperties)
        } else {
            Err(TargetParseError { selector: s })
        }
    }
}

impl std::str::FromStr for Target {
    type Err = TargetParseError;

    fn from_str(selector: &str) -> (r: Result<Target, TargetParseError>)
        ensures
            match target_of(selector@) {
                Some(t) => r == Ok::<Target, TargetParseError>(t),
                None => r is Err && r->Err_0.selector@ == selector@,
            },
    {
        Target::parse(selector)
    }
}

} // verus!
