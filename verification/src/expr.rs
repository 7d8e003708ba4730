//! Expression tree model: semantic literal values, expression nodes, and
//! their canonical textual rendering.

use vstd::prelude::*;
use vstd::string::StringExecFns;
use crate::token::{Literal, LiteralModel, Token, TokenModel, TokenType};

verus! {

/// A semantic constant carried by a `Literal` expression node. A number
/// holds the numeral text it was written with (a digit run, optionally `.`
/// and a digit run); the backend converts it to a machine float when the
/// constant is emitted.
#[derive(Clone, Debug)]
pub enum LiteralValue {
    Number(String),
    StringValue(String),
    True,
    False,
    Nil,
}

/// Mathematical model of a `LiteralValue`.
pub enum LiteralValueModel {
    Number(Seq<char>),
    StringValue(Seq<char>),
    True,
    False,
    Nil,
}

pub open spec fn literal_value_model(v: LiteralValue) -> LiteralValueModel {
    match v {
        LiteralValue::Number(s) => LiteralValueModel::Number(s@),
        LiteralValue::StringValue(s) => LiteralValueModel::StringValue(s@),
        LiteralValue::True => LiteralValueModel::True,
        LiteralValue::False => LiteralValueModel::False,
        LiteralValue::Nil => LiteralValueModel::Nil,
    }
}

impl PartialEq for LiteralValue {
    /// Structural equality of semantic constants.
    fn eq(&self, other: &LiteralValue) -> (r: bool) {
        match (self, other) {
            (LiteralValue::Number(a), LiteralValue::Number(b)) => *a == *b,
            (LiteralValue::StringValue(a), LiteralValue::StringValue(b)) => *a == *b,
            (LiteralValue::True, LiteralValue::True) => true,
            (LiteralValue::False, LiteralValue::False) => true,
            (LiteralValue::Nil, LiteralValue::Nil) => true,
            _ => false,
        }
    }
}

impl vstd::std_specs::cmp::PartialEqSpecImpl for LiteralValue {
    open spec fn obeys_eq_spec() -> bool {
        true
    }

    open spec fn eq_spec(&self, other: &LiteralValue) -> bool {
        literal_value_model(*self) == literal_value_model(*other)
    }
}

/// An expression tree node. Each node owns its children exclusively.
#[derive(Debug)]
pub enum Expr {
    Assign { name: Token, value: Box<Expr> },
    Call { callie: Box<Expr>, paren: Token, args: Vec<Expr> },
    Binary { left: Box<Expr>, operator: Token, right: Box<Expr> },
    Grouping { expression: Box<Expr> },
    Literal { value: LiteralValue },
    Unary { operator: Token, right: Box<Expr> },
    Variable { name: Token },
    Logical { expression: Box<Expr>, operator: Token, right: Box<Expr> },
}

/// Mathematical model of an `Expr`.
pub enum ExprModel {
    Assign { name: TokenModel, value: Box<ExprModel> },
    Call { callie: Box<ExprModel>, paren: TokenModel, args: Seq<ExprModel> },
    Binary { left: Box<ExprModel>, operator: TokenModel, right: Box<ExprModel> },
    Grouping { expression: Box<ExprModel> },
    Literal { value: LiteralValueModel },
    Unary { operator: TokenModel, right: Box<ExprModel> },
    Variable { name: TokenModel },
    Logical { expression: Box<ExprModel>, operator: TokenModel, right: Box<ExprModel> },
}

pub open spec fn expr_model(e: Expr) -> ExprModel
    decreases e,
{
    match e {
        Expr::Assign { name, value } => ExprModel::Assign {
            name: name@,
            value: Box::new(expr_model(*value)),
        },
        Expr::Call { callie, paren, args } => ExprModel::Call {
            callie: Box::new(expr_model(*callie)),
            paren: paren@,
            args: exprs_model(args@),
        },
        Expr::Binary { left, operator, right } => ExprModel::Binary {
            left: Box::new(expr_model(*left)),
            operator: operator@,
            right: Box::new(expr_model(*right)),
        },
        Expr::Grouping { expression } => ExprModel::Grouping {
            expression: Box::new(expr_model(*expression)),
        },
        Expr::Literal { value } => ExprModel::Literal { value: literal_value_model(value) },
        Expr::Unary { operator, right } => ExprModel::Unary {
            operator: operator@,
            right: Box::new(expr_model(*right)),
        },
        Expr::Variable { name } => ExprModel::Variable { name: name@ },
        Expr::Logical { expression, operator, right } => ExprModel::Logical {
            expression: Box::new(expr_model(*expression)),
            operator: operator@,
            right: Box::new(expr_model(*right)),
        },
    }
}

pub open spec fn exprs_model(es: Seq<Expr>) -> Seq<ExprModel>
    decreases es,
{
    if es.len() == 0 {
        Seq::<ExprModel>::empty()
    } else {
        exprs_model(es.drop_last()).push(expr_model(es.last()))
    }
}

/// `exprs_model` distributes over `push`.
pub proof fn lemma_exprs_model_push(es: Seq<Expr>, e: Expr)
    ensures
        exprs_model(es.push(e)) == exprs_model(es).push(expr_model(e)),
{
    assert(es.push(e).drop_last() =~= es);
    assert(es.push(e).last() == e);
}

/// `exprs_model` is the elementwise model of the sequence.
pub proof fn lemma_exprs_model_index(es: Seq<Expr>)
    ensures
        exprs_model(es).len() == es.len(),
        forall|i: int| 0 <= i < es.len() ==> exprs_model(es)[i] == expr_model(es[i]),
    decreases es.len(),
{
    if es.len() > 0 {
        lemma_exprs_model_index(es.drop_last());
    }
}

/// Canonical textual rendering of a literal value.
pub open spec fn render_literal(v: LiteralValueModel) -> Seq<char> {
    match v {
        LiteralValueModel::Number(s) => s,
        LiteralValueModel::StringValue(s) => s,
        LiteralValueModel::True => "true"@,
        LiteralValueModel::False => "false"@,
        LiteralValueModel::Nil => "nil"@,
    }
}

/// Canonical textual rendering of an expression: every operator application
/// renders as `(<op-lexeme> <operand renderings>)`, a grouping as
/// `(group <inner>)`, a variable as `(var <name>)`.
pub open spec fn render_expr(e: ExprModel) -> Seq<char>
    decreases e,
{
    match e {
        ExprModel::Assign { name, value } => name.lexeme + " = "@ + render_expr(*value),
        ExprModel::Call { callie, paren, args } => "(call "@ + render_expr(*callie) + ")"@,
        ExprModel::Binary { left, operator, right } => "("@ + operator.lexeme + " "@ + render_expr(
            *left,
        ) + " "@ + render_expr(*right) + ")"@,
        ExprModel::Grouping { expression } => "(group "@ + render_expr(*expression) + ")"@,
        ExprModel::Literal { value } => render_literal(value),
        ExprModel::Unary { operator, right } => "("@ + operator.lexeme + " "@ + render_expr(*right)
            + ")"@,
        ExprModel::Variable { name } => "(var "@ + name.lexeme + ")"@,
        ExprModel::Logical { expression, operator, right } => "("@ + operator.lexeme + " "@
            + render_expr(*expression) + " "@ + render_expr(*right) + ")"@,
    }
}

impl LiteralValue {
    /// Truthiness: `False` and `Nil` are falsy, everything else truthy.
    pub fn is_truthy(&self) -> (r: bool)
        ensures
            r == !(self is False || self is Nil),
    {
        match self {
            LiteralValue::False | LiteralValue::Nil => false,
            _ => true,
        }
    }

    /// The negation of a value as a literal: `True` exactly when the value
    /// is falsy, that is, `False` or `Nil`; every number and every string
    /// is truthy.
    pub fn is_falsy(&self) -> (r: LiteralValue)
        ensures
            r == (if self is False || self is Nil {
                LiteralValue::True
            } else {
                LiteralValue::False
            }),
    {
        match self {
            LiteralValue::False | LiteralValue::Nil => LiteralValue::True,
            _ => LiteralValue::False,
        }
    }

    pub fn from_bool(b: bool) -> (r: LiteralValue)
        ensures
            r == (if b {
                LiteralValue::True
            } else {
                LiteralValue::False
            }),
    {
        if b {
            LiteralValue::True
        } else {
            LiteralValue::False
        }
    }

    /// The name of the value's kind, as text.
    pub fn to_type(&self) -> (r: String)
        ensures
            r@ == (match *self {
                LiteralValue::Number(_) => "Number"@,
                LiteralValue::StringValue(_) => "String"@,
                LiteralValue::Nil => "nil"@,
                LiteralValue::True => "true"@,
                LiteralValue::False => "false"@,
            }),
    {
        match self {
            LiteralValue::Number(_) => String::from_str("Number"),
            LiteralValue::StringValue(_) => String::from_str("String"),
            LiteralValue::Nil => String::from_str("nil"),
            LiteralValue::True => String::from_str("true"),
            LiteralValue::False => String::from_str("false"),
        }
    }

    /// Canonical rendering of the value.
    pub fn to_string(&self) -> (r: String)
        ensures
            r@ == render_literal(literal_value_model(*self)),
    {
        match self {
            LiteralValue::Number(x) => duplicate_string(x),
            LiteralValue::StringValue(x) => duplicate_string(x),
            LiteralValue::True => String::from_str("true"),
            LiteralValue::False => String::from_str("false"),
            LiteralValue::Nil => String::from_str("nil"),
        }
    }

    /// The semantic constant denoted by a literal token.
    pub fn from_token(token: Token) -> (r: LiteralValue)
        requires
            from_token_allowed(token@),
        ensures
            literal_value_model(r) == from_token_model(token@),
    {
        match token.token_type {
            TokenType::Number => {
                match token.literal {
                    Option::Some(Literal::FLiteral(x)) => LiteralValue::Number(x),
                    _ => LiteralValue::Nil,
                }
            },
            TokenType::StringLit => {
                match token.literal {
                    Option::Some(Literal::StringLiteral(x)) => LiteralValue::StringValue(x),
                    Option::Some(Literal::IdentifierLiteral(x)) => LiteralValue::StringValue(x),
                    _ => LiteralValue::Nil,
                }
            },
            TokenType::KwFalse => LiteralValue::False,
            TokenType::KwTrue => LiteralValue::True,
            _ => LiteralValue::Nil,
        }
    }
}

/// The token kinds and payload shapes that denote a semantic constant.
pub open spec fn from_token_allowed(t: TokenModel) -> bool {
    match t.token_type {
        TokenType::Number => t.literal matches Option::Some(LiteralModel::FLiteral(_)),
        TokenType::StringLit => (t.literal matches Option::Some(LiteralModel::StringLiteral(_)))
            || (t.literal matches Option::Some(LiteralModel::IdentifierLiteral(_))),
        TokenType::KwFalse => true,
        TokenType::KwTrue => true,
        TokenType::KwNil => true,
        _ => false,
    }
}

/// The constant a literal token denotes.
pub open spec fn from_token_model(t: TokenModel) -> LiteralValueModel {
    match t.token_type {
        TokenType::Number => match t.literal {
            Option::Some(LiteralModel::FLiteral(s)) => LiteralValueModel::Number(s),
            _ => LiteralValueModel::Nil,
        },
        TokenType::StringLit => match t.literal {
            Option::Some(LiteralModel::StringLiteral(s)) => LiteralValueModel::StringValue(s),
            Option::Some(LiteralModel::IdentifierLiteral(s)) => LiteralValueModel::StringValue(s),
            _ => LiteralValueModel::Nil,
        },
        TokenType::KwFalse => LiteralValueModel::False,
        TokenType::KwTrue => LiteralValueModel::True,
        _ => LiteralValueModel::Nil,
    }
}

impl Expr {
    /// Canonical textual rendering of the expression tree.
    pub fn to_string(&self) -> (r: String)
        ensures
            r@ == render_expr(expr_model(*self)),
        decreases *self,
    {
        match self {
            Expr::Assign { name, value } => {
                let mut r = duplicate_string(&name.lexeme);
                r.append(" = ");
                let v = value.to_string();
                r.append(v.as_str());
                r
            },
            Expr::Call { callie, paren, args } => {
                let mut r = String::from_str("(call ");
                let c = callie.to_string();
                r.append(c.as_str());
                r.append(")");
                r
            },
            Expr::Binary { left, operator, right } => {
                let mut r = String::from_str("(");
                r.append(operator.lexeme.as_str());
                r.append(" ");
                let l = left.to_string();
                r.append(l.as_str());
                r.append(" ");
                let rr = right.to_string();
                r.append(rr.as_str());
                r.append(")");
                r
            },
            Expr::Grouping { expression } => {
                let mut r = String::from_str("(group ");
                let inner = expression.to_string();
                r.append(inner.as_str());
                r.append(")");
                r
            },
            Expr::Literal { value } => value.to_string(),
            Expr::Unary { operator, right } => {
                let mut r = String::from_str("(");
                r.append(operator.lexeme.as_str());
                r.append(" ");
                let rr = right.to_string();
                r.append(rr.as_str());
                r.append(")");
                r
            },
            Expr::Variable { name } => {
                let mut r = String::from_str("(var ");
                r.append(name.lexeme.as_str());
                r.append(")");
                r
            },
            Expr::Logical { expression, operator, right } => {
                let mut r = String::from_str("(");
                r.append(operator.lexeme.as_str());
                r.append(" ");
                let l = expression.to_string();
                r.append(l.as_str());
                r.append(" ");
                let rr = right.to_string();
                r.append(rr.as_str());
                r.append(")");
                r
            },
        }
    }
}

/// An owned copy of a string with the same contents.
pub fn duplicate_string(s: &String) -> (r: String)
    ensures
        r@ == s@,
{
    s.as_str().to_owned()
}

} // verus!
