//! Statement tree model: the statement variants produced by the parser and
//! consumed by the code generator.

use vstd::prelude::*;
use crate::expr::{expr_model, Expr, ExprModel};
use crate::token::{Token, TokenModel, TokenType};

verus! {

/// A statement tree node. The `then`/`els` payloads of `IfElse` and the
/// body of `While` are always `Block` nodes when produced by the parser.
#[derive(Debug)]
pub enum Stmt {
    Expression { expression: Expr },
    Print { expression: Expr },
    Var { name: Token, data_type: TokenType, initializer: Expr },
    Block { stmts: Vec<Stmt> },
    IfElse { condition: Expr, then: Box<Stmt>, els: Option<Box<Stmt>> },
    While { condition: Expr, block: Box<Stmt> },
    Function { name: Token, params: Vec<Token>, body: Vec<Stmt> },
    Return { token: Token, expr: Option<Expr> },
    Break,
    Continue,
}

/// Mathematical model of a `Stmt`.
pub enum StmtModel {
    Expression { expression: ExprModel },
    Print { expression: ExprModel },
    Var { name: TokenModel, data_type: TokenType, initializer: ExprModel },
    Block { stmts: Seq<StmtModel> },
    IfElse { condition: ExprModel, then: Box<StmtModel>, els: Option<Box<StmtModel>> },
    While { condition: ExprModel, block: Box<StmtModel> },
    Function { name: TokenModel, params: Seq<TokenModel>, body: Seq<StmtModel> },
    Return { token: TokenModel, expr: Option<ExprModel> },
    Break,
    Continue,
}

pub open spec fn stmt_model(s: Stmt) -> StmtModel
    decreases s,
{
    match s {
        Stmt::Expression { expression } => StmtModel::Expression {
            expression: expr_model(expression),
        },
        Stmt::Print { expression } => StmtModel::Print { expression: expr_model(expression) },
        Stmt::Var { name, data_type, initializer } => StmtModel::Var {
            name: name@,
            data_type,
            initializer: expr_model(initializer),
        },
        Stmt::Block { stmts } => StmtModel::Block { stmts: stmts_model(stmts@) },
        Stmt::IfElse { condition, then, els } => StmtModel::IfElse {
            condition: expr_model(condition),
            then: Box::new(stmt_model(*then)),
            els: match els {
                Option::Some(b) => Option::Some(Box::new(stmt_model(*b))),
                Option::None => Option::None,
            },
        },
        Stmt::While { condition, block } => StmtModel::While {
            condition: expr_model(condition),
            block: Box::new(stmt_model(*block)),
        },
        Stmt::Function { name, params, body } => StmtModel::Function {
            name: name@,
            params: params@.map_values(|t: Token| t@),
            body: stmts_model(body@),
        },
        Stmt::Return { token, expr } => StmtModel::Return {
            token: token@,
            expr: match expr {
                Option::Some(e) => Option::Some(expr_model(e)),
                Option::None => Option::None,
            },
        },
        Stmt::Break => StmtModel::Break,
        Stmt::Continue => StmtModel::Continue,
    }
}

pub open spec fn stmts_model(ss: Seq<Stmt>) -> Seq<StmtModel>
    decreases ss,
{
    if ss.len() == 0 {
        Seq::<StmtModel>::empty()
    } else {
        stmts_model(ss.drop_last()).push(stmt_model(ss.last()))
    }
}

/// `stmts_model` distributes over `push`.
pub proof fn lemma_stmts_model_push(ss: Seq<Stmt>, s: Stmt)
    ensures
        stmts_model(ss.push(s)) == stmts_model(ss).push(stmt_model(s)),
{
    assert(ss.push(s).drop_last() =~= ss);
    assert(ss.push(s).last() == s);
}

/// `stmts_model` is the elementwise model of the sequence.
pub proof fn lemma_stmts_model_index(ss: Seq<Stmt>)
    ensures
        stmts_model(ss).len() == ss.len(),
        forall|i: int| 0 <= i < ss.len() ==> stmts_model(ss)[i] == stmt_model(ss[i]),
    decreases ss.len(),
{
    if ss.len() > 0 {
        lemma_stmts_model_index(ss.drop_last());
    }
}

} // verus!
