//! Recursive-descent, precedence-climbing parser: consumes the token
//! sequence and produces the statement sequence, or the first syntax error.
//!
//! The whole grammar is specified by the `sp_*` spec functions, a
//! token-level model of recursive descent over `Seq<TokenModel>`;
//! `Parser::parse` returns exactly what `sp_program` describes.

use vstd::prelude::*;
use crate::expr::{
    duplicate_string, expr_model, exprs_model, from_token_allowed, from_token_model, Expr,
    ExprModel, LiteralValue, LiteralValueModel,
};
use crate::stmt::{stmt_model, stmts_model, Stmt, StmtModel};
use crate::token::{Literal, LiteralModel, Token, TokenModel, TokenType};

verus! {

/// The reason a parse failed.
#[derive(Clone, Copy, Debug, PartialEq, Eq, Structural)]
pub enum ParseErrorKind {
    /// The token at the error position cannot begin an expression.
    ExpectedExpression,
    /// A specific token kind was required and something else was found.
    Expected(TokenType),
    /// The left-hand side of `=` is not a bare variable reference.
    InvalidAssignmentTarget,
    /// More than 255 call arguments.
    TooManyArgs,
    /// More than 255 function parameters.
    TooManyParams,
}

/// A syntax error: the 1-based source line, the offending lexeme, and the
/// reason.
#[derive(Clone, Debug)]
pub struct ParseError {
    pub line: usize,
    pub lexeme: String,
    pub kind: ParseErrorKind,
}

/// Mathematical model of a `ParseError`.
pub struct ParseErrorModel {
    pub line: int,
    pub lexeme: Seq<char>,
    pub kind: ParseErrorKind,
}

pub open spec fn parse_error_model(e: ParseError) -> ParseErrorModel {
    ParseErrorModel { line: e.line as int, lexeme: e.lexeme@, kind: e.kind }
}

/// A token kind that can begin a declaration or statement, the
/// synchronization points of panic-mode recovery.
pub open spec fn sync_kind(k: TokenType) -> bool {
    ||| k == TokenType::KwClass
    ||| k == TokenType::KwFun
    ||| k == TokenType::KwFloat
    ||| k == TokenType::KwString
    ||| k == TokenType::KwBool
    ||| k == TokenType::KwFor
    ||| k == TokenType::KwIf
    ||| k == TokenType::KwWhile
    ||| k == TokenType::KwPrint
    ||| k == TokenType::KwReturn
}

/// The token kind at position `i`, end-of-input when out of range.
pub open spec fn tk(t: Seq<TokenModel>, i: int) -> TokenType {
    if 0 <= i < t.len() {
        t[i].token_type
    } else {
        TokenType::Eof
    }
}

/// The error reported at position `i`.
pub open spec fn perr(t: Seq<TokenModel>, i: int, k: ParseErrorKind) -> ParseErrorModel {
    if 0 <= i < t.len() {
        ParseErrorModel { line: t[i].line, lexeme: t[i].lexeme, kind: k }
    } else {
        ParseErrorModel { line: 0, lexeme: Seq::<char>::empty(), kind: k }
    }
}

/// Clamp of a successor position, used only for termination: in every run
/// the clamp is the identity, because sub-parses move forward and stay in
/// range.
pub open spec fn nxt(t: Seq<TokenModel>, i: int, p: int) -> int {
    if i < p <= t.len() {
        p
    } else {
        i + 1
    }
}

/// Token-stream well-formedness: non-empty, terminated by an end-of-input
/// token, and every literal token carries its payload.
pub open spec fn token_wf(t: TokenModel) -> bool {
    &&& (t.token_type == TokenType::Number ==> t.literal matches Option::Some(
        LiteralModel::FLiteral(_),
    ))
    &&& (t.token_type == TokenType::StringLit ==> (t.literal matches Option::Some(
        LiteralModel::StringLiteral(_),
    )) || (t.literal matches Option::Some(LiteralModel::IdentifierLiteral(_))))
}

pub open spec fn tokens_wf(t: Seq<TokenModel>) -> bool {
    &&& t.len() >= 1
    &&& t[t.len() - 1].token_type == TokenType::Eof
    &&& forall|k: int| 0 <= k < t.len() ==> token_wf(#[trigger] t[k])
}

pub type PExpr = Result<(ExprModel, int), ParseErrorModel>;

pub type PStmt = Result<(StmtModel, int), ParseErrorModel>;

/// `primary := NUMBER | STRING | "true" | "false" | "nil" | IDENT | "(" expr ")"`
#[verifier::opaque]
pub open spec fn sp_primary(t: Seq<TokenModel>, i: int) -> PExpr
    decreases t.len() - i, 1int,
{
    if !(0 <= i < t.len()) {
        Result::Err(arbitrary())
    } else {
        match t[i].token_type {
            TokenType::LeftParen => match sp_expression(t, i + 1) {
                Result::Ok((e, j)) => if tk(t, j) == TokenType::RightParen {
                    Result::Ok(
                        (ExprModel::Grouping { expression: Box::new(e) }, nxt(t, i, j + 1)),
                    )
                } else {
                    Result::Err(perr(t, j, ParseErrorKind::Expected(TokenType::RightParen)))
                },
                Result::Err(e) => Result::Err(e),
            },
            TokenType::KwFalse => Result::Ok(
                (ExprModel::Literal { value: from_token_model(t[i]) }, i + 1),
            ),
            TokenType::KwTrue => Result::Ok(
                (ExprModel::Literal { value: from_token_model(t[i]) }, i + 1),
            ),
            TokenType::KwNil => Result::Ok(
                (ExprModel::Literal { value: from_token_model(t[i]) }, i + 1),
            ),
            TokenType::Number => Result::Ok(
                (ExprModel::Literal { value: from_token_model(t[i]) }, i + 1),
            ),
            TokenType::StringLit => Result::Ok(
                (ExprModel::Literal { value: from_token_model(t[i]) }, i + 1),
            ),
            TokenType::Identifier => Result::Ok((ExprModel::Variable { name: t[i] }, i + 1)),
            _ => Result::Err(perr(t, i, ParseErrorKind::ExpectedExpression)),
        }
    }
}

/// One argument list after each `(`, at most 255 arguments.
#[verifier::opaque]
pub open spec fn sp_args(t: Seq<TokenModel>, i: int, acc: Seq<ExprModel>) -> Result<
    (Seq<ExprModel>, int),
    ParseErrorModel,
>
    decreases t.len() - i, 12int,
{
    if !(0 <= i < t.len()) {
        Result::Err(arbitrary())
    } else if acc.len() >= 255 {
        Result::Err(perr(t, i, ParseErrorKind::TooManyArgs))
    } else {
        match sp_expression(t, i) {
            Result::Ok((e, j)) => if tk(t, j) == TokenType::Comma {
                sp_args(t, nxt(t, i, j + 1), acc.push(e))
            } else {
                Result::Ok((acc.push(e), j))
            },
            Result::Err(e) => Result::Err(e),
        }
    }
}

/// One complete argument list with its closing parenthesis, which becomes
/// the call's token; position just after the opening parenthesis.
#[verifier::opaque]
pub open spec fn sp_finish(t: Seq<TokenModel>, i: int, e: ExprModel) -> PExpr
    decreases t.len() - i, 13int,
{
    if !(0 <= i < t.len()) {
        Result::Err(arbitrary())
    } else {
        let argsr = if tk(t, i) == TokenType::RightParen {
            Result::Ok((Seq::<ExprModel>::empty(), i))
        } else {
            sp_args(t, i, Seq::<ExprModel>::empty())
        };
        match argsr {
            Result::Ok((args, j)) => if tk(t, j) == TokenType::RightParen {
                Result::Ok(
                    (
                        ExprModel::Call { callie: Box::new(e), paren: t[j], args },
                        nxt(t, i - 1, j + 1),
                    ),
                )
            } else {
                Result::Err(perr(t, j, ParseErrorKind::Expected(TokenType::RightParen)))
            },
            Result::Err(er) => Result::Err(er),
        }
    }
}

/// Zero or more trailing `(...)` argument lists chained after a primary.
#[verifier::opaque]
pub open spec fn sp_call_rest(t: Seq<TokenModel>, i: int, e: ExprModel) -> PExpr
    decreases t.len() - i, 14int,
{
    if !(0 <= i < t.len()) {
        Result::Err(arbitrary())
    } else if t[i].token_type == TokenType::LeftParen {
        match sp_finish(t, i + 1, e) {
            Result::Ok((e2, j)) => sp_call_rest(t, nxt(t, i, j), e2),
            Result::Err(er) => Result::Err(er),
        }
    } else {
        Result::Ok((e, i))
    }
}

#[verifier::opaque]
pub open spec fn sp_call(t: Seq<TokenModel>, i: int) -> PExpr
    decreases t.len() - i, 2int,
{
    if !(0 <= i < t.len()) {
        Result::Err(arbitrary())
    } else {
        match sp_primary(t, i) {
            Result::Ok((e, j)) => sp_call_rest(t, nxt(t, i, j), e),
            Result::Err(e) => Result::Err(e),
        }
    }
}

/// `unary := ("!"|"-") unary | call`
#[verifier::opaque]
pub open spec fn sp_unary(t: Seq<TokenModel>, i: int) -> PExpr
    decreases t.len() - i, 3int,
{
    if !(0 <= i < t.len()) {
        Result::Err(arbitrary())
    } else if t[i].token_type == TokenType::Bang || t[i].token_type == TokenType::Minus {
        match sp_unary(t, i + 1) {
            Result::Ok((e, j)) => Result::Ok(
                (ExprModel::Unary { operator: t[i], right: Box::new(e) }, j),
            ),
            Result::Err(e) => Result::Err(e),
        }
    } else {
        sp_call(t, i)
    }
}

/// Left fold of one binary level: `acc <op> operand` repeated.
#[verifier::opaque]
pub open spec fn sp_factor_rest(t: Seq<TokenModel>, i: int, acc: ExprModel) -> PExpr
    decreases t.len() - i, 0int,
{
    if !(0 <= i < t.len()) {
        Result::Ok((acc, i))
    } else if t[i].token_type == TokenType::Star || t[i].token_type == TokenType::Slash || t[
        i
    ].token_type == TokenType::Modulus {
        match sp_unary(t, i + 1) {
            Result::Ok((r, j)) => sp_factor_rest(
                t,
                nxt(t, i, j),
                ExprModel::Binary { left: Box::new(acc), operator: t[i], right: Box::new(r) },
            ),
            Result::Err(e) => Result::Err(e),
        }
    } else {
        Result::Ok((acc, i))
    }
}

#[verifier::opaque]
pub open spec fn sp_factor(t: Seq<TokenModel>, i: int) -> PExpr
    decreases t.len() - i, 4int,
{
    if !(0 <= i < t.len()) {
        Result::Err(arbitrary())
    } else {
        match sp_unary(t, i) {
            Result::Ok((e, j)) => sp_factor_rest(t, nxt(t, i, j), e),
            Result::Err(e) => Result::Err(e),
        }
    }
}

#[verifier::opaque]
pub open spec fn sp_term_rest(t: Seq<TokenModel>, i: int, acc: ExprModel) -> PExpr
    decreases t.len() - i, 0int,
{
    if !(0 <= i < t.len()) {
        Result::Ok((acc, i))
    } else if t[i].token_type == TokenType::Minus || t[i].token_type == TokenType::Plus {
        match sp_factor(t, i + 1) {
            Result::Ok((r, j)) => sp_term_rest(
                t,
                nxt(t, i, j),
                ExprModel::Binary { left: Box::new(acc), operator: t[i], right: Box::new(r) },
            ),
            Result::Err(e) => Result::Err(e),
        }
    } else {
        Result::Ok((acc, i))
    }
}

#[verifier::opaque]
pub open spec fn sp_term(t: Seq<TokenModel>, i: int) -> PExpr
    decreases t.len() - i, 5int,
{
    if !(0 <= i < t.len()) {
        Result::Err(arbitrary())
    } else {
        match sp_factor(t, i) {
            Result::Ok((e, j)) => sp_term_rest(t, nxt(t, i, j), e),
            Result::Err(e) => Result::Err(e),
        }
    }
}

#[verifier::opaque]
pub open spec fn sp_comparison_rest(t: Seq<TokenModel>, i: int, acc: ExprModel) -> PExpr
    decreases t.len() - i, 0int,
{
    if !(0 <= i < t.len()) {
        Result::Ok((acc, i))
    } else if t[i].token_type == TokenType::Greater || t[i].token_type == TokenType::GreaterEqual
        || t[i].token_type == TokenType::Less || t[i].token_type == TokenType::LessEqual {
        match sp_term(t, i + 1) {
            Result::Ok((r, j)) => sp_comparison_rest(
                t,
                nxt(t, i, j),
                ExprModel::Binary { left: Box::new(acc), operator: t[i], right: Box::new(r) },
            ),
            Result::Err(e) => Result::Err(e),
        }
    } else {
        Result::Ok((acc, i))
    }
}

#[verifier::opaque]
pub open spec fn sp_comparison(t: Seq<TokenModel>, i: int) -> PExpr
    decreases t.len() - i, 6int,
{
    if !(0 <= i < t.len()) {
        Result::Err(arbitrary())
    } else {
        match sp_term(t, i) {
            Result::Ok((e, j)) => sp_comparison_rest(t, nxt(t, i, j), e),
            Result::Err(e) => Result::Err(e),
        }
    }
}

#[verifier::opaque]
pub open spec fn sp_equality_rest(t: Seq<TokenModel>, i: int, acc: ExprModel) -> PExpr
    decreases t.len() - i, 0int,
{
    if !(0 <= i < t.len()) {
        Result::Ok((acc, i))
    } else if t[i].token_type == TokenType::BangEqual || t[i].token_type == TokenType::EqualEqual {
        match sp_comparison(t, i + 1) {
            Result::Ok((r, j)) => sp_equality_rest(
                t,
                nxt(t, i, j),
                ExprModel::Binary { left: Box::new(acc), operator: t[i], right: Box::new(r) },
            ),
            Result::Err(e) => Result::Err(e),
        }
    } else {
        Result::Ok((acc, i))
    }
}

#[verifier::opaque]
pub open spec fn sp_equality(t: Seq<TokenModel>, i: int) -> PExpr
    decreases t.len() - i, 7int,
{
    if !(0 <= i < t.len()) {
        Result::Err(arbitrary())
    } else {
        match sp_comparison(t, i) {
            Result::Ok((e, j)) => sp_equality_rest(t, nxt(t, i, j), e),
            Result::Err(e) => Result::Err(e),
        }
    }
}

#[verifier::opaque]
pub open spec fn sp_and_rest(t: Seq<TokenModel>, i: int, acc: ExprModel) -> PExpr
    decreases t.len() - i, 0int,
{
    if !(0 <= i < t.len()) {
        Result::Ok((acc, i))
    } else if t[i].token_type == TokenType::KwAnd {
        match sp_equality(t, i + 1) {
            Result::Ok((r, j)) => sp_and_rest(
                t,
                nxt(t, i, j),
                ExprModel::Logical {
                    expression: Box::new(acc),
                    operator: t[i],
                    right: Box::new(r),
                },
            ),
            Result::Err(e) => Result::Err(e),
        }
    } else {
        Result::Ok((acc, i))
    }
}

#[verifier::opaque]
pub open spec fn sp_and(t: Seq<TokenModel>, i: int) -> PExpr
    decreases t.len() - i, 8int,
{
    if !(0 <= i < t.len()) {
        Result::Err(arbitrary())
    } else {
        match sp_equality(t, i) {
            Result::Ok((e, j)) => sp_and_rest(t, nxt(t, i, j), e),
            Result::Err(e) => Result::Err(e),
        }
    }
}

#[verifier::opaque]
pub open spec fn sp_or_rest(t: Seq<TokenModel>, i: int, acc: ExprModel) -> PExpr
    decreases t.len() - i, 0int,
{
    if !(0 <= i < t.len()) {
        Result::Ok((acc, i))
    } else if t[i].token_type == TokenType::KwOr {
        match sp_and(t, i + 1) {
            Result::Ok((r, j)) => sp_or_rest(
                t,
                nxt(t, i, j),
                ExprModel::Logical {
                    expression: Box::new(acc),
                    operator: t[i],
                    right: Box::new(r),
                },
            ),
            Result::Err(e) => Result::Err(e),
        }
    } else {
        Result::Ok((acc, i))
    }
}

#[verifier::opaque]
pub open spec fn sp_or(t: Seq<TokenModel>, i: int) -> PExpr
    decreases t.len() - i, 9int,
{
    if !(0 <= i < t.len()) {
        Result::Err(arbitrary())
    } else {
        match sp_and(t, i) {
            Result::Ok((e, j)) => sp_or_rest(t, nxt(t, i, j), e),
            Result::Err(e) => Result::Err(e),
        }
    }
}

/// `assignment := (IDENT "=" assignment) | logic_or`; assignment is only
/// legal when the left-hand side parsed as a bare variable reference, and
/// the right-hand side is parsed before that is checked.
#[verifier::opaque]
pub open spec fn sp_assignment(t: Seq<TokenModel>, i: int) -> PExpr
    decreases t.len() - i, 10int,
{
    if !(0 <= i < t.len()) {
        Result::Err(arbitrary())
    } else {
        match sp_or(t, i) {
            Result::Ok((e, j)) => if tk(t, j) == TokenType::Equal {
                match sp_assignment(t, nxt(t, i, j + 1)) {
                    Result::Ok((v, m)) => match e {
                        ExprModel::Variable { name } => Result::Ok(
                            (ExprModel::Assign { name, value: Box::new(v) }, m),
                        ),
                        _ => Result::Err(
                            perr(t, j, ParseErrorKind::InvalidAssignmentTarget),
                        ),
                    },
                    Result::Err(er) => Result::Err(er),
                }
            } else {
                Result::Ok((e, j))
            },
            Result::Err(e) => Result::Err(e),
        }
    }
}

#[verifier::opaque]
pub open spec fn sp_expression(t: Seq<TokenModel>, i: int) -> PExpr
    decreases t.len() - i, 11int,
{
    sp_assignment(t, i)
}

/// `exprStmt := expr ";"`
#[verifier::opaque]
pub open spec fn sp_exprstmt(t: Seq<TokenModel>, i: int) -> PStmt
    decreases t.len() - i, 12int,
{
    if !(0 <= i < t.len()) {
        Result::Err(arbitrary())
    } else {
        match sp_expression(t, i) {
            Result::Ok((e, j)) => if tk(t, j) == TokenType::Semicolon {
                Result::Ok((StmtModel::Expression { expression: e }, nxt(t, i, j + 1)))
            } else {
                Result::Err(perr(t, j, ParseErrorKind::Expected(TokenType::Semicolon)))
            },
            Result::Err(e) => Result::Err(e),
        }
    }
}

/// `"print" "(" expr ")" ";"`, position after `print`.
#[verifier::opaque]
pub open spec fn sp_print(t: Seq<TokenModel>, i: int) -> PStmt
    decreases t.len() - i, 0int,
{
    if !(0 <= i < t.len()) {
        Result::Err(arbitrary())
    } else if t[i].token_type == TokenType::LeftParen {
        match sp_expression(t, i + 1) {
            Result::Ok((e, j)) => if tk(t, j) == TokenType::RightParen {
                if tk(t, j + 1) == TokenType::Semicolon {
                    Result::Ok((StmtModel::Print { expression: e }, nxt(t, i, j + 2)))
                } else {
                    Result::Err(perr(t, j + 1, ParseErrorKind::Expected(TokenType::Semicolon)))
                }
            } else {
                Result::Err(perr(t, j, ParseErrorKind::Expected(TokenType::RightParen)))
            },
            Result::Err(e) => Result::Err(e),
        }
    } else {
        Result::Err(perr(t, i, ParseErrorKind::Expected(TokenType::LeftParen)))
    }
}

/// `"return" [expr] ";"`, position after `return`; the statement keeps the
/// `return` token itself.
#[verifier::opaque]
pub open spec fn sp_return(t: Seq<TokenModel>, i: int, ret: TokenModel) -> PStmt
    decreases t.len() - i, 12int,
{
    if !(0 <= i < t.len()) {
        Result::Err(arbitrary())
    } else if t[i].token_type == TokenType::Semicolon {
        Result::Ok((StmtModel::Return { token: ret, expr: Option::None }, i + 1))
    } else {
        match sp_expression(t, i) {
            Result::Ok((e, j)) => if tk(t, j) == TokenType::Semicolon {
                Result::Ok(
                    (StmtModel::Return { token: ret, expr: Option::Some(e) }, nxt(t, i, j + 1)),
                )
            } else {
                Result::Err(perr(t, j, ParseErrorKind::Expected(TokenType::Semicolon)))
            },
            Result::Err(e) => Result::Err(e),
        }
    }
}

/// The declarations of a brace block, up to and including the closing `}`.
#[verifier::opaque]
pub open spec fn sp_block_items(t: Seq<TokenModel>, i: int, acc: Seq<StmtModel>) -> Result<
    (Seq<StmtModel>, int),
    ParseErrorModel,
>
    decreases t.len() - i, 15int,
{
    if !(0 <= i < t.len()) {
        Result::Err(arbitrary())
    } else if t[i].token_type != TokenType::RightBrace && t[i].token_type != TokenType::Eof {
        match sp_declaration(t, i) {
            Result::Ok((s, j)) => sp_block_items(t, nxt(t, i, j), acc.push(s)),
            Result::Err(e) => Result::Err(e),
        }
    } else if t[i].token_type == TokenType::RightBrace {
        Result::Ok((acc, i + 1))
    } else {
        Result::Err(perr(t, i, ParseErrorKind::Expected(TokenType::RightBrace)))
    }
}

/// `varDecl := <type> IDENT ["=" expr] ";"`, position after the type
/// keyword; a missing initializer defaults to the `nil` literal.
#[verifier::opaque]
pub open spec fn sp_var_decl(t: Seq<TokenModel>, i: int, dt: TokenType) -> PStmt
    decreases t.len() - i, 0int,
{
    if !(0 <= i < t.len()) {
        Result::Err(arbitrary())
    } else if t[i].token_type == TokenType::Identifier {
        let name = t[i];
        let initr = if tk(t, i + 1) == TokenType::Equal {
            sp_expression(t, i + 2)
        } else {
            Result::Ok((ExprModel::Literal { value: LiteralValueModel::Nil }, i + 1))
        };
        match initr {
            Result::Ok((e, j)) => if tk(t, j) == TokenType::Semicolon {
                Result::Ok(
                    (
                        StmtModel::Var { name, data_type: dt, initializer: e },
                        nxt(t, i, j + 1),
                    ),
                )
            } else {
                Result::Err(perr(t, j, ParseErrorKind::Expected(TokenType::Semicolon)))
            },
            Result::Err(e) => Result::Err(e),
        }
    } else {
        Result::Err(perr(t, i, ParseErrorKind::Expected(TokenType::Identifier)))
    }
}

/// The parameter list of a function declaration, at most 255 names.
#[verifier::opaque]
pub open spec fn sp_params(t: Seq<TokenModel>, i: int, acc: Seq<TokenModel>) -> Result<
    (Seq<TokenModel>, int),
    ParseErrorModel,
>
    decreases t.len() - i, 0int,
{
    if !(0 <= i < t.len()) {
        Result::Err(arbitrary())
    } else if acc.len() >= 255 {
        Result::Err(perr(t, i, ParseErrorKind::TooManyParams))
    } else if t[i].token_type == TokenType::Identifier {
        if tk(t, i + 1) == TokenType::Comma {
            sp_params(t, i + 2, acc.push(t[i]))
        } else {
            Result::Ok((acc.push(t[i]), i + 1))
        }
    } else {
        Result::Err(perr(t, i, ParseErrorKind::Expected(TokenType::Identifier)))
    }
}

/// `funDecl := "fun" IDENT "(" [params] ")" block`, position after `fun`.
#[verifier::opaque]
pub open spec fn sp_fun_decl(t: Seq<TokenModel>, i: int) -> PStmt
    decreases t.len() - i, 0int,
{
    if !(0 <= i < t.len()) {
        Result::Err(arbitrary())
    } else if t[i].token_type == TokenType::Identifier {
        let name = t[i];
        if tk(t, i + 1) == TokenType::LeftParen {
            let paramsr = if tk(t, i + 2) == TokenType::RightParen {
                Result::Ok((Seq::<TokenModel>::empty(), i + 2))
            } else {
                sp_params(t, i + 2, Seq::<TokenModel>::empty())
            };
            match paramsr {
                Result::Ok((params, j)) => if tk(t, j) == TokenType::RightParen {
                    if tk(t, j + 1) == TokenType::LeftBrace {
                        match sp_block_items(t, nxt(t, i, j + 2), Seq::<StmtModel>::empty()) {
                            Result::Ok((body, m)) => Result::Ok(
                                (StmtModel::Function { name, params, body }, m),
                            ),
                            Result::Err(e) => Result::Err(e),
                        }
                    } else {
                        Result::Err(perr(t, j + 1, ParseErrorKind::Expected(TokenType::LeftBrace)))
                    }
                } else {
                    Result::Err(perr(t, j, ParseErrorKind::Expected(TokenType::RightParen)))
                },
                Result::Err(e) => Result::Err(e),
            }
        } else {
            Result::Err(perr(t, i + 1, ParseErrorKind::Expected(TokenType::LeftParen)))
        }
    } else {
        Result::Err(perr(t, i, ParseErrorKind::Expected(TokenType::Identifier)))
    }
}

/// `"if" "(" expr ")" block ["else" block]`, position after `if`.
#[verifier::opaque]
pub open spec fn sp_if(t: Seq<TokenModel>, i: int) -> PStmt
    decreases t.len() - i, 0int,
{
    if !(0 <= i < t.len()) {
        Result::Err(arbitrary())
    } else if t[i].token_type == TokenType::LeftParen {
        match sp_expression(t, i + 1) {
            Result::Ok((c, j)) => if tk(t, j) == TokenType::RightParen {
                if tk(t, j + 1) == TokenType::LeftBrace {
                    match sp_block_items(t, nxt(t, i, j + 2), Seq::<StmtModel>::empty()) {
                        Result::Ok((thenb, m)) => if tk(t, m) == TokenType::KwElse {
                            if tk(t, m + 1) == TokenType::LeftBrace {
                                match sp_block_items(
                                    t,
                                    nxt(t, i, m + 2),
                                    Seq::<StmtModel>::empty(),
                                ) {
                                    Result::Ok((elsb, m2)) => Result::Ok(
                                        (
                                            StmtModel::IfElse {
                                                condition: c,
                                                then: Box::new(StmtModel::Block { stmts: thenb }),
                                                els: Option::Some(
                                                    Box::new(StmtModel::Block { stmts: elsb }),
                                                ),
                                            },
                                            m2,
                                        ),
                                    ),
                                    Result::Err(e) => Result::Err(e),
                                }
                            } else {
                                Result::Err(
                                    perr(t, m + 1, ParseErrorKind::Expected(TokenType::LeftBrace)),
                                )
                            }
                        } else {
                            Result::Ok(
                                (
                                    StmtModel::IfElse {
                                        condition: c,
                                        then: Box::new(StmtModel::Block { stmts: thenb }),
                                        els: Option::None,
                                    },
                                    m,
                                ),
                            )
                        },
                        Result::Err(e) => Result::Err(e),
                    }
                } else {
                    Result::Err(perr(t, j + 1, ParseErrorKind::Expected(TokenType::LeftBrace)))
                }
            } else {
                Result::Err(perr(t, j, ParseErrorKind::Expected(TokenType::RightParen)))
            },
            Result::Err(e) => Result::Err(e),
        }
    } else {
        Result::Err(perr(t, i, ParseErrorKind::Expected(TokenType::LeftParen)))
    }
}

/// `"while" "(" expr ")" block`, position after `while`.
#[verifier::opaque]
pub open spec fn sp_while(t: Seq<TokenModel>, i: int) -> PStmt
    decreases t.len() - i, 0int,
{
    if !(0 <= i < t.len()) {
        Result::Err(arbitrary())
    } else if t[i].token_type == TokenType::LeftParen {
        match sp_expression(t, i + 1) {
            Result::Ok((c, j)) => if tk(t, j) == TokenType::RightParen {
                if tk(t, j + 1) == TokenType::LeftBrace {
                    match sp_block_items(t, nxt(t, i, j + 2), Seq::<StmtModel>::empty()) {
                        Result::Ok((body, m)) => Result::Ok(
                            (
                                StmtModel::While {
                                    condition: c,
                                    block: Box::new(StmtModel::Block { stmts: body }),
                                },
                                m,
                            ),
                        ),
                        Result::Err(e) => Result::Err(e),
                    }
                } else {
                    Result::Err(perr(t, j + 1, ParseErrorKind::Expected(TokenType::LeftBrace)))
                }
            } else {
                Result::Err(perr(t, j, ParseErrorKind::Expected(TokenType::RightParen)))
            },
            Result::Err(e) => Result::Err(e),
        }
    } else {
        Result::Err(perr(t, i, ParseErrorKind::Expected(TokenType::LeftParen)))
    }
}

/// The desugared `while` node a `for` construct lowers to: the increment is
/// appended (wrapped in a block) to the body, a missing condition defaults
/// to the `true` literal, and an initializer wraps the loop in a block.
#[verifier::opaque]
pub open spec fn sp_for_build(
    init: Option<StmtModel>,
    cond: Option<ExprModel>,
    incr: Option<ExprModel>,
    body: Seq<StmtModel>,
) -> StmtModel {
    let body2 = match incr {
        Option::Some(e) => body.push(
            StmtModel::Block { stmts: seq![StmtModel::Expression { expression: e }] },
        ),
        Option::None => body,
    };
    let cond2 = match cond {
        Option::Some(c) => c,
        Option::None => ExprModel::Literal { value: LiteralValueModel::True },
    };
    let w = StmtModel::While {
        condition: cond2,
        block: Box::new(StmtModel::Block { stmts: body2 }),
    };
    match init {
        Option::Some(s) => StmtModel::Block { stmts: seq![s, w] },
        Option::None => w,
    }
}

/// `"for" "(" (varDecl|exprStmt|";") [expr] ";" [expr] ")" block`,
/// desugared at parse time; position after `for`.
#[verifier::opaque]
pub open spec fn sp_for(t: Seq<TokenModel>, i: int) -> PStmt
    decreases t.len() - i, 0int,
{
    if !(0 <= i < t.len()) {
        Result::Err(arbitrary())
    } else if t[i].token_type == TokenType::LeftParen {
        let initr: Result<(Option<StmtModel>, int), ParseErrorModel> = if tk(t, i + 1)
            == TokenType::Semicolon {
            Result::Ok((Option::None, i + 2))
        } else if tk(t, i + 1) == TokenType::KwFloat || tk(t, i + 1) == TokenType::KwString || tk(
            t,
            i + 1,
        ) == TokenType::KwBool {
            match sp_var_decl(t, nxt(t, i, i + 2), t[i + 1].token_type) {
                Result::Ok((s, j)) => Result::Ok((Option::Some(s), j)),
                Result::Err(e) => Result::Err(e),
            }
        } else {
            match sp_exprstmt(t, nxt(t, i, i + 1)) {
                Result::Ok((s, j)) => Result::Ok((Option::Some(s), j)),
                Result::Err(e) => Result::Err(e),
            }
        };
        match initr {
            Result::Ok((init, p1)) => {
                let condr: Result<(Option<ExprModel>, int), ParseErrorModel> = if tk(t, p1)
                    == TokenType::Semicolon {
                    Result::Ok((Option::None, p1))
                } else {
                    match sp_expression(t, nxt(t, i, p1)) {
                        Result::Ok((c, j)) => Result::Ok((Option::Some(c), j)),
                        Result::Err(e) => Result::Err(e),
                    }
                };
                match condr {
                    Result::Ok((cond, p2)) => if tk(t, p2) == TokenType::Semicolon {
                        let incrr: Result<(Option<ExprModel>, int), ParseErrorModel> = if tk(
                            t,
                            p2 + 1,
                        ) == TokenType::RightParen {
                            Result::Ok((Option::None, p2 + 1))
                        } else {
                            match sp_expression(t, nxt(t, i, p2 + 1)) {
                                Result::Ok((e, j)) => Result::Ok((Option::Some(e), j)),
                                Result::Err(e) => Result::Err(e),
                            }
                        };
                        match incrr {
                            Result::Ok((incr, p3)) => if tk(t, p3) == TokenType::RightParen {
                                if tk(t, p3 + 1) == TokenType::LeftBrace {
                                    match sp_block_items(
                                        t,
                                        nxt(t, i, p3 + 2),
                                        Seq::<StmtModel>::empty(),
                                    ) {
                                        Result::Ok((body, m)) => Result::Ok(
                                            (sp_for_build(init, cond, incr, body), m),
                                        ),
                                        Result::Err(e) => Result::Err(e),
                                    }
                                } else {
                                    Result::Err(
                                        perr(
                                            t,
                                            p3 + 1,
                                            ParseErrorKind::Expected(TokenType::LeftBrace),
                                        ),
                                    )
                                }
                            } else {
                                Result::Err(
                                    perr(t, p3, ParseErrorKind::Expected(TokenType::RightParen)),
                                )
                            },
                            Result::Err(e) => Result::Err(e),
                        }
                    } else {
                        Result::Err(perr(t, p2, ParseErrorKind::Expected(TokenType::Semicolon)))
                    },
                    Result::Err(e) => Result::Err(e),
                }
            },
            Result::Err(e) => Result::Err(e),
        }
    } else {
        Result::Err(perr(t, i, ParseErrorKind::Expected(TokenType::LeftParen)))
    }
}

/// Statement dispatch by leading keyword.
#[verifier::opaque]
pub open spec fn sp_statement(t: Seq<TokenModel>, i: int) -> PStmt
    decreases t.len() - i, 13int,
{
    if !(0 <= i < t.len()) {
        Result::Err(arbitrary())
    } else {
        match t[i].token_type {
            TokenType::KwPrint => sp_print(t, i + 1),
            TokenType::KwContinue => if tk(t, i + 1) == TokenType::Semicolon {
                Result::Ok((StmtModel::Continue, i + 2))
            } else {
                Result::Err(perr(t, i + 1, ParseErrorKind::Expected(TokenType::Semicolon)))
            },
            TokenType::KwBreak => if tk(t, i + 1) == TokenType::Semicolon {
                Result::Ok((StmtModel::Break, i + 2))
            } else {
                Result::Err(perr(t, i + 1, ParseErrorKind::Expected(TokenType::Semicolon)))
            },
            TokenType::KwIf => sp_if(t, i + 1),
            TokenType::KwFor => sp_for(t, i + 1),
            TokenType::LeftBrace => match sp_block_items(t, i + 1, Seq::<StmtModel>::empty()) {
                Result::Ok((items, j)) => Result::Ok((StmtModel::Block { stmts: items }, j)),
                Result::Err(e) => Result::Err(e),
            },
            TokenType::KwReturn => sp_return(t, nxt(t, i, i + 1), t[i]),
            TokenType::KwWhile => sp_while(t, i + 1),
            _ => sp_exprstmt(t, i),
        }
    }
}

/// A declaration: a typed variable declaration, a function declaration, or
/// a plain statement.
#[verifier::opaque]
pub open spec fn sp_declaration(t: Seq<TokenModel>, i: int) -> PStmt
    decreases t.len() - i, 14int,
{
    if !(0 <= i < t.len()) {
        Result::Err(arbitrary())
    } else if t[i].token_type == TokenType::KwFloat || t[i].token_type == TokenType::KwString || t[
        i
    ].token_type == TokenType::KwBool {
        sp_var_decl(t, i + 1, t[i].token_type)
    } else if t[i].token_type == TokenType::KwFun {
        sp_fun_decl(t, i + 1)
    } else {
        sp_statement(t, i)
    }
}

/// The whole program: declarations until end of input, or the first error.
#[verifier::opaque]
pub open spec fn sp_program(t: Seq<TokenModel>, i: int, acc: Seq<StmtModel>) -> Result<
    (Seq<StmtModel>, int),
    ParseErrorModel,
>
    decreases t.len() - i, 17int,
{
    if !(0 <= i < t.len()) {
        Result::Err(arbitrary())
    } else if t[i].token_type != TokenType::Eof {
        match sp_declaration(t, i) {
            Result::Ok((s, j)) => sp_program(t, nxt(t, i, j), acc.push(s)),
            Result::Err(e) => Result::Err(e),
        }
    } else {
        Result::Ok((acc, i))
    }
}


proof fn lemma_tok_map_push(ts: Seq<Token>, t: Token)
    ensures
        ts.push(t).map_values(|x: Token| x@) == ts.map_values(|x: Token| x@).push(t@),
{
    assert(ts.push(t).map_values(|x: Token| x@) =~= ts.map_values(|x: Token| x@).push(t@));
}

/// The parser: the token sequence and the `current` cursor.
pub struct Parser {
    tokens: Vec<Token>,
    current: usize,
}

/// Whether a token vector is a well-formed parser input: non-empty, ended
/// by an end-of-input token, every literal token carrying its payload.
pub fn tokens_well_formed(tokens: &Vec<Token>) -> (b: bool)
    ensures
        b == tokens_wf(tokens@.map_values(|x: Token| x@)),
{
    let ghost t = tokens@.map_values(|x: Token| x@);
    let n = tokens.len();
    if n == 0 {
        return false;
    }
    if !(tokens[n - 1].token_type == TokenType::Eof) {
        return false;
    }
    let mut k: usize = 0;
    while k < n
        invariant
            t == tokens@.map_values(|x: Token| x@),
            n == tokens@.len(),
            k <= n,
            forall|j: int| 0 <= j < k ==> token_wf(#[trigger] t[j]),
        decreases n - k,
    {
        let tok = &tokens[k];
        let ok = match tok.token_type {
            TokenType::Number => match &tok.literal {
                Option::Some(Literal::FLiteral(_)) => true,
                _ => false,
            },
            TokenType::StringLit => match &tok.literal {
                Option::Some(Literal::StringLiteral(_)) => true,
                Option::Some(Literal::IdentifierLiteral(_)) => true,
                _ => false,
            },
            _ => true,
        };
        proof {
            assert(ok == token_wf(t[k as int]));
        }
        if !ok {
            return false;
        }
        k = k + 1;
    }
    true
}

fn dup_literal(l: &Literal) -> (r: Literal)
    ensures
        r@ == l@,
{
    match l {
        Literal::StringLiteral(s) => Literal::StringLiteral(duplicate_string(s)),
        Literal::FLiteral(s) => Literal::FLiteral(duplicate_string(s)),
        Literal::ILiteral(x) => Literal::ILiteral(*x),
        Literal::IdentifierLiteral(s) => Literal::IdentifierLiteral(duplicate_string(s)),
    }
}

impl Parser {
    /// The model of the token sequence.
    pub closed spec fn toks(self) -> Seq<TokenModel> {
        self.tokens@.map_values(|x: Token| x@)
    }

    /// The cursor position.
    pub closed spec fn pos(self) -> int {
        self.current as int
    }

    /// Parser state invariant: well-formed tokens and an in-range cursor.
    pub closed spec fn wf(self) -> bool {
        &&& tokens_wf(self.toks())
        &&& self.toks().len() == self.tokens@.len()
        &&& 0 <= self.current < self.tokens@.len()
    }

    pub fn new(tokens: Vec<Token>) -> (p: Parser)
        ensures
            p.toks() == tokens@.map_values(|x: Token| x@),
            p.pos() == 0,
            tokens_wf(tokens@.map_values(|x: Token| x@)) ==> p.wf(),
    {
        Parser { tokens, current: 0 }
    }

    fn kind_at(&self) -> (k: TokenType)
        requires
            self.wf(),
        ensures
            k == tk(self.toks(), self.pos()),
    {
        self.tokens[self.current].token_type
    }

    fn dup_token(&self) -> (t: Token)
        requires
            self.wf(),
        ensures
            t@ == self.toks()[self.pos()],
            token_wf(t@),
    {
        let tok = &self.tokens[self.current];
        let lit = match &tok.literal {
            Option::Some(l) => Option::Some(dup_literal(l)),
            Option::None => Option::None,
        };
        Token::new(tok.token_type, duplicate_string(&tok.lexeme), lit, tok.line)
    }

    fn error_here(&self, kd: ParseErrorKind) -> (e: ParseError)
        requires
            self.wf(),
        ensures
            parse_error_model(e) == perr(self.toks(), self.pos(), kd),
    {
        let tok = &self.tokens[self.current];
        ParseError { line: tok.line, lexeme: duplicate_string(&tok.lexeme), kind: kd }
    }

    fn advance_tok(&mut self) -> (t: Token)
        requires
            old(self).wf(),
        ensures
            final(self).wf(),
            final(self).toks() == old(self).toks(),
            t@ == old(self).toks()[old(self).pos()],
            final(self).pos() == if tk(old(self).toks(), old(self).pos()) == TokenType::Eof {
                old(self).pos()
            } else {
                old(self).pos() + 1
            },
    {
        let t = self.dup_token();
        if !(t.token_type == TokenType::Eof) {
            let n = self.tokens.len();
            proof {
                assert(self.toks().len() == self.tokens@.len());
                assert(self.toks()[self.pos()].token_type != TokenType::Eof);
                assert(self.toks()[self.toks().len() - 1].token_type == TokenType::Eof);
                assert(self.current < n - 1);
            }
            self.current = self.current + 1;
        }
        t
    }

    fn match_kind(&mut self, k: TokenType) -> (r: Option<Token>)
        requires
            old(self).wf(),
            k != TokenType::Eof,
        ensures
            final(self).wf(),
            final(self).toks() == old(self).toks(),
            match r {
                Option::Some(t) => tk(old(self).toks(), old(self).pos()) == k && t@ == old(
                    self,
                ).toks()[old(self).pos()] && final(self).pos() == old(self).pos() + 1,
                Option::None => tk(old(self).toks(), old(self).pos()) != k && final(self).pos()
                    == old(self).pos(),
            },
    {
        if self.kind_at() == k {
            Option::Some(self.advance_tok())
        } else {
            Option::None
        }
    }

    fn consume(&mut self, k: TokenType) -> (r: Result<Token, ParseError>)
        requires
            old(self).wf(),
            k != TokenType::Eof,
        ensures
            final(self).wf(),
            final(self).toks() == old(self).toks(),
            match r {
                Result::Ok(t) => tk(old(self).toks(), old(self).pos()) == k && t@ == old(
                    self,
                ).toks()[old(self).pos()] && final(self).pos() == old(self).pos() + 1,
                Result::Err(e) => tk(old(self).toks(), old(self).pos()) != k && parse_error_model(
                    e,
                ) == perr(
                    old(self).toks(),
                    old(self).pos(),
                    ParseErrorKind::Expected(k),
                ) && final(self).pos() == old(self).pos(),
            },
    {
        if self.kind_at() == k {
            Result::Ok(self.advance_tok())
        } else {
            Result::Err(self.error_here(ParseErrorKind::Expected(k)))
        }
    }

    #[verifier::rlimit(60)]
    #[verifier::spinoff_prover]
    fn primary(&mut self) -> (r: Result<Expr, ParseError>)
        requires
            old(self).wf(),
        ensures
            final(self).wf(),
            final(self).toks() == old(self).toks(),
            old(self).pos() <= final(self).pos(),
            match r {
                Result::Ok(e) => sp_primary(old(self).toks(), old(self).pos()) == Result::Ok::<
                    (ExprModel, int),
                    ParseErrorModel,
                >((expr_model(e), final(self).pos())) && old(self).pos() < final(self).pos(),
                Result::Err(pe) => sp_primary(old(self).toks(), old(self).pos()) == Result::Err::<
                    (ExprModel, int),
                    ParseErrorModel,
                >(parse_error_model(pe)),
            },
        decreases self.tokens@.len() - self.current, 1int,
    {
        reveal(sp_primary);
        let ghost t = self.toks();
        let ghost i0 = self.pos();
        let k = self.kind_at();
        if k == TokenType::LeftParen {
            let _lp = self.advance_tok();
            let e = match self.expression() {
                Result::Ok(x) => x,
                Result::Err(er) => {
                    return Result::Err(er);
                },
            };
            match self.consume(TokenType::RightParen) {
                Result::Ok(_) => Result::Ok(Expr::Grouping { expression: Box::new(e) }),
                Result::Err(er) => Result::Err(er),
            }
        } else if k == TokenType::KwFalse || k == TokenType::KwTrue || k == TokenType::KwNil || k
            == TokenType::Number || k == TokenType::StringLit {
            let tok = self.advance_tok();
            proof {
                assert(token_wf(t[i0]));
            }
            let v = LiteralValue::from_token(tok);
            Result::Ok(Expr::Literal { value: v })
        } else if k == TokenType::Identifier {
            let tok = self.advance_tok();
            Result::Ok(Expr::Variable { name: tok })
        } else {
            Result::Err(self.error_here(ParseErrorKind::ExpectedExpression))
        }
    }

    #[verifier::rlimit(60)]
    #[verifier::spinoff_prover]
    fn args_list(&mut self, acc: &mut Vec<Expr>) -> (r: Result<(), ParseError>)
        requires
            old(self).wf(),
        ensures
            final(self).wf(),
            final(self).toks() == old(self).toks(),
            old(self).pos() <= final(self).pos(),
            match r {
                Result::Ok(u) => sp_args(old(self).toks(), old(self).pos(), exprs_model(old(acc)@))
                    == Result::Ok::<(Seq<ExprModel>, int), ParseErrorModel>(
                    (exprs_model(final(acc)@), final(self).pos()),
                ) && old(self).pos() < final(self).pos(),
                Result::Err(pe) => sp_args(old(self).toks(), old(self).pos(), exprs_model(old(acc)@))
                    == Result::Err::<(Seq<ExprModel>, int), ParseErrorModel>(parse_error_model(pe)),
            },
        decreases self.tokens@.len() - self.current, 12int,
    {
        reveal(sp_args);
        let ghost t = self.toks();
        let ghost i0 = self.pos();
        proof {
            crate::expr::lemma_exprs_model_index(acc@);
        }
        if acc.len() >= 255 {
            return Result::Err(self.error_here(ParseErrorKind::TooManyArgs));
        }
        let a = match self.expression() {
            Result::Ok(x) => x,
            Result::Err(er) => {
                return Result::Err(er);
            },
        };
        proof {
            crate::expr::lemma_exprs_model_push(acc@, a);
        }
        acc.push(a);
        match self.match_kind(TokenType::Comma) {
            Option::Some(_) => self.args_list(acc),
            Option::None => Result::Ok(()),
        }
    }

    #[verifier::rlimit(60)]
    #[verifier::spinoff_prover]
    fn finish_call(&mut self, callee: Expr) -> (r: Result<Expr, ParseError>)
        requires
            old(self).wf(),
        ensures
            final(self).wf(),
            final(self).toks() == old(self).toks(),
            old(self).pos() <= final(self).pos(),
            match r {
                Result::Ok(e2) => sp_finish(old(self).toks(), old(self).pos(), expr_model(callee))
                    == Result::Ok::<(ExprModel, int), ParseErrorModel>(
                    (expr_model(e2), final(self).pos()),
                ) && old(self).pos() < final(self).pos(),
                Result::Err(pe) => sp_finish(old(self).toks(), old(self).pos(), expr_model(callee))
                    == Result::Err::<(ExprModel, int), ParseErrorModel>(parse_error_model(pe)),
            },
        decreases self.tokens@.len() - self.current, 13int,
    {
        reveal(sp_finish);
        let ghost t = self.toks();
        let ghost i0 = self.pos();
        let mut args: Vec<Expr> = Vec::new();
        if !(self.kind_at() == TokenType::RightParen) {
            proof {
                assert(exprs_model(args@) =~= Seq::<ExprModel>::empty());
            }
            match self.args_list(&mut args) {
                Result::Ok(()) => {},
                Result::Err(er) => {
                    return Result::Err(er);
                },
            }
        } else {
            proof {
                assert(exprs_model(args@) =~= Seq::<ExprModel>::empty());
            }
        }
        match self.consume(TokenType::RightParen) {
            Result::Ok(paren) => Result::Ok(
                Expr::Call { callie: Box::new(callee), paren, args },
            ),
            Result::Err(er) => Result::Err(er),
        }
    }

    #[verifier::rlimit(60)]
    #[verifier::spinoff_prover]
    fn call_expr(&mut self) -> (r: Result<Expr, ParseError>)
        requires
            old(self).wf(),
        ensures
            final(self).wf(),
            final(self).toks() == old(self).toks(),
            old(self).pos() <= final(self).pos(),
            match r {
                Result::Ok(e) => sp_call(old(self).toks(), old(self).pos()) == Result::Ok::<
                    (ExprModel, int),
                    ParseErrorModel,
                >((expr_model(e), final(self).pos())) && old(self).pos() < final(self).pos(),
                Result::Err(pe) => sp_call(old(self).toks(), old(self).pos()) == Result::Err::<
                    (ExprModel, int),
                    ParseErrorModel,
                >(parse_error_model(pe)),
            },
        decreases self.tokens@.len() - self.current, 2int,
    {
        reveal(sp_call);
        reveal(sp_call_rest);
        let ghost t = self.toks();
        let ghost i0 = self.pos();
        let first = match self.primary() {
            Result::Ok(x) => x,
            Result::Err(er) => {
                return Result::Err(er);
            },
        };
        let mut e = first;
        while self.kind_at() == TokenType::LeftParen
            invariant
                self.wf(),
                self.toks() == old(self).toks(),
                old(self).pos() < self.pos(),
                sp_call(old(self).toks(), old(self).pos()) == sp_call_rest(
                    old(self).toks(),
                    self.pos(),
                    expr_model(e),
                ),
            decreases self.tokens@.len() - self.current,
        {
            reveal(sp_call_rest);
            let _lp = self.advance_tok();
            e = match self.finish_call(e) {
                Result::Ok(x) => x,
                Result::Err(er) => {
                    return Result::Err(er);
                },
            };
        }
        Result::Ok(e)
    }

    #[verifier::rlimit(60)]
    #[verifier::spinoff_prover]
    fn unary(&mut self) -> (r: Result<Expr, ParseError>)
        requires
            old(self).wf(),
        ensures
            final(self).wf(),
            final(self).toks() == old(self).toks(),
            old(self).pos() <= final(self).pos(),
            match r {
                Result::Ok(e) => sp_unary(old(self).toks(), old(self).pos()) == Result::Ok::<
                    (ExprModel, int),
                    ParseErrorModel,
                >((expr_model(e), final(self).pos())) && old(self).pos() < final(self).pos(),
                Result::Err(pe) => sp_unary(old(self).toks(), old(self).pos()) == Result::Err::<
                    (ExprModel, int),
                    ParseErrorModel,
                >(parse_error_model(pe)),
            },
        decreases self.tokens@.len() - self.current, 3int,
    {
        reveal(sp_unary);
        let k = self.kind_at();
        if k == TokenType::Bang || k == TokenType::Minus {
            let op = self.advance_tok();
            match self.unary() {
                Result::Ok(e) => Result::Ok(Expr::Unary { operator: op, right: Box::new(e) }),
                Result::Err(er) => Result::Err(er),
            }
        } else {
            self.call_expr()
        }
    }

    #[verifier::rlimit(60)]
    #[verifier::spinoff_prover]
    fn factor(&mut self) -> (r: Result<Expr, ParseError>)
        requires
            old(self).wf(),
        ensures
            final(self).wf(),
            final(self).toks() == old(self).toks(),
            old(self).pos() <= final(self).pos(),
            match r {
                Result::Ok(e) => sp_factor(old(self).toks(), old(self).pos()) == Result::Ok::<
                    (ExprModel, int),
                    ParseErrorModel,
                >((expr_model(e), final(self).pos())) && old(self).pos() < final(self).pos(),
                Result::Err(pe) => sp_factor(old(self).toks(), old(self).pos()) == Result::Err::<
                    (ExprModel, int),
                    ParseErrorModel,
                >(parse_error_model(pe)),
            },
        decreases self.tokens@.len() - self.current, 4int,
    {
        reveal(sp_factor);
        reveal(sp_factor_rest);
        let ghost t = self.toks();
        let ghost i0 = self.pos();
        let first = match self.unary() {
            Result::Ok(x) => x,
            Result::Err(er) => {
                return Result::Err(er);
            },
        };
        let mut e = first;
        while self.peek_is_factor_op()
            invariant
                self.wf(),
                self.toks() == old(self).toks(),
                old(self).pos() < self.pos(),
                sp_factor(old(self).toks(), old(self).pos()) == sp_factor_rest(
                    old(self).toks(),
                    self.pos(),
                    expr_model(e),
                ),
            decreases self.tokens@.len() - self.current,
        {
            reveal(sp_factor_rest);
            let op = self.advance_tok();
            let right = match self.unary() {
                Result::Ok(x) => x,
                Result::Err(er) => {
                    return Result::Err(er);
                },
            };
            e = Expr::Binary { left: Box::new(e), operator: op, right: Box::new(right) };
        }
        Result::Ok(e)
    }

    fn peek_is_factor_op(&self) -> (b: bool)
        requires
            self.wf(),
        ensures
            b == (tk(self.toks(), self.pos()) == TokenType::Star || tk(self.toks(), self.pos())
                == TokenType::Slash || tk(self.toks(), self.pos()) == TokenType::Modulus),
    {
        let k = self.kind_at();
        k == TokenType::Star || k == TokenType::Slash || k == TokenType::Modulus
    }

    #[verifier::rlimit(60)]
    #[verifier::spinoff_prover]
    fn term(&mut self) -> (r: Result<Expr, ParseError>)
        requires
            old(self).wf(),
        ensures
            final(self).wf(),
            final(self).toks() == old(self).toks(),
            old(self).pos() <= final(self).pos(),
            match r {
                Result::Ok(e) => sp_term(old(self).toks(), old(self).pos()) == Result::Ok::<
                    (ExprModel, int),
                    ParseErrorModel,
                >((expr_model(e), final(self).pos())) && old(self).pos() < final(self).pos(),
                Result::Err(pe) => sp_term(old(self).toks(), old(self).pos()) == Result::Err::<
                    (ExprModel, int),
                    ParseErrorModel,
                >(parse_error_model(pe)),
            },
        decreases self.tokens@.len() - self.current, 5int,
    {
        reveal(sp_term);
        reveal(sp_term_rest);
        let ghost t = self.toks();
        let ghost i0 = self.pos();
        let first = match self.factor() {
            Result::Ok(x) => x,
            Result::Err(er) => {
                return Result::Err(er);
            },
        };
        let mut e = first;
        while self.peek_is_term_op()
            invariant
                self.wf(),
                self.toks() == old(self).toks(),
                old(self).pos() < self.pos(),
                sp_term(old(self).toks(), old(self).pos()) == sp_term_rest(
                    old(self).toks(),
                    self.pos(),
                    expr_model(e),
                ),
            decreases self.tokens@.len() - self.current,
        {
            reveal(sp_term_rest);
            let op = self.advance_tok();
            let right = match self.factor() {
                Result::Ok(x) => x,
                Result::Err(er) => {
                    return Result::Err(er);
                },
            };
            e = Expr::Binary { left: Box::new(e), operator: op, right: Box::new(right) };
        }
        Result::Ok(e)
    }

    fn peek_is_term_op(&self) -> (b: bool)
        requires
            self.wf(),
        ensures
            b == (tk(self.toks(), self.pos()) == TokenType::Minus || tk(self.toks(), self.pos())
                == TokenType::Plus),
    {
        let k = self.kind_at();
        k == TokenType::Minus || k == TokenType::Plus
    }

    #[verifier::rlimit(60)]
    #[verifier::spinoff_prover]
    fn comparison(&mut self) -> (r: Result<Expr, ParseError>)
        requires
            old(self).wf(),
        ensures
            final(self).wf(),
            final(self).toks() == old(self).toks(),
            old(self).pos() <= final(self).pos(),
            match r {
                Result::Ok(e) => sp_comparison(old(self).toks(), old(self).pos()) == Result::Ok::<
                    (ExprModel, int),
                    ParseErrorModel,
                >((expr_model(e), final(self).pos())) && old(self).pos() < final(self).pos(),
                Result::Err(pe) => sp_comparison(old(self).toks(), old(self).pos()) == Result::Err::<
                    (ExprModel, int),
                    ParseErrorModel,
                >(parse_error_model(pe)),
            },
        decreases self.tokens@.len() - self.current, 6int,
    {
        reveal(sp_comparison);
        reveal(sp_comparison_rest);
        let ghost t = self.toks();
        let ghost i0 = self.pos();
        let first = match self.term() {
            Result::Ok(x) => x,
            Result::Err(er) => {
                return Result::Err(er);
            },
        };
        let mut e = first;
        while self.peek_is_comparison_op()
            invariant
                self.wf(),
                self.toks() == old(self).toks(),
                old(self).pos() < self.pos(),
                sp_comparison(old(self).toks(), old(self).pos()) == sp_comparison_rest(
                    old(self).toks(),
                    self.pos(),
                    expr_model(e),
                ),
            decreases self.tokens@.len() - self.current,
        {
            reveal(sp_comparison_rest);
            let op = self.advance_tok();
            let right = match self.term() {
                Result::Ok(x) => x,
                Result::Err(er) => {
                    return Result::Err(er);
                },
            };
            e = Expr::Binary { left: Box::new(e), operator: op, right: Box::new(right) };
        }
        Result::Ok(e)
    }

    fn peek_is_comparison_op(&self) -> (b: bool)
        requires
            self.wf(),
        ensures
            b == (tk(self.toks(), self.pos()) == TokenType::Greater || tk(self.toks(), self.pos())
                == TokenType::GreaterEqual || tk(self.toks(), self.pos()) == TokenType::Less || tk(
                self.toks(),
                self.pos(),
            ) == TokenType::LessEqual),
    {
        let k = self.kind_at();
        k == TokenType::Greater || k == TokenType::GreaterEqual || k == TokenType::Less || k
            == TokenType::LessEqual
    }

    #[verifier::rlimit(60)]
    #[verifier::spinoff_prover]
    fn equality(&mut self) -> (r: Result<Expr, ParseError>)
        requires
            old(self).wf(),
        ensures
            final(self).wf(),
            final(self).toks() == old(self).toks(),
            old(self).pos() <= final(self).pos(),
            match r {
                Result::Ok(e) => sp_equality(old(self).toks(), old(self).pos()) == Result::Ok::<
                    (ExprModel, int),
                    ParseErrorModel,
                >((expr_model(e), final(self).pos())) && old(self).pos() < final(self).pos(),
                Result::Err(pe) => sp_equality(old(self).toks(), old(self).pos()) == Result::Err::<
                    (ExprModel, int),
                    ParseErrorModel,
                >(parse_error_model(pe)),
            },
        decreases self.tokens@.len() - self.current, 7int,
    {
        reveal(sp_equality);
        reveal(sp_equality_rest);
        let ghost t = self.toks();
        let ghost i0 = self.pos();
        let first = match self.comparison() {
            Result::Ok(x) => x,
            Result::Err(er) => {
                return Result::Err(er);
            },
        };
        let mut e = first;
        while self.peek_is_equality_op()
            invariant
                self.wf(),
                self.toks() == old(self).toks(),
                old(self).pos() < self.pos(),
                sp_equality(old(self).toks(), old(self).pos()) == sp_equality_rest(
                    old(self).toks(),
                    self.pos(),
                    expr_model(e),
                ),
            decreases self.tokens@.len() - self.current,
        {
            reveal(sp_equality_rest);
            let op = self.advance_tok();
            let right = match self.comparison() {
                Result::Ok(x) => x,
                Result::Err(er) => {
                    return Result::Err(er);
                },
            };
            e = Expr::Binary { left: Box::new(e), operator: op, right: Box::new(right) };
        }
        Result::Ok(e)
    }

    fn peek_is_equality_op(&self) -> (b: bool)
        requires
            self.wf(),
        ensures
            b == (tk(self.toks(), self.pos()) == TokenType::BangEqual || tk(
                self.toks(),
                self.pos(),
            ) == TokenType::EqualEqual),
    {
        let k = self.kind_at();
        k == TokenType::BangEqual || k == TokenType::EqualEqual
    }

    #[verifier::rlimit(60)]
    #[verifier::spinoff_prover]
    fn and_expr(&mut self) -> (r: Result<Expr, ParseError>)
        requires
            old(self).wf(),
        ensures
            final(self).wf(),
            final(self).toks() == old(self).toks(),
            old(self).pos() <= final(self).pos(),
            match r {
                Result::Ok(e) => sp_and(old(self).toks(), old(self).pos()) == Result::Ok::<
                    (ExprModel, int),
                    ParseErrorModel,
                >((expr_model(e), final(self).pos())) && old(self).pos() < final(self).pos(),
                Result::Err(pe) => sp_and(old(self).toks(), old(self).pos()) == Result::Err::<
                    (ExprModel, int),
                    ParseErrorModel,
                >(parse_error_model(pe)),
            },
        decreases self.tokens@.len() - self.current, 8int,
    {
        reveal(sp_and);
        reveal(sp_and_rest);
        let ghost t = self.toks();
        let ghost i0 = self.pos();
        let first = match self.equality() {
            Result::Ok(x) => x,
            Result::Err(er) => {
                return Result::Err(er);
            },
        };
        let mut e = first;
        while self.kind_at() == TokenType::KwAnd
            invariant
                self.wf(),
                self.toks() == old(self).toks(),
                old(self).pos() < self.pos(),
                sp_and(old(self).toks(), old(self).pos()) == sp_and_rest(
                    old(self).toks(),
                    self.pos(),
                    expr_model(e),
                ),
            decreases self.tokens@.len() - self.current,
        {
            reveal(sp_and_rest);
            let op = self.advance_tok();
            let right = match self.equality() {
                Result::Ok(x) => x,
                Result::Err(er) => {
                    return Result::Err(er);
                },
            };
            e = Expr::Logical { expression: Box::new(e), operator: op, right: Box::new(right) };
        }
        Result::Ok(e)
    }

    #[verifier::rlimit(60)]
    #[verifier::spinoff_prover]
    fn or_expr(&mut self) -> (r: Result<Expr, ParseError>)
        requires
            old(self).wf(),
        ensures
            final(self).wf(),
            final(self).toks() == old(self).toks(),
            old(self).pos() <= final(self).pos(),
            match r {
                Result::Ok(e) => sp_or(old(self).toks(), old(self).pos()) == Result::Ok::<
                    (ExprModel, int),
                    ParseErrorModel,
                >((expr_model(e), final(self).pos())) && old(self).pos() < final(self).pos(),
                Result::Err(pe) => sp_or(old(self).toks(), old(self).pos()) == Result::Err::<
                    (ExprModel, int),
                    ParseErrorModel,
                >(parse_error_model(pe)),
            },
        decreases self.tokens@.len() - self.current, 9int,
    {
        reveal(sp_or);
        reveal(sp_or_rest);
        let ghost t = self.toks();
        let ghost i0 = self.pos();
        let first = match self.and_expr() {
            Result::Ok(x) => x,
            Result::Err(er) => {
                return Result::Err(er);
            },
        };
        let mut e = first;
        while self.kind_at() == TokenType::KwOr
            invariant
                self.wf(),
                self.toks() == old(self).toks(),
                old(self).pos() < self.pos(),
                sp_or(old(self).toks(), old(self).pos()) == sp_or_rest(
                    old(self).toks(),
                    self.pos(),
                    expr_model(e),
                ),
            decreases self.tokens@.len() - self.current,
        {
            reveal(sp_or_rest);
            let op = self.advance_tok();
            let right = match self.and_expr() {
                Result::Ok(x) => x,
                Result::Err(er) => {
                    return Result::Err(er);
                },
            };
            e = Expr::Logical { expression: Box::new(e), operator: op, right: Box::new(right) };
        }
        Result::Ok(e)
    }

    #[verifier::rlimit(60)]
    #[verifier::spinoff_prover]
    fn assignment(&mut self) -> (r: Result<Expr, ParseError>)
        requires
            old(self).wf(),
        ensures
            final(self).wf(),
            final(self).toks() == old(self).toks(),
            old(self).pos() <= final(self).pos(),
            match r {
                Result::Ok(e) => sp_assignment(old(self).toks(), old(self).pos()) == Result::Ok::<
                    (ExprModel, int),
                    ParseErrorModel,
                >((expr_model(e), final(self).pos())) && old(self).pos() < final(self).pos(),
                Result::Err(pe) => sp_assignment(old(self).toks(), old(self).pos()) == Result::Err::<
                    (ExprModel, int),
                    ParseErrorModel,
                >(parse_error_model(pe)),
            },
        decreases self.tokens@.len() - self.current, 10int,
    {
        reveal(sp_assignment);
        let ghost t = self.toks();
        let ghost i0 = self.pos();
        let e = match self.or_expr() {
            Result::Ok(x) => x,
            Result::Err(er) => {
                return Result::Err(er);
            },
        };
        match self.match_kind(TokenType::Equal) {
            Option::Some(eq) => {
                let v = match self.assignment() {
                    Result::Ok(x) => x,
                    Result::Err(er) => {
                        return Result::Err(er);
                    },
                };
                match e {
                    Expr::Variable { name } => Result::Ok(
                        Expr::Assign { name, value: Box::new(v) },
                    ),
                    _ => Result::Err(
                        ParseError {
                            line: eq.line,
                            lexeme: eq.lexeme,
                            kind: ParseErrorKind::InvalidAssignmentTarget,
                        },
                    ),
                }
            },
            Option::None => Result::Ok(e),
        }
    }

    #[verifier::rlimit(60)]
    #[verifier::spinoff_prover]
    fn expression(&mut self) -> (r: Result<Expr, ParseError>)
        requires
            old(self).wf(),
        ensures
            final(self).wf(),
            final(self).toks() == old(self).toks(),
            old(self).pos() <= final(self).pos(),
            match r {
                Result::Ok(e) => sp_expression(old(self).toks(), old(self).pos()) == Result::Ok::<
                    (ExprModel, int),
                    ParseErrorModel,
                >((expr_model(e), final(self).pos())) && old(self).pos() < final(self).pos(),
                Result::Err(pe) => sp_expression(old(self).toks(), old(self).pos()) == Result::Err::<
                    (ExprModel, int),
                    ParseErrorModel,
                >(parse_error_model(pe)),
            },
        decreases self.tokens@.len() - self.current, 11int,
    {
        reveal(sp_expression);
        self.assignment()
    }

    #[verifier::rlimit(60)]
    #[verifier::spinoff_prover]
    fn expression_stmt(&mut self) -> (r: Result<Stmt, ParseError>)
        requires
            old(self).wf(),
        ensures
            final(self).wf(),
            final(self).toks() == old(self).toks(),
            old(self).pos() <= final(self).pos(),
            match r {
                Result::Ok(s) => sp_exprstmt(old(self).toks(), old(self).pos()) == Result::Ok::<
                    (StmtModel, int),
                    ParseErrorModel,
                >((stmt_model(s), final(self).pos())) && old(self).pos() < final(self).pos(),
                Result::Err(pe) => sp_exprstmt(old(self).toks(), old(self).pos()) == Result::Err::<
                    (StmtModel, int),
                    ParseErrorModel,
                >(parse_error_model(pe)),
            },
        decreases self.tokens@.len() - self.current, 12int,
    {
        reveal(sp_exprstmt);
        let e = match self.expression() {
            Result::Ok(x) => x,
            Result::Err(er) => {
                return Result::Err(er);
            },
        };
        match self.consume(TokenType::Semicolon) {
            Result::Ok(_) => Result::Ok(Stmt::Expression { expression: e }),
            Result::Err(er) => Result::Err(er),
        }
    }

    #[verifier::rlimit(60)]
    #[verifier::spinoff_prover]
    fn print_stmt(&mut self) -> (r: Result<Stmt, ParseError>)
        requires
            old(self).wf(),
        ensures
            final(self).wf(),
            final(self).toks() == old(self).toks(),
            old(self).pos() <= final(self).pos(),
            match r {
                Result::Ok(s) => sp_print(old(self).toks(), old(self).pos()) == Result::Ok::<
                    (StmtModel, int),
                    ParseErrorModel,
                >((stmt_model(s), final(self).pos())) && old(self).pos() < final(self).pos(),
                Result::Err(pe) => sp_print(old(self).toks(), old(self).pos()) == Result::Err::<
                    (StmtModel, int),
                    ParseErrorModel,
                >(parse_error_model(pe)),
            },
        decreases self.tokens@.len() - self.current, 16int,
    {
        reveal(sp_print);
        match self.consume(TokenType::LeftParen) {
            Result::Ok(_) => {},
            Result::Err(er) => {
                return Result::Err(er);
            },
        }
        let e = match self.expression() {
            Result::Ok(x) => x,
            Result::Err(er) => {
                return Result::Err(er);
            },
        };
        match self.consume(TokenType::RightParen) {
            Result::Ok(_) => {},
            Result::Err(er) => {
                return Result::Err(er);
            },
        }
        match self.consume(TokenType::Semicolon) {
            Result::Ok(_) => Result::Ok(Stmt::Print { expression: e }),
            Result::Err(er) => Result::Err(er),
        }
    }

    #[verifier::rlimit(60)]
    #[verifier::spinoff_prover]
    fn return_stmt(&mut self, ret: Token) -> (r: Result<Stmt, ParseError>)
        requires
            old(self).wf(),
        ensures
            final(self).wf(),
            final(self).toks() == old(self).toks(),
            old(self).pos() <= final(self).pos(),
            match r {
                Result::Ok(s) => sp_return(old(self).toks(), old(self).pos(), ret@) == Result::Ok::<
                    (StmtModel, int),
                    ParseErrorModel,
                >((stmt_model(s), final(self).pos())) && old(self).pos() < final(self).pos(),
                Result::Err(pe) => sp_return(old(self).toks(), old(self).pos(), ret@) == Result::Err::<
                    (StmtModel, int),
                    ParseErrorModel,
                >(parse_error_model(pe)),
            },
        decreases self.tokens@.len() - self.current, 16int,
    {
        reveal(sp_return);
        if self.kind_at() == TokenType::Semicolon {
            let _semi = self.advance_tok();
            return Result::Ok(Stmt::Return { token: ret, expr: Option::None });
        }
        let e = match self.expression() {
            Result::Ok(x) => x,
            Result::Err(er) => {
                return Result::Err(er);
            },
        };
        match self.consume(TokenType::Semicolon) {
            Result::Ok(_) => Result::Ok(Stmt::Return { token: ret, expr: Option::Some(e) }),
            Result::Err(er) => Result::Err(er),
        }
    }

    /// The declarations of a brace-delimited block, consuming the closing
    /// brace.
    #[verifier::rlimit(60)]
    #[verifier::spinoff_prover]
    fn block_items(&mut self) -> (r: Result<Vec<Stmt>, ParseError>)
        requires
            old(self).wf(),
        ensures
            final(self).wf(),
            final(self).toks() == old(self).toks(),
            old(self).pos() <= final(self).pos(),
            match r {
                Result::Ok(v) => sp_block_items(old(self).toks(), old(self).pos(), Seq::<StmtModel>::empty())
                    == Result::Ok::<(Seq<StmtModel>, int), ParseErrorModel>(
                    (stmts_model(v@), final(self).pos()),
                ) && old(self).pos() < final(self).pos(),
                Result::Err(pe) => sp_block_items(old(self).toks(), old(self).pos(), Seq::<StmtModel>::empty())
                    == Result::Err::<(Seq<StmtModel>, int), ParseErrorModel>(parse_error_model(pe)),
            },
        decreases self.tokens@.len() - self.current, 15int,
    {
        reveal(sp_block_items);
        let mut items: Vec<Stmt> = Vec::new();
        while self.more_in_block()
            invariant
                self.wf(),
                self.toks() == old(self).toks(),
                old(self).pos() <= self.pos(),
                sp_block_items(old(self).toks(), old(self).pos(), Seq::<StmtModel>::empty())
                    == sp_block_items(old(self).toks(), self.pos(), stmts_model(items@)),
            decreases self.tokens@.len() - self.current,
        {
            reveal(sp_block_items);
            let s = match self.declaration() {
                Result::Ok(x) => x,
                Result::Err(er) => {
                    return Result::Err(er);
                },
            };
            proof {
                crate::stmt::lemma_stmts_model_push(items@, s);
            }
            items.push(s);
        }
        match self.consume(TokenType::RightBrace) {
            Result::Ok(_) => Result::Ok(items),
            Result::Err(er) => Result::Err(er),
        }
    }

    fn more_in_block(&self) -> (b: bool)
        requires
            self.wf(),
        ensures
            b == (tk(self.toks(), self.pos()) != TokenType::RightBrace && tk(
                self.toks(),
                self.pos(),
            ) != TokenType::Eof),
    {
        let k = self.kind_at();
        !(k == TokenType::RightBrace) && !(k == TokenType::Eof)
    }

    #[verifier::rlimit(60)]
    #[verifier::spinoff_prover]
    fn var_declaration(&mut self, dt: TokenType) -> (r: Result<Stmt, ParseError>)
        requires
            old(self).wf(),
        ensures
            final(self).wf(),
            final(self).toks() == old(self).toks(),
            old(self).pos() <= final(self).pos(),
            match r {
                Result::Ok(s) => sp_var_decl(old(self).toks(), old(self).pos(), dt) == Result::Ok::<
                    (StmtModel, int),
                    ParseErrorModel,
                >((stmt_model(s), final(self).pos())) && old(self).pos() < final(self).pos(),
                Result::Err(pe) => sp_var_decl(old(self).toks(), old(self).pos(), dt) == Result::Err::<
                    (StmtModel, int),
                    ParseErrorModel,
                >(parse_error_model(pe)),
            },
        decreases self.tokens@.len() - self.current, 16int,
    {
        reveal(sp_var_decl);
        let name = match self.consume(TokenType::Identifier) {
            Result::Ok(t) => t,
            Result::Err(er) => {
                return Result::Err(er);
            },
        };
        let init: Expr = match self.match_kind(TokenType::Equal) {
            Option::Some(_) => match self.expression() {
                Result::Ok(x) => x,
                Result::Err(er) => {
                    return Result::Err(er);
                },
            },
            Option::None => Expr::Literal { value: LiteralValue::Nil },
        };
        match self.consume(TokenType::Semicolon) {
            Result::Ok(_) => Result::Ok(Stmt::Var { name, data_type: dt, initializer: init }),
            Result::Err(er) => Result::Err(er),
        }
    }

    #[verifier::rlimit(60)]
    #[verifier::spinoff_prover]
    fn params_list(&mut self, acc: &mut Vec<Token>) -> (r: Result<(), ParseError>)
        requires
            old(self).wf(),
        ensures
            final(self).wf(),
            final(self).toks() == old(self).toks(),
            old(self).pos() <= final(self).pos(),
            match r {
                Result::Ok(u) => sp_params(old(self).toks(), old(self).pos(), old(acc)@.map_values(|x: Token| x@))
                    == Result::Ok::<(Seq<TokenModel>, int), ParseErrorModel>(
                    (final(acc)@.map_values(|x: Token| x@), final(self).pos()),
                ) && old(self).pos() < final(self).pos(),
                Result::Err(pe) => sp_params(old(self).toks(), old(self).pos(), old(acc)@.map_values(|x: Token| x@))
                    == Result::Err::<(Seq<TokenModel>, int), ParseErrorModel>(parse_error_model(pe)),
            },
        decreases self.tokens@.len() - self.current, 16int,
    {
        reveal(sp_params);
        if acc.len() >= 255 {
            return Result::Err(self.error_here(ParseErrorKind::TooManyParams));
        }
        let p = match self.consume(TokenType::Identifier) {
            Result::Ok(t) => t,
            Result::Err(er) => {
                return Result::Err(er);
            },
        };
        proof {
            lemma_tok_map_push(acc@, p);
        }
        acc.push(p);
        match self.match_kind(TokenType::Comma) {
            Option::Some(_) => self.params_list(acc),
            Option::None => Result::Ok(()),
        }
    }

    #[verifier::rlimit(100)]
    #[verifier::spinoff_prover]
    fn function_decl(&mut self) -> (r: Result<Stmt, ParseError>)
        requires
            old(self).wf(),
        ensures
            final(self).wf(),
            final(self).toks() == old(self).toks(),
            old(self).pos() <= final(self).pos(),
            match r {
                Result::Ok(s) => sp_fun_decl(old(self).toks(), old(self).pos()) == Result::Ok::<
                    (StmtModel, int),
                    ParseErrorModel,
                >((stmt_model(s), final(self).pos())) && old(self).pos() < final(self).pos(),
                Result::Err(pe) => sp_fun_decl(old(self).toks(), old(self).pos()) == Result::Err::<
                    (StmtModel, int),
                    ParseErrorModel,
                >(parse_error_model(pe)),
            },
        decreases self.tokens@.len() - self.current, 16int,
    {
        reveal(sp_fun_decl);
        let name = match self.consume(TokenType::Identifier) {
            Result::Ok(t) => t,
            Result::Err(er) => {
                return Result::Err(er);
            },
        };
        match self.consume(TokenType::LeftParen) {
            Result::Ok(_) => {},
            Result::Err(er) => {
                return Result::Err(er);
            },
        }
        let mut params: Vec<Token> = Vec::new();
        proof {
            assert(params@.map_values(|x: Token| x@) =~= Seq::<TokenModel>::empty());
        }
        if !(self.kind_at() == TokenType::RightParen) {
            match self.params_list(&mut params) {
                Result::Ok(()) => {},
                Result::Err(er) => {
                    return Result::Err(er);
                },
            }
        }
        proof {
            assert(params@.map_values(|t: Token| t@) =~= params@.map_values(|x: Token| x@));
        }
        match self.consume(TokenType::RightParen) {
            Result::Ok(_) => {},
            Result::Err(er) => {
                return Result::Err(er);
            },
        }
        match self.consume(TokenType::LeftBrace) {
            Result::Ok(_) => {},
            Result::Err(er) => {
                return Result::Err(er);
            },
        }
        let body = match self.block_items() {
            Result::Ok(v) => v,
            Result::Err(er) => {
                return Result::Err(er);
            },
        };
        Result::Ok(Stmt::Function { name, params, body })
    }

    #[verifier::rlimit(100)]
    #[verifier::spinoff_prover]
    fn if_statement(&mut self) -> (r: Result<Stmt, ParseError>)
        requires
            old(self).wf(),
        ensures
            final(self).wf(),
            final(self).toks() == old(self).toks(),
            old(self).pos() <= final(self).pos(),
            match r {
                Result::Ok(s) => sp_if(old(self).toks(), old(self).pos()) == Result::Ok::<
                    (StmtModel, int),
                    ParseErrorModel,
                >((stmt_model(s), final(self).pos())) && old(self).pos() < final(self).pos(),
                Result::Err(pe) => sp_if(old(self).toks(), old(self).pos()) == Result::Err::<
                    (StmtModel, int),
                    ParseErrorModel,
                >(parse_error_model(pe)),
            },
        decreases self.tokens@.len() - self.current, 16int,
    {
        reveal(sp_if);
        match self.consume(TokenType::LeftParen) {
            Result::Ok(_) => {},
            Result::Err(er) => {
                return Result::Err(er);
            },
        }
        let c = match self.expression() {
            Result::Ok(x) => x,
            Result::Err(er) => {
                return Result::Err(er);
            },
        };
        match self.consume(TokenType::RightParen) {
            Result::Ok(_) => {},
            Result::Err(er) => {
                return Result::Err(er);
            },
        }
        match self.consume(TokenType::LeftBrace) {
            Result::Ok(_) => {},
            Result::Err(er) => {
                return Result::Err(er);
            },
        }
        let thenb = match self.block_items() {
            Result::Ok(v) => v,
            Result::Err(er) => {
                return Result::Err(er);
            },
        };
        match self.match_kind(TokenType::KwElse) {
            Option::Some(_) => {
                match self.consume(TokenType::LeftBrace) {
                    Result::Ok(_) => {},
                    Result::Err(er) => {
                        return Result::Err(er);
                    },
                }
                let elsb = match self.block_items() {
                    Result::Ok(v) => v,
                    Result::Err(er) => {
                        return Result::Err(er);
                    },
                };
                let tb = Stmt::Block { stmts: thenb };
                let ghost tbm = stmt_model(tb);
                let eb = Stmt::Block { stmts: elsb };
                let ghost ebm = stmt_model(eb);
                Result::Ok(
                    Stmt::IfElse {
                        condition: c,
                        then: Box::new(tb),
                        els: Option::Some(Box::new(eb)),
                    },
                )
            },
            Option::None => {
                let tb = Stmt::Block { stmts: thenb };
                let ghost tbm = stmt_model(tb);
                Result::Ok(Stmt::IfElse { condition: c, then: Box::new(tb), els: Option::None })
            },
        }
    }

    #[verifier::rlimit(100)]
    #[verifier::spinoff_prover]
    fn while_stmt(&mut self) -> (r: Result<Stmt, ParseError>)
        requires
            old(self).wf(),
        ensures
            final(self).wf(),
            final(self).toks() == old(self).toks(),
            old(self).pos() <= final(self).pos(),
            match r {
                Result::Ok(s) => sp_while(old(self).toks(), old(self).pos()) == Result::Ok::<
                    (StmtModel, int),
                    ParseErrorModel,
                >((stmt_model(s), final(self).pos())) && old(self).pos() < final(self).pos(),
                Result::Err(pe) => sp_while(old(self).toks(), old(self).pos()) == Result::Err::<
                    (StmtModel, int),
                    ParseErrorModel,
                >(parse_error_model(pe)),
            },
        decreases self.tokens@.len() - self.current, 16int,
    {
        reveal(sp_while);
        match self.consume(TokenType::LeftParen) {
            Result::Ok(_) => {},
            Result::Err(er) => {
                return Result::Err(er);
            },
        }
        let c = match self.expression() {
            Result::Ok(x) => x,
            Result::Err(er) => {
                return Result::Err(er);
            },
        };
        match self.consume(TokenType::RightParen) {
            Result::Ok(_) => {},
            Result::Err(er) => {
                return Result::Err(er);
            },
        }
        match self.consume(TokenType::LeftBrace) {
            Result::Ok(_) => {},
            Result::Err(er) => {
                return Result::Err(er);
            },
        }
        let body = match self.block_items() {
            Result::Ok(v) => v,
            Result::Err(er) => {
                return Result::Err(er);
            },
        };
        let blk = Stmt::Block { stmts: body };
        let ghost blkm = stmt_model(blk);
        Result::Ok(Stmt::While { condition: c, block: Box::new(blk) })
    }

    /// The `for` construct, desugared at parse time: the increment becomes
    /// a trailing block in the body, a missing condition defaults to the
    /// `true` literal, and an initializer wraps the loop in a block.
    #[verifier::rlimit(100)]
    #[verifier::spinoff_prover]
    fn for_statement(&mut self) -> (r: Result<Stmt, ParseError>)
        requires
            old(self).wf(),
        ensures
            final(self).wf(),
            final(self).toks() == old(self).toks(),
            old(self).pos() <= final(self).pos(),
            match r {
                Result::Ok(s) => sp_for(old(self).toks(), old(self).pos()) == Result::Ok::<
                    (StmtModel, int),
                    ParseErrorModel,
                >((stmt_model(s), final(self).pos())) && old(self).pos() < final(self).pos(),
                Result::Err(pe) => sp_for(old(self).toks(), old(self).pos()) == Result::Err::<
                    (StmtModel, int),
                    ParseErrorModel,
                >(parse_error_model(pe)),
            },
        decreases self.tokens@.len() - self.current, 16int,
    {
        reveal(sp_for);
        reveal(sp_for_build);
        match self.consume(TokenType::LeftParen) {
            Result::Ok(_) => {},
            Result::Err(er) => {
                return Result::Err(er);
            },
        }
        let k = self.kind_at();
        let init: Option<Stmt> = if k == TokenType::Semicolon {
            let _semi = self.advance_tok();
            Option::None
        } else if k == TokenType::KwFloat || k == TokenType::KwString || k == TokenType::KwBool {
            let _ty = self.advance_tok();
            match self.var_declaration(k) {
                Result::Ok(s) => Option::Some(s),
                Result::Err(er) => {
                    return Result::Err(er);
                },
            }
        } else {
            match self.expression_stmt() {
                Result::Ok(s) => Option::Some(s),
                Result::Err(er) => {
                    return Result::Err(er);
                },
            }
        };
        let cond: Option<Expr> = if self.kind_at() == TokenType::Semicolon {
            Option::None
        } else {
            match self.expression() {
                Result::Ok(e) => Option::Some(e),
                Result::Err(er) => {
                    return Result::Err(er);
                },
            }
        };
        match self.consume(TokenType::Semicolon) {
            Result::Ok(_) => {},
            Result::Err(er) => {
                return Result::Err(er);
            },
        }
        let incr: Option<Expr> = if self.kind_at() == TokenType::RightParen {
            Option::None
        } else {
            match self.expression() {
                Result::Ok(e) => Option::Some(e),
                Result::Err(er) => {
                    return Result::Err(er);
                },
            }
        };
        match self.consume(TokenType::RightParen) {
            Result::Ok(_) => {},
            Result::Err(er) => {
                return Result::Err(er);
            },
        }
        match self.consume(TokenType::LeftBrace) {
            Result::Ok(_) => {},
            Result::Err(er) => {
                return Result::Err(er);
            },
        }
        let mut body = match self.block_items() {
            Result::Ok(v) => v,
            Result::Err(er) => {
                return Result::Err(er);
            },
        };
        match incr {
            Option::Some(e) => {
                let ghost em = expr_model(e);
                let mut inner: Vec<Stmt> = Vec::new();
                let inc_stmt = Stmt::Expression { expression: e };
                proof {
                    crate::stmt::lemma_stmts_model_push(inner@, inc_stmt);
                    assert(inner@ =~= Seq::<Stmt>::empty());
                    assert(stmts_model(Seq::<Stmt>::empty()) =~= Seq::<StmtModel>::empty());
                }
                inner.push(inc_stmt);
                proof {
                    assert(stmts_model(inner@) =~= seq![StmtModel::Expression { expression: em }]);
                }
                let blk = Stmt::Block { stmts: inner };
                proof {
                    crate::stmt::lemma_stmts_model_push(body@, blk);
                }
                body.push(blk);
            },
            Option::None => {},
        }
        let c2 = match cond {
            Option::Some(c) => c,
            Option::None => Expr::Literal { value: LiteralValue::True },
        };
        let bblk = Stmt::Block { stmts: body };
        let ghost bblkm = stmt_model(bblk);
        let w = Stmt::While { condition: c2, block: Box::new(bblk) };
        match init {
            Option::Some(s) => {
                let ghost sm = stmt_model(s);
                let ghost wm = stmt_model(w);
                let mut v: Vec<Stmt> = Vec::new();
                proof {
                    crate::stmt::lemma_stmts_model_push(v@, s);
                    assert(v@ =~= Seq::<Stmt>::empty());
                    assert(stmts_model(Seq::<Stmt>::empty()) =~= Seq::<StmtModel>::empty());
                }
                v.push(s);
                proof {
                    crate::stmt::lemma_stmts_model_push(v@, w);
                }
                v.push(w);
                proof {
                    assert(stmts_model(v@) =~= seq![sm, wm]);
                }
                Result::Ok(Stmt::Block { stmts: v })
            },
            Option::None => Result::Ok(w),
        }
    }

    #[verifier::rlimit(60)]
    #[verifier::spinoff_prover]
    fn statement(&mut self) -> (r: Result<Stmt, ParseError>)
        requires
            old(self).wf(),
        ensures
            final(self).wf(),
            final(self).toks() == old(self).toks(),
            old(self).pos() <= final(self).pos(),
            match r {
                Result::Ok(s) => sp_statement(old(self).toks(), old(self).pos()) == Result::Ok::<
                    (StmtModel, int),
                    ParseErrorModel,
                >((stmt_model(s), final(self).pos())) && old(self).pos() < final(self).pos(),
                Result::Err(pe) => sp_statement(old(self).toks(), old(self).pos()) == Result::Err::<
                    (StmtModel, int),
                    ParseErrorModel,
                >(parse_error_model(pe)),
            },
        decreases self.tokens@.len() - self.current, 13int,
    {
        reveal(sp_statement);
        let k = self.kind_at();
        if k == TokenType::KwPrint {
            let _kw = self.advance_tok();
            self.print_stmt()
        } else if k == TokenType::KwContinue {
            let _kw = self.advance_tok();
            match self.consume(TokenType::Semicolon) {
                Result::Ok(_) => Result::Ok(Stmt::Continue),
                Result::Err(er) => Result::Err(er),
            }
        } else if k == TokenType::KwBreak {
            let _kw = self.advance_tok();
            match self.consume(TokenType::Semicolon) {
                Result::Ok(_) => Result::Ok(Stmt::Break),
                Result::Err(er) => Result::Err(er),
            }
        } else if k == TokenType::KwIf {
            let _kw = self.advance_tok();
            self.if_statement()
        } else if k == TokenType::KwFor {
            let _kw = self.advance_tok();
            self.for_statement()
        } else if k == TokenType::LeftBrace {
            let _kw = self.advance_tok();
            match self.block_items() {
                Result::Ok(items) => Result::Ok(Stmt::Block { stmts: items }),
                Result::Err(er) => Result::Err(er),
            }
        } else if k == TokenType::KwReturn {
            let kw = self.advance_tok();
            self.return_stmt(kw)
        } else if k == TokenType::KwWhile {
            let _kw = self.advance_tok();
            self.while_stmt()
        } else {
            self.expression_stmt()
        }
    }

    /// Panic-mode synchronization: discard tokens until a likely statement
    /// boundary.
    fn synchronize(&mut self)
        requires
            old(self).wf(),
        ensures
            final(self).wf(),
            final(self).toks() == old(self).toks(),
            old(self).pos() <= final(self).pos(),
            tk(old(self).toks(), old(self).pos()) != TokenType::Eof ==> old(self).pos()
                < final(self).pos(),
            tk(old(self).toks(), final(self).pos()) == TokenType::Eof || (final(self).pos() >= 1
                && old(self).toks()[final(self).pos() - 1].token_type == TokenType::Semicolon)
                || sync_kind(tk(old(self).toks(), final(self).pos())),
        decreases self.tokens@.len() - self.current, 16int,
    {
        let mut prev = self.advance_tok();
        while !(self.kind_at() == TokenType::Eof)
            invariant
                self.wf(),
                self.toks() == old(self).toks(),
                old(self).pos() <= self.pos(),
                tk(old(self).toks(), old(self).pos()) != TokenType::Eof ==> old(self).pos()
                    < self.pos(),
                tk(self.toks(), self.pos()) == TokenType::Eof || (self.pos() >= 1 && prev@
                    == self.toks()[self.pos() - 1]),
            decreases self.tokens@.len() - self.current,
        {
            if prev.token_type == TokenType::Semicolon {
                return ;
            }
            let k = self.kind_at();
            if k == TokenType::KwClass || k == TokenType::KwFun || k == TokenType::KwFloat || k
                == TokenType::KwString || k == TokenType::KwBool || k == TokenType::KwFor || k
                == TokenType::KwIf || k == TokenType::KwWhile || k == TokenType::KwPrint || k
                == TokenType::KwReturn {
                return ;
            }
            prev = self.advance_tok();
        }
    }

    #[verifier::rlimit(60)]
    #[verifier::spinoff_prover]
    fn declaration(&mut self) -> (r: Result<Stmt, ParseError>)
        requires
            old(self).wf(),
        ensures
            final(self).wf(),
            final(self).toks() == old(self).toks(),
            old(self).pos() <= final(self).pos(),
            match r {
                Result::Ok(s) => sp_declaration(old(self).toks(), old(self).pos()) == Result::Ok::<
                    (StmtModel, int),
                    ParseErrorModel,
                >((stmt_model(s), final(self).pos())) && old(self).pos() < final(self).pos(),
                Result::Err(pe) => sp_declaration(old(self).toks(), old(self).pos()) == Result::Err::<
                    (StmtModel, int),
                    ParseErrorModel,
                >(parse_error_model(pe)),
            },
        decreases self.tokens@.len() - self.current, 14int,
    {
        reveal(sp_declaration);
        let k = self.kind_at();
        if k == TokenType::KwFloat || k == TokenType::KwString || k == TokenType::KwBool {
            let _ty = self.advance_tok();
            match self.var_declaration(k) {
                Result::Ok(s) => Result::Ok(s),
                Result::Err(er) => {
                    self.synchronize();
                    Result::Err(er)
                },
            }
        } else if k == TokenType::KwFun {
            let _kw = self.advance_tok();
            self.function_decl()
        } else {
            self.statement()
        }
    }

    /// Parse the whole token sequence into the statement sequence, or stop
    /// at the first syntax error.
    #[verifier::rlimit(60)]
    #[verifier::spinoff_prover]
    pub fn parse(&mut self) -> (r: Result<Vec<Stmt>, ParseError>)
        requires
            old(self).wf(),
        ensures
            final(self).wf(),
            final(self).toks() == old(self).toks(),
            match r {
                Result::Ok(stmts) => sp_program(
                    old(self).toks(),
                    old(self).pos(),
                    Seq::<StmtModel>::empty(),
                ) == Result::Ok::<(Seq<StmtModel>, int), ParseErrorModel>(
                    (stmts_model(stmts@), final(self).pos()),
                ),
                Result::Err(pe) => sp_program(
                    old(self).toks(),
                    old(self).pos(),
                    Seq::<StmtModel>::empty(),
                ) == Result::Err::<(Seq<StmtModel>, int), ParseErrorModel>(parse_error_model(pe)),
            },
    {
        reveal(sp_program);
        let mut stmts: Vec<Stmt> = Vec::new();
        while !(self.kind_at() == TokenType::Eof)
            invariant
                self.wf(),
                self.toks() == old(self).toks(),
                old(self).pos() <= self.pos(),
                sp_program(old(self).toks(), old(self).pos(), Seq::<StmtModel>::empty())
                    == sp_program(old(self).toks(), self.pos(), stmts_model(stmts@)),
            decreases self.tokens@.len() - self.current,
        {
            reveal(sp_program);
            let s = match self.declaration() {
                Result::Ok(x) => x,
                Result::Err(er) => {
                    return Result::Err(er);
                },
            };
            proof {
                crate::stmt::lemma_stmts_model_push(stmts@, s);
            }
            stmts.push(s);
        }
        Result::Ok(stmts)
    }

}

} // verus!
