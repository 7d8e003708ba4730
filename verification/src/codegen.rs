//! Type-directed code generation: one pass over the statement tree that
//! builds a control-flow graph of instructions in the library's own
//! instruction model, ready for a native backend to emit.
//!
//! The whole lowering is specified by the `gen_*` spec functions, a model
//! of the generator over [`CState`]; every public generator function
//! returns exactly what that model describes.

use vstd::prelude::*;
use vstd::string::StringExecFns;
use crate::expr::{duplicate_string, Expr, ExprModel, LiteralValue, LiteralValueModel};
use crate::stmt::{stmt_model, stmts_model, Stmt, StmtModel};
use crate::token::TokenType;

verus! {

/// Storage representation of a declared type: `float` is a 64-bit float,
/// `bool` a 1-bit integer, `string` an opaque pointer.
#[derive(Clone, Copy, Debug, PartialEq, Eq, Structural)]
pub enum VarType {
    Float,
    Bool,
    Ptr,
}

/// The machine kind of a produced value: float, integer (booleans and
/// comparison results), or pointer.
#[derive(Clone, Copy, Debug, PartialEq, Eq, Structural)]
pub enum ValKind {
    F,
    I,
    P,
}

#[derive(Clone, Copy, Debug, PartialEq, Eq, Structural)]
pub enum FOp {
    Add,
    Sub,
    Mul,
    Div,
}

/// Ordered float comparison predicates.
#[derive(Clone, Copy, Debug, PartialEq, Eq, Structural)]
pub enum CmpPred {
    Ogt,
    Olt,
    Oge,
    Ole,
    Oeq,
    One,
}

/// One instruction. Instructions that produce a value are assigned value
/// ids in emission order, starting from zero.
#[derive(Debug)]
pub enum Instr {
    /// Allocate a stack slot; produces a pointer id.
    Alloca { ty: VarType },
    Store { ptr: usize, val: usize },
    /// Load from a slot; produces an id.
    Load { ty: VarType, ptr: usize },
    /// A float constant written as its numeral text; produces an id.
    ConstNum { text: String },
    /// A 1-bit boolean constant; produces an id.
    ConstBool { val: bool },
    /// A pointer to the global string with the given index; produces an id.
    GlobalStr { index: usize },
    /// Numeric negation of a float value; produces an id.
    FNeg { v: usize },
    /// Float arithmetic; produces an id.
    FBin { op: FOp, l: usize, r: usize },
    /// Float comparison; produces a 1-bit integer id.
    FCmp { pred: CmpPred, l: usize, r: usize },
    /// Select between two global-string pointers by a 1-bit condition;
    /// produces an id.
    SelectStr { cond: usize, then_g: usize, else_g: usize },
    /// A formatted-output call: format-string pointer and one argument.
    Printf { fmt: usize, arg: usize },
    Br { target: usize },
    CondBr { cond: usize, then_b: usize, else_b: usize },
    RetZero,
}

/// Mathematical model of an `Instr`.
pub enum InstrModel {
    Alloca(VarType),
    Store(int, int),
    Load(VarType, int),
    ConstNum(Seq<char>),
    ConstBool(bool),
    GlobalStr(int),
    FNeg(int),
    FBin(FOp, int, int),
    FCmp(CmpPred, int, int),
    SelectStr(int, int, int),
    Printf(int, int),
    Br(int),
    CondBr(int, int, int),
    RetZero,
}

pub open spec fn instr_model(i: Instr) -> InstrModel {
    match i {
        Instr::Alloca { ty } => InstrModel::Alloca(ty),
        Instr::Store { ptr, val } => InstrModel::Store(ptr as int, val as int),
        Instr::Load { ty, ptr } => InstrModel::Load(ty, ptr as int),
        Instr::ConstNum { text } => InstrModel::ConstNum(text@),
        Instr::ConstBool { val } => InstrModel::ConstBool(val),
        Instr::GlobalStr { index } => InstrModel::GlobalStr(index as int),
        Instr::FNeg { v } => InstrModel::FNeg(v as int),
        Instr::FBin { op, l, r } => InstrModel::FBin(op, l as int, r as int),
        Instr::FCmp { pred, l, r } => InstrModel::FCmp(pred, l as int, r as int),
        Instr::SelectStr { cond, then_g, else_g } => InstrModel::SelectStr(
            cond as int,
            then_g as int,
            else_g as int,
        ),
        Instr::Printf { fmt, arg } => InstrModel::Printf(fmt as int, arg as int),
        Instr::Br { target } => InstrModel::Br(target as int),
        Instr::CondBr { cond, then_b, else_b } => InstrModel::CondBr(
            cond as int,
            then_b as int,
            else_b as int,
        ),
        Instr::RetZero => InstrModel::RetZero,
    }
}

pub open spec fn instrs_model(s: Seq<(usize, Instr)>) -> Seq<(int, InstrModel)>
    decreases s,
{
    if s.len() == 0 {
        Seq::<(int, InstrModel)>::empty()
    } else {
        instrs_model(s.drop_last()).push((s.last().0 as int, instr_model(s.last().1)))
    }
}

/// `instrs_model` distributes over `push`.
pub proof fn lemma_instrs_model_push(s: Seq<(usize, Instr)>, e: (usize, Instr))
    ensures
        instrs_model(s.push(e)) == instrs_model(s).push((e.0 as int, instr_model(e.1))),
{
    assert(s.push(e).drop_last() =~= s);
    assert(s.push(e).last() == e);
}

/// The in-memory module: global string constants, the number of basic
/// blocks, and the instructions, each tagged with the block it belongs to,
/// in emission order.
#[derive(Debug)]
pub struct Module {
    pub strings: Vec<String>,
    pub n_blocks: usize,
    pub instrs: Vec<(usize, Instr)>,
}

/// The reason code generation failed.
#[derive(Debug)]
pub enum GenError {
    /// A statement variant the generator does not lower.
    UnsupportedStatement,
    /// An expression variant the generator does not lower.
    UnsupportedExpression,
    /// A `nil` literal reaching value compilation.
    UnsupportedLiteral,
    /// An operator or operand-kind combination outside the float fragment.
    UnsupportedOperator,
    /// A conditional whose static tag is not the integer-like condition tag.
    TypeMismatch,
    /// A name that is not in the symbol table.
    UnresolvedSymbol(String),
    /// A declared type other than `float`, `string` or `bool`.
    InvalidType,
    /// An `IfElse` or `While` payload that is not a block.
    ExpectedBlock,
}

/// Mathematical model of a `GenError`.
pub enum GenErrorModel {
    UnsupportedStatement,
    UnsupportedExpression,
    UnsupportedLiteral,
    UnsupportedOperator,
    TypeMismatch,
    UnresolvedSymbol(Seq<char>),
    InvalidType,
    ExpectedBlock,
}

pub open spec fn gen_error_model(e: GenError) -> GenErrorModel {
    match e {
        GenError::UnsupportedStatement => GenErrorModel::UnsupportedStatement,
        GenError::UnsupportedExpression => GenErrorModel::UnsupportedExpression,
        GenError::UnsupportedLiteral => GenErrorModel::UnsupportedLiteral,
        GenError::UnsupportedOperator => GenErrorModel::UnsupportedOperator,
        GenError::TypeMismatch => GenErrorModel::TypeMismatch,
        GenError::UnresolvedSymbol(s) => GenErrorModel::UnresolvedSymbol(s@),
        GenError::InvalidType => GenErrorModel::InvalidType,
        GenError::ExpectedBlock => GenErrorModel::ExpectedBlock,
    }
}

/// Mathematical model of the generator state: interned string texts, block
/// count, tagged instruction stream, cursor block, next value id, and the
/// flat symbol table.
pub struct CState {
    pub strings: Seq<Seq<char>>,
    pub n_blocks: int,
    pub instrs: Seq<(int, InstrModel)>,
    pub cur: int,
    pub next_id: int,
    pub vars: Seq<(Seq<char>, TokenType, VarType, int)>,
}

pub open spec fn var_entry_model(e: (String, TokenType, VarType, usize)) -> (
    Seq<char>,
    TokenType,
    VarType,
    int,
) {
    (e.0@, e.1, e.2, e.3 as int)
}

pub open spec fn vars_model(vs: Seq<(String, TokenType, VarType, usize)>) -> Seq<
    (Seq<char>, TokenType, VarType, int),
> {
    vs.map_values(|e: (String, TokenType, VarType, usize)| var_entry_model(e))
}

/// The storage representation of a declared type keyword, if it has one.
pub open spec fn basic_type_spec(ty: TokenType) -> Option<VarType> {
    match ty {
        TokenType::KwFloat => Option::Some(VarType::Float),
        TokenType::KwBool => Option::Some(VarType::Bool),
        TokenType::KwString => Option::Some(VarType::Ptr),
        _ => Option::None,
    }
}

/// The machine kind of a value loaded from a slot of the given storage
/// representation.
pub open spec fn kind_of_spec(vt: VarType) -> ValKind {
    match vt {
        VarType::Float => ValKind::F,
        VarType::Bool => ValKind::I,
        VarType::Ptr => ValKind::P,
    }
}

/// Symbol lookup: the most recent entry for a name wins (re-declaring a
/// name overwrites), `None` exactly when the name is absent.
pub open spec fn env_lookup(
    vs: Seq<(Seq<char>, TokenType, VarType, int)>,
    name: Seq<char>,
) -> Option<(TokenType, VarType, int)>
    decreases vs.len(),
{
    if vs.len() == 0 {
        Option::None
    } else if vs.last().0 == name {
        Option::Some((vs.last().1, vs.last().2, vs.last().3))
    } else {
        env_lookup(vs.drop_last(), name)
    }
}

pub open spec fn m_emit(s: CState, i: InstrModel) -> CState {
    CState { instrs: s.instrs.push((s.cur, i)), ..s }
}

pub open spec fn m_emit_value(s: CState, i: InstrModel) -> (CState, int) {
    (CState { instrs: s.instrs.push((s.cur, i)), next_id: s.next_id + 1, ..s }, s.next_id)
}

pub open spec fn m_add_string(s: CState, txt: Seq<char>) -> (CState, int) {
    (CState { strings: s.strings.push(txt), ..s }, s.strings.len() as int)
}

pub open spec fn m_append_block(s: CState) -> (CState, int) {
    (CState { n_blocks: s.n_blocks + 1, ..s }, s.n_blocks)
}

pub open spec fn m_set_cur(s: CState, b: int) -> CState {
    CState { cur: b, ..s }
}

pub open spec fn m_push_var(s: CState, name: Seq<char>, ty: TokenType, vt: VarType, slot: int) -> CState {
    CState { vars: s.vars.push((name, ty, vt, slot)), ..s }
}

pub type GVal = Result<(CState, TokenType, int, ValKind), GenErrorModel>;

pub type GStep = Result<CState, GenErrorModel>;

/// Lowering a semantic constant: numbers become float constants tagged
/// with the integer-like condition tag, booleans 1-bit constants, strings
/// interned text behind a global pointer; `nil` is not lowered.
#[verifier::opaque]
pub open spec fn gen_value(s: CState, v: LiteralValueModel) -> GVal {
    match v {
        LiteralValueModel::Number(txt) => {
            let (s1, id) = m_emit_value(s, InstrModel::ConstNum(txt));
            Result::Ok((s1, TokenType::Int, id, ValKind::F))
        },
        LiteralValueModel::True => {
            let (s1, id) = m_emit_value(s, InstrModel::ConstBool(true));
            Result::Ok((s1, TokenType::KwBool, id, ValKind::I))
        },
        LiteralValueModel::False => {
            let (s1, id) = m_emit_value(s, InstrModel::ConstBool(false));
            Result::Ok((s1, TokenType::KwBool, id, ValKind::I))
        },
        LiteralValueModel::StringValue(txt) => {
            let (s1, idx) = m_add_string(s, txt);
            let (s2, id) = m_emit_value(s1, InstrModel::GlobalStr(idx));
            Result::Ok((s2, TokenType::KwString, id, ValKind::P))
        },
        LiteralValueModel::Nil => Result::Err(GenErrorModel::UnsupportedLiteral),
    }
}

/// Lowering an expression: the resulting state, static tag, value id and
/// machine kind, or the first generation error. Assignment loads the old
/// value before the right-hand side and returns it with the declared type;
/// a binary result takes the right operand's tag.
#[verifier::opaque]
pub open spec fn gen_expr(s: CState, e: ExprModel) -> GVal
    decreases e,
{
    match e {
        ExprModel::Assign { name, value } => match env_lookup(s.vars, name.lexeme) {
            Option::Some((ty, vt, slot)) => {
                let (s1, old_id) = m_emit_value(s, InstrModel::Load(vt, slot));
                match gen_expr(s1, *value) {
                    Result::Ok((s2, _rty, rid, _rk)) => Result::Ok(
                        (
                            m_emit(s2, InstrModel::Store(slot, rid)),
                            ty,
                            old_id,
                            kind_of_spec(vt),
                        ),
                    ),
                    Result::Err(er) => Result::Err(er),
                }
            },
            Option::None => Result::Err(GenErrorModel::UnresolvedSymbol(name.lexeme)),
        },
        ExprModel::Literal { value } => gen_value(s, value),
        ExprModel::Grouping { expression } => gen_expr(s, *expression),
        ExprModel::Unary { operator, right } => match gen_expr(s, *right) {
            Result::Ok((s1, _ty, vid, vk)) => if operator.token_type == TokenType::Minus && vk
                == ValKind::F {
                let (s2, id) = m_emit_value(s1, InstrModel::FNeg(vid));
                Result::Ok((s2, TokenType::Int, id, ValKind::F))
            } else {
                Result::Err(GenErrorModel::UnsupportedOperator)
            },
            Result::Err(er) => Result::Err(er),
        },
        ExprModel::Variable { name } => match env_lookup(s.vars, name.lexeme) {
            Option::Some((ty, vt, slot)) => {
                let (s1, id) = m_emit_value(s, InstrModel::Load(vt, slot));
                Result::Ok((s1, ty, id, kind_of_spec(vt)))
            },
            Option::None => Result::Err(GenErrorModel::UnresolvedSymbol(name.lexeme)),
        },
        ExprModel::Binary { left, operator, right } => match gen_expr(s, *left) {
            Result::Ok((s1, _lty, lid, lk)) => match gen_expr(s1, *right) {
                Result::Ok((s2, rty, rid, rk)) => if !(lk == ValKind::F && rk == ValKind::F) {
                    Result::Err(GenErrorModel::UnsupportedOperator)
                } else {
                    match operator.token_type {
                        TokenType::Plus => {
                            let (s3, id) = m_emit_value(s2, InstrModel::FBin(FOp::Add, lid, rid));
                            Result::Ok((s3, rty, id, ValKind::F))
                        },
                        TokenType::Minus => {
                            let (s3, id) = m_emit_value(s2, InstrModel::FBin(FOp::Sub, lid, rid));
                            Result::Ok((s3, rty, id, ValKind::F))
                        },
                        TokenType::Star => {
                            let (s3, id) = m_emit_value(s2, InstrModel::FBin(FOp::Mul, lid, rid));
                            Result::Ok((s3, rty, id, ValKind::F))
                        },
                        TokenType::Slash => {
                            let (s3, id) = m_emit_value(s2, InstrModel::FBin(FOp::Div, lid, rid));
                            Result::Ok((s3, rty, id, ValKind::F))
                        },
                        TokenType::Greater => {
                            let (s3, id) = m_emit_value(
                                s2,
                                InstrModel::FCmp(CmpPred::Ogt, lid, rid),
                            );
                            Result::Ok((s3, rty, id, ValKind::I))
                        },
                        TokenType::Less => {
                            let (s3, id) = m_emit_value(
                                s2,
                                InstrModel::FCmp(CmpPred::Olt, lid, rid),
                            );
                            Result::Ok((s3, rty, id, ValKind::I))
                        },
                        TokenType::GreaterEqual => {
                            let (s3, id) = m_emit_value(
                                s2,
                                InstrModel::FCmp(CmpPred::Oge, lid, rid),
                            );
                            Result::Ok((s3, rty, id, ValKind::I))
                        },
                        TokenType::LessEqual => {
                            let (s3, id) = m_emit_value(
                                s2,
                                InstrModel::FCmp(CmpPred::Ole, lid, rid),
                            );
                            Result::Ok((s3, rty, id, ValKind::I))
                        },
                        TokenType::EqualEqual => {
                            let (s3, id) = m_emit_value(
                                s2,
                                InstrModel::FCmp(CmpPred::Oeq, lid, rid),
                            );
                            Result::Ok((s3, rty, id, ValKind::I))
                        },
                        TokenType::BangEqual => {
                            let (s3, id) = m_emit_value(
                                s2,
                                InstrModel::FCmp(CmpPred::One, lid, rid),
                            );
                            Result::Ok((s3, rty, id, ValKind::I))
                        },
                        _ => Result::Err(GenErrorModel::UnsupportedOperator),
                    }
                },
                Result::Err(er) => Result::Err(er),
            },
            Result::Err(er) => Result::Err(er),
        },
        ExprModel::Call { callie: _, paren: _, args: _ } => Result::Err(
            GenErrorModel::UnsupportedExpression,
        ),
        ExprModel::Logical { expression: _, operator: _, right: _ } => Result::Err(
            GenErrorModel::UnsupportedExpression,
        ),
    }
}

/// Lowering a print of a computed value: the format specifier is selected
/// by the value's machine kind — float prints through `%f`, a pointer
/// through `%s`, a boolean as the text `true`/`false` selected by the
/// value under `%s`, any other integer through `%d`. Total: printing a
/// computed value always succeeds.
#[verifier::opaque]
pub open spec fn gen_print(s: CState, value: int, kind: ValKind, typ: TokenType) -> CState {
    match kind {
        ValKind::F => {
            let (s1, idx) = m_add_string(s, "%f\n"@);
            let (s2, fid) = m_emit_value(s1, InstrModel::GlobalStr(idx));
            m_emit(s2, InstrModel::Printf(fid, value))
        },
        ValKind::P => {
            let (s1, idx) = m_add_string(s, "%s\n"@);
            let (s2, fid) = m_emit_value(s1, InstrModel::GlobalStr(idx));
            m_emit(s2, InstrModel::Printf(fid, value))
        },
        ValKind::I => if typ == TokenType::KwBool {
            let (s1, tidx) = m_add_string(s, "true"@);
            let (s2, tg) = m_emit_value(s1, InstrModel::GlobalStr(tidx));
            let (s3, fidx) = m_add_string(s2, "false"@);
            let (s4, fg) = m_emit_value(s3, InstrModel::GlobalStr(fidx));
            let (s5, sel) = m_emit_value(s4, InstrModel::SelectStr(value, tg, fg));
            let (s6, fmidx) = m_add_string(s5, "%s\n"@);
            let (s7, fmid) = m_emit_value(s6, InstrModel::GlobalStr(fmidx));
            m_emit(s7, InstrModel::Printf(fmid, sel))
        } else {
            let (s1, idx) = m_add_string(s, "%d\n"@);
            let (s2, fid) = m_emit_value(s1, InstrModel::GlobalStr(idx));
            m_emit(s2, InstrModel::Printf(fid, value))
        },
    }
}

/// Lowering one statement, per spec of the surface language: `Var`
/// allocates, registers and stores; `IfElse` and `While` build the
/// then/else/merge and header/body/merge block shapes and demand an
/// integer-tagged condition; `Function`, `Return`, `Break` and `Continue`
/// are not lowered.
pub open spec fn gen_stmt(s: CState, st: StmtModel) -> GStep
    decreases st,
{
    match st {
        StmtModel::Var { name, data_type, initializer } => match basic_type_spec(data_type) {
            Option::Some(vt) => {
                let (s1, slot) = m_emit_value(s, InstrModel::Alloca(vt));
                let s2 = m_push_var(s1, name.lexeme, data_type, vt, slot);
                match gen_expr(s2, initializer) {
                    Result::Ok((s3, _ty, vid, _vk)) => Result::Ok(
                        m_emit(s3, InstrModel::Store(slot, vid)),
                    ),
                    Result::Err(er) => Result::Err(er),
                }
            },
            Option::None => Result::Err(GenErrorModel::InvalidType),
        },
        StmtModel::IfElse { condition, then, els } => match gen_expr(s, condition) {
            Result::Ok((s1, cty, cid, ck)) => if !(cty == TokenType::Int && ck == ValKind::I) {
                Result::Err(GenErrorModel::TypeMismatch)
            } else {
                match els {
                    Option::Some(eb) => {
                        let (s2, tb) = m_append_block(s1);
                        let (s3, ebk) = m_append_block(s2);
                        let (s4, mb) = m_append_block(s3);
                        let s5 = m_set_cur(m_emit(s4, InstrModel::CondBr(cid, tb, ebk)), tb);
                        match gen_payload(s5, *then) {
                            Result::Ok(s6) => {
                                let s7 = m_set_cur(m_emit(s6, InstrModel::Br(mb)), ebk);
                                match gen_payload(s7, *eb) {
                                    Result::Ok(s8) => Result::Ok(
                                        m_set_cur(m_emit(s8, InstrModel::Br(mb)), mb),
                                    ),
                                    Result::Err(er) => Result::Err(er),
                                }
                            },
                            Result::Err(er) => Result::Err(er),
                        }
                    },
                    Option::None => {
                        let (s2, tb) = m_append_block(s1);
                        let (s3, mb) = m_append_block(s2);
                        let s4 = m_set_cur(m_emit(s3, InstrModel::CondBr(cid, tb, mb)), tb);
                        match gen_payload(s4, *then) {
                            Result::Ok(s5) => Result::Ok(
                                m_set_cur(m_emit(s5, InstrModel::Br(mb)), mb),
                            ),
                            Result::Err(er) => Result::Err(er),
                        }
                    },
                }
            },
            Result::Err(er) => Result::Err(er),
        },
        StmtModel::While { condition, block } => {
            let (s1, hb) = m_append_block(s);
            let (s2, bb) = m_append_block(s1);
            let (s3, mb) = m_append_block(s2);
            let s4 = m_set_cur(m_emit(s3, InstrModel::Br(hb)), hb);
            match gen_expr(s4, condition) {
                Result::Ok((s5, cty, cid, ck)) => if !(cty == TokenType::Int && ck == ValKind::I) {
                    Result::Err(GenErrorModel::TypeMismatch)
                } else {
                    let s6 = m_set_cur(m_emit(s5, InstrModel::CondBr(cid, bb, mb)), bb);
                    match gen_payload(s6, *block) {
                        Result::Ok(s7) => Result::Ok(
                            m_set_cur(m_emit(s7, InstrModel::Br(hb)), mb),
                        ),
                        Result::Err(er) => Result::Err(er),
                    }
                },
                Result::Err(er) => Result::Err(er),
            }
        },
        StmtModel::Expression { expression } => match gen_expr(s, expression) {
            Result::Ok((s1, _t, _i, _k)) => Result::Ok(s1),
            Result::Err(er) => Result::Err(er),
        },
        StmtModel::Print { expression } => match gen_expr(s, expression) {
            Result::Ok((s1, ty, vid, vk)) => Result::Ok(gen_print(s1, vid, vk, ty)),
            Result::Err(er) => Result::Err(er),
        },
        StmtModel::Block { stmts } => gen_stmts(s, stmts),
        StmtModel::Function { name: _, params: _, body: _ } => Result::Err(
            GenErrorModel::UnsupportedStatement,
        ),
        StmtModel::Return { token: _, expr: _ } => Result::Err(
            GenErrorModel::UnsupportedStatement,
        ),
        StmtModel::Break => Result::Err(GenErrorModel::UnsupportedStatement),
        StmtModel::Continue => Result::Err(GenErrorModel::UnsupportedStatement),
    }
}

/// Lowering a statement sequence in order, stopping at the first error.
pub open spec fn gen_stmts(s: CState, ss: Seq<StmtModel>) -> GStep
    decreases ss,
{
    if ss.len() == 0 {
        Result::Ok(s)
    } else {
        match gen_stmt(s, ss[0]) {
            Result::Ok(s1) => gen_stmts(s1, ss.subrange(1, ss.len() as int)),
            Result::Err(er) => Result::Err(er),
        }
    }
}

/// Lowering the payload of an `IfElse` arm or a `While` body, which must
/// be a `Block` node.
#[verifier::opaque]
pub open spec fn gen_payload(s: CState, b: StmtModel) -> GStep
    decreases b,
{
    match b {
        StmtModel::Block { stmts } => gen_stmts(s, stmts),
        _ => Result::Err(GenErrorModel::ExpectedBlock),
    }
}

/// Reduction of the lowering model: a failing `while` body fails the
/// whole statement.
#[verifier::rlimit(100)]
#[verifier::spinoff_prover]
proof fn lemma_gen_while_err(
    s: CState,
    cm: ExprModel,
    bm: StmtModel,
    s5: CState,
    em: GenErrorModel,
    cid: int,
)
    requires
        ({
            let (s1, hb) = m_append_block(s);
            let (s2, bb) = m_append_block(s1);
            let (s3, mb) = m_append_block(s2);
            let s4 = m_set_cur(m_emit(s3, InstrModel::Br(hb)), hb);
            gen_expr(s4, cm) == Result::Ok::<(CState, TokenType, int, ValKind), GenErrorModel>(
                (s5, TokenType::Int, cid, ValKind::I),
            ) && gen_payload(
                m_set_cur(m_emit(s5, InstrModel::CondBr(cid, bb, mb)), bb),
                bm,
            ) == Result::Err::<CState, GenErrorModel>(em)
        }),
    ensures
        gen_stmt(s, StmtModel::While { condition: cm, block: Box::new(bm) }) == Result::Err::<
            CState,
            GenErrorModel,
        >(em),
{
    reveal_with_fuel(gen_stmt, 2);
}

/// Reduction of the lowering model: a failing `then` arm fails the whole
/// conditional.
#[verifier::rlimit(100)]
#[verifier::spinoff_prover]
proof fn lemma_gen_if_then_err(
    s: CState,
    cm: ExprModel,
    tm: StmtModel,
    elsm: Option<Box<StmtModel>>,
    s1: CState,
    em: GenErrorModel,
    cid: int,
)
    requires
        gen_expr(s, cm) == Result::Ok::<(CState, TokenType, int, ValKind), GenErrorModel>(
            (s1, TokenType::Int, cid, ValKind::I),
        ),
        ({
            match elsm {
                Option::Some(_) => {
                    let (s2, tb) = m_append_block(s1);
                    let (s3, ebk) = m_append_block(s2);
                    let (s4, mb) = m_append_block(s3);
                    gen_payload(
                        m_set_cur(m_emit(s4, InstrModel::CondBr(cid, tb, ebk)), tb),
                        tm,
                    ) == Result::Err::<CState, GenErrorModel>(em)
                },
                Option::None => {
                    let (s2, tb) = m_append_block(s1);
                    let (s3, mb) = m_append_block(s2);
                    gen_payload(
                        m_set_cur(m_emit(s3, InstrModel::CondBr(cid, tb, mb)), tb),
                        tm,
                    ) == Result::Err::<CState, GenErrorModel>(em)
                },
            }
        }),
    ensures
        gen_stmt(s, StmtModel::IfElse { condition: cm, then: Box::new(tm), els: elsm })
            == Result::Err::<CState, GenErrorModel>(em),
{
    reveal_with_fuel(gen_stmt, 2);
}

/// Reduction of the lowering model: a failing `else` arm fails the whole
/// conditional.
#[verifier::rlimit(100)]
#[verifier::spinoff_prover]
proof fn lemma_gen_if_else_err(
    s: CState,
    cm: ExprModel,
    tm: StmtModel,
    elm: StmtModel,
    s1: CState,
    em: GenErrorModel,
    cid: int,
)
    requires
        gen_expr(s, cm) == Result::Ok::<(CState, TokenType, int, ValKind), GenErrorModel>(
            (s1, TokenType::Int, cid, ValKind::I),
        ),
        ({
            let (s2, tb) = m_append_block(s1);
            let (s3, ebk) = m_append_block(s2);
            let (s4, mb) = m_append_block(s3);
            let s5 = m_set_cur(m_emit(s4, InstrModel::CondBr(cid, tb, ebk)), tb);
            match gen_payload(s5, tm) {
                Result::Ok(s6) => gen_payload(
                    m_set_cur(m_emit(s6, InstrModel::Br(mb)), ebk),
                    elm,
                ) == Result::Err::<CState, GenErrorModel>(em),
                Result::Err(_) => false,
            }
        }),
    ensures
        gen_stmt(
            s,
            StmtModel::IfElse {
                condition: cm,
                then: Box::new(tm),
                els: Option::Some(Box::new(elm)),
            },
        ) == Result::Err::<CState, GenErrorModel>(em),
{
    reveal_with_fuel(gen_stmt, 2);
}

/// Lowering a whole program: every top-level statement in input order,
/// then the return-zero instruction at the final cursor.
#[verifier::opaque]
pub open spec fn gen_program(s: CState, ss: Seq<StmtModel>) -> GStep {
    match gen_stmts(s, ss) {
        Result::Ok(s1) => Result::Ok(m_emit(s1, InstrModel::RetZero)),
        Result::Err(er) => Result::Err(er),
    }
}

/// The code generator: the module being built, the current block the
/// cursor sits in, the next value id, the flat symbol table, and one mark
/// per allocated block (the ledger that keeps the block count
/// arithmetic-free).
pub struct Compiler {
    pub module: Module,
    pub cur: usize,
    pub next_id: usize,
    pub vars: Vec<(String, TokenType, VarType, usize)>,
    pub block_marks: Vec<bool>,
}

/// The generator state as its model.
pub open spec fn cstate(c: Compiler) -> CState {
    CState {
        strings: c.module.strings@.map_values(|s: String| s@),
        n_blocks: c.module.n_blocks as int,
        instrs: instrs_model(c.module.instrs@),
        cur: c.cur as int,
        next_id: c.next_id as int,
        vars: vars_model(c.vars@),
    }
}

impl Compiler {
    /// Generator validity: value ids never outrun the instruction stream
    /// and the block count matches its ledger, so fresh ids and blocks can
    /// always be handed out.
    pub open spec fn wf_c(self) -> bool {
        &&& self.next_id <= self.module.instrs@.len()
        &&& self.module.n_blocks == self.block_marks@.len()
    }

    /// A fresh generator: one entry block, an empty symbol table, the
    /// cursor at the entry block.
    pub fn new() -> (c: Compiler)
        ensures
            c.wf_c(),
            cstate(c) == (CState {
                strings: Seq::<Seq<char>>::empty(),
                n_blocks: 1,
                instrs: Seq::<(int, InstrModel)>::empty(),
                cur: 0,
                next_id: 0,
                vars: Seq::<(Seq<char>, TokenType, VarType, int)>::empty(),
            }),
    {
        let mut marks: Vec<bool> = Vec::new();
        marks.push(true);
        let c = Compiler {
            module: Module { strings: Vec::new(), n_blocks: 1, instrs: Vec::new() },
            cur: 0,
            next_id: 0,
            vars: Vec::new(),
            block_marks: marks,
        };
        proof {
            assert(c.module.strings@.map_values(|s: String| s@) =~= Seq::<Seq<char>>::empty());
            assert(instrs_model(c.module.instrs@) =~= Seq::<(int, InstrModel)>::empty());
            assert(vars_model(c.vars@) =~= Seq::<(Seq<char>, TokenType, VarType, int)>::empty());
        }
        c
    }

    /// Append a new basic block and return its id.
    fn append_block(&mut self) -> (b: usize)
        requires
            old(self).wf_c(),
        ensures
            final(self).wf_c(),
            (cstate(*final(self)), b as int) == m_append_block(cstate(*old(self))),
    {
        let b = self.module.n_blocks;
        self.block_marks.push(true);
        self.module.n_blocks = self.block_marks.len();
        proof {
            assert(cstate(*self).strings =~= cstate(*old(self)).strings);
            assert(cstate(*self).instrs =~= cstate(*old(self)).instrs);
            assert(cstate(*self).vars =~= cstate(*old(self)).vars);
        }
        b
    }

    /// Append an instruction that produces no value to the current block.
    fn emit(&mut self, i: Instr)
        requires
            old(self).wf_c(),
        ensures
            final(self).wf_c(),
            cstate(*final(self)) == m_emit(cstate(*old(self)), instr_model(i)),
    {
        proof {
            lemma_instrs_model_push(self.module.instrs@, (self.cur, i));
        }
        self.module.instrs.push((self.cur, i));
        proof {
            assert(cstate(*self).strings =~= cstate(*old(self)).strings);
            assert(cstate(*self).vars =~= cstate(*old(self)).vars);
        }
    }

    /// Append a value-producing instruction and return its fresh id.
    fn emit_value(&mut self, i: Instr) -> (id: usize)
        requires
            old(self).wf_c(),
        ensures
            final(self).wf_c(),
            (cstate(*final(self)), id as int) == m_emit_value(
                cstate(*old(self)),
                instr_model(i),
            ),
    {
        proof {
            lemma_instrs_model_push(self.module.instrs@, (self.cur, i));
        }
        self.module.instrs.push((self.cur, i));
        let n = self.module.instrs.len();
        let id = self.next_id;
        self.next_id = id + 1;
        proof {
            assert(cstate(*self).strings =~= cstate(*old(self)).strings);
            assert(cstate(*self).vars =~= cstate(*old(self)).vars);
        }
        id
    }

    /// Intern a global string constant and return its index.
    fn add_string(&mut self, s: String) -> (idx: usize)
        requires
            old(self).wf_c(),
        ensures
            final(self).wf_c(),
            (cstate(*final(self)), idx as int) == m_add_string(cstate(*old(self)), s@),
    {
        let idx = self.module.strings.len();
        self.module.strings.push(s);
        proof {
            assert(cstate(*self).strings =~= cstate(*old(self)).strings.push(s@));
            assert(cstate(*self).instrs =~= cstate(*old(self)).instrs);
            assert(cstate(*self).vars =~= cstate(*old(self)).vars);
        }
        idx
    }

    fn lookup(&self, name: &String) -> (r: Option<(TokenType, VarType, usize)>)
        ensures
            match r {
                Option::Some(t3) => env_lookup(cstate(*self).vars, name@) == Option::Some(
                    (t3.0, t3.1, t3.2 as int),
                ),
                Option::None => env_lookup(cstate(*self).vars, name@) is None,
            },
    {
        let n = self.vars.len();
        let mut k: usize = 0;
        let mut found: Option<(TokenType, VarType, usize)> = Option::None;
        proof {
            assert(vars_model(self.vars@).subrange(0, 0) =~= Seq::<
                (Seq<char>, TokenType, VarType, int),
            >::empty());
        }
        while k < n
            invariant
                n == self.vars@.len(),
                k <= n,
                vars_model(self.vars@).len() == self.vars@.len(),
                match found {
                    Option::Some(t3) => env_lookup(
                        vars_model(self.vars@).subrange(0, k as int),
                        name@,
                    ) == Option::Some((t3.0, t3.1, t3.2 as int)),
                    Option::None => env_lookup(
                        vars_model(self.vars@).subrange(0, k as int),
                        name@,
                    ) is None,
                },
            decreases n - k,
        {
            let entry = &self.vars[k];
            proof {
                assert(vars_model(self.vars@).subrange(0, k as int + 1).drop_last()
                    =~= vars_model(self.vars@).subrange(0, k as int));
                assert(vars_model(self.vars@).subrange(0, k as int + 1).last() == var_entry_model(
                    self.vars@[k as int],
                ));
            }
            if entry.0 == *name {
                found = Option::Some((entry.1, entry.2, entry.3));
            }
            k = k + 1;
        }
        proof {
            assert(vars_model(self.vars@).subrange(0, n as int) =~= vars_model(self.vars@));
        }
        found
    }

    /// The storage representation of a declared type keyword.
    fn get_basic_type(&self, ty: TokenType) -> (r: Result<VarType, GenError>)
        ensures
            match r {
                Result::Ok(vt) => basic_type_spec(ty) == Option::Some(vt),
                Result::Err(e) => basic_type_spec(ty) is None && (e is InvalidType),
            },
    {
        match ty {
            TokenType::KwFloat => Result::Ok(VarType::Float),
            TokenType::KwBool => Result::Ok(VarType::Bool),
            TokenType::KwString => Result::Ok(VarType::Ptr),
            _ => Result::Err(GenError::InvalidType),
        }
    }

    /// Lower a semantic constant; fails exactly on `nil`.
    #[verifier::rlimit(60)]
    #[verifier::spinoff_prover]
    pub fn compile_value(&mut self, value: &LiteralValue) -> (r: Result<
        (TokenType, usize, ValKind),
        GenError,
    >)
        requires
            old(self).wf_c(),
        ensures
            final(self).wf_c(),
            match r {
                Result::Ok(t3) => gen_value(
                    cstate(*old(self)),
                    crate::expr::literal_value_model(*value),
                ) == Result::Ok::<(CState, TokenType, int, ValKind), GenErrorModel>(
                    (cstate(*final(self)), t3.0, t3.1 as int, t3.2),
                ),
                Result::Err(e) => gen_value(
                    cstate(*old(self)),
                    crate::expr::literal_value_model(*value),
                ) == Result::Err::<(CState, TokenType, int, ValKind), GenErrorModel>(
                    gen_error_model(e),
                ) && cstate(*final(self)) == cstate(*old(self)),
            },
    {
        reveal(gen_value);
        match value {
            LiteralValue::Number(a) => {
                let id = self.emit_value(Instr::ConstNum { text: duplicate_string(a) });
                Result::Ok((TokenType::Int, id, ValKind::F))
            },
            LiteralValue::True => {
                let id = self.emit_value(Instr::ConstBool { val: true });
                Result::Ok((TokenType::KwBool, id, ValKind::I))
            },
            LiteralValue::False => {
                let id = self.emit_value(Instr::ConstBool { val: false });
                Result::Ok((TokenType::KwBool, id, ValKind::I))
            },
            LiteralValue::StringValue(a) => {
                let idx = self.add_string(duplicate_string(a));
                let id = self.emit_value(Instr::GlobalStr { index: idx });
                Result::Ok((TokenType::KwString, id, ValKind::P))
            },
            LiteralValue::Nil => Result::Err(GenError::UnsupportedLiteral),
        }
    }

    /// Lower an expression; the result is its static tag, its value id and
    /// the value's machine kind, exactly as the lowering model describes.
    #[verifier::rlimit(100)]
    #[verifier::spinoff_prover]
    pub fn compile_expr(&mut self, expr: &Expr) -> (r: Result<
        (TokenType, usize, ValKind),
        GenError,
    >)
        requires
            old(self).wf_c(),
        ensures
            final(self).wf_c(),
            match r {
                Result::Ok(t3) => gen_expr(cstate(*old(self)), crate::expr::expr_model(*expr))
                    == Result::Ok::<(CState, TokenType, int, ValKind), GenErrorModel>(
                    (cstate(*final(self)), t3.0, t3.1 as int, t3.2),
                ),
                Result::Err(e) => gen_expr(cstate(*old(self)), crate::expr::expr_model(*expr))
                    == Result::Err::<(CState, TokenType, int, ValKind), GenErrorModel>(
                    gen_error_model(e),
                ),
            },
        decreases *expr,
    {
        reveal(gen_expr);
        match expr {
            Expr::Assign { name, value } => {
                match self.lookup(&name.lexeme) {
                    Option::Some((ty, vt, slot)) => {
                        let old_val = self.emit_value(Instr::Load { ty: vt, ptr: slot });
                        let rhs = match self.compile_expr(value) {
                            Result::Ok(x) => x,
                            Result::Err(e) => {
                                return Result::Err(e);
                            },
                        };
                        self.emit(Instr::Store { ptr: slot, val: rhs.1 });
                        Result::Ok((ty, old_val, kind_of(vt)))
                    },
                    Option::None => Result::Err(
                        GenError::UnresolvedSymbol(duplicate_string(&name.lexeme)),
                    ),
                }
            },
            Expr::Literal { value } => self.compile_value(value),
            Expr::Grouping { expression } => self.compile_expr(expression),
            Expr::Unary { operator, right } => {
                let val = match self.compile_expr(right) {
                    Result::Ok(x) => x,
                    Result::Err(e) => {
                        return Result::Err(e);
                    },
                };
                if operator.token_type == TokenType::Minus && val.2 == ValKind::F {
                    let id = self.emit_value(Instr::FNeg { v: val.1 });
                    Result::Ok((TokenType::Int, id, ValKind::F))
                } else {
                    Result::Err(GenError::UnsupportedOperator)
                }
            },
            Expr::Variable { name } => {
                match self.lookup(&name.lexeme) {
                    Option::Some((ty, vt, slot)) => {
                        let id = self.emit_value(Instr::Load { ty: vt, ptr: slot });
                        Result::Ok((ty, id, kind_of(vt)))
                    },
                    Option::None => Result::Err(
                        GenError::UnresolvedSymbol(duplicate_string(&name.lexeme)),
                    ),
                }
            },
            Expr::Binary { left, operator, right } => {
                let l = match self.compile_expr(left) {
                    Result::Ok(x) => x,
                    Result::Err(e) => {
                        return Result::Err(e);
                    },
                };
                let rr = match self.compile_expr(right) {
                    Result::Ok(x) => x,
                    Result::Err(e) => {
                        return Result::Err(e);
                    },
                };
                if !(l.2 == ValKind::F && rr.2 == ValKind::F) {
                    return Result::Err(GenError::UnsupportedOperator);
                }
                match operator.token_type {
                    TokenType::Plus => {
                        let id = self.emit_value(Instr::FBin { op: FOp::Add, l: l.1, r: rr.1 });
                        Result::Ok((rr.0, id, ValKind::F))
                    },
                    TokenType::Minus => {
                        let id = self.emit_value(Instr::FBin { op: FOp::Sub, l: l.1, r: rr.1 });
                        Result::Ok((rr.0, id, ValKind::F))
                    },
                    TokenType::Star => {
                        let id = self.emit_value(Instr::FBin { op: FOp::Mul, l: l.1, r: rr.1 });
                        Result::Ok((rr.0, id, ValKind::F))
                    },
                    TokenType::Slash => {
                        let id = self.emit_value(Instr::FBin { op: FOp::Div, l: l.1, r: rr.1 });
                        Result::Ok((rr.0, id, ValKind::F))
                    },
                    TokenType::Greater => {
                        let id = self.emit_value(
                            Instr::FCmp { pred: CmpPred::Ogt, l: l.1, r: rr.1 },
                        );
                        Result::Ok((rr.0, id, ValKind::I))
                    },
                    TokenType::Less => {
                        let id = self.emit_value(
                            Instr::FCmp { pred: CmpPred::Olt, l: l.1, r: rr.1 },
                        );
                        Result::Ok((rr.0, id, ValKind::I))
                    },
                    TokenType::GreaterEqual => {
                        let id = self.emit_value(
                            Instr::FCmp { pred: CmpPred::Oge, l: l.1, r: rr.1 },
                        );
                        Result::Ok((rr.0, id, ValKind::I))
                    },
                    TokenType::LessEqual => {
                        let id = self.emit_value(
                            Instr::FCmp { pred: CmpPred::Ole, l: l.1, r: rr.1 },
                        );
                        Result::Ok((rr.0, id, ValKind::I))
                    },
                    TokenType::EqualEqual => {
                        let id = self.emit_value(
                            Instr::FCmp { pred: CmpPred::Oeq, l: l.1, r: rr.1 },
                        );
                        Result::Ok((rr.0, id, ValKind::I))
                    },
                    TokenType::BangEqual => {
                        let id = self.emit_value(
                            Instr::FCmp { pred: CmpPred::One, l: l.1, r: rr.1 },
                        );
                        Result::Ok((rr.0, id, ValKind::I))
                    },
                    _ => Result::Err(GenError::UnsupportedOperator),
                }
            },
            Expr::Call { callie: _, paren: _, args: _ } => Result::Err(
                GenError::UnsupportedExpression,
            ),
            Expr::Logical { expression: _, operator: _, right: _ } => Result::Err(
                GenError::UnsupportedExpression,
            ),
        }
    }

    /// Lower a print of a computed value; always succeeds, and emits
    /// exactly what the lowering model's format selection describes.
    #[verifier::rlimit(100)]
    #[verifier::spinoff_prover]
    pub fn build_print_call(&mut self, value: usize, kind: ValKind, typ: TokenType) -> (r: Result<
        (),
        GenError,
    >)
        requires
            old(self).wf_c(),
        ensures
            final(self).wf_c(),
            r is Ok,
            cstate(*final(self)) == gen_print(cstate(*old(self)), value as int, kind, typ),
    {
        reveal(gen_print);
        match kind {
            ValKind::F => {
                let fidx = self.add_string(str_const("%f\n"));
                let fid = self.emit_value(Instr::GlobalStr { index: fidx });
                self.emit(Instr::Printf { fmt: fid, arg: value });
                Result::Ok(())
            },
            ValKind::P => {
                let fidx = self.add_string(str_const("%s\n"));
                let fid = self.emit_value(Instr::GlobalStr { index: fidx });
                self.emit(Instr::Printf { fmt: fid, arg: value });
                Result::Ok(())
            },
            ValKind::I => {
                if typ == TokenType::KwBool {
                    let tidx = self.add_string(str_const("true"));
                    let tg = self.emit_value(Instr::GlobalStr { index: tidx });
                    let fidx = self.add_string(str_const("false"));
                    let fg = self.emit_value(Instr::GlobalStr { index: fidx });
                    let sel = self.emit_value(
                        Instr::SelectStr { cond: value, then_g: tg, else_g: fg },
                    );
                    let fmidx = self.add_string(str_const("%s\n"));
                    let fmid = self.emit_value(Instr::GlobalStr { index: fmidx });
                    self.emit(Instr::Printf { fmt: fmid, arg: sel });
                    Result::Ok(())
                } else {
                    let fidx = self.add_string(str_const("%d\n"));
                    let fid = self.emit_value(Instr::GlobalStr { index: fidx });
                    self.emit(Instr::Printf { fmt: fid, arg: value });
                    Result::Ok(())
                }
            },
        }
    }

    /// Lower the statements of a block payload; the payload must be a
    /// `Block` node.
    #[verifier::rlimit(100)]
    #[verifier::spinoff_prover]
    fn compile_block_payload(&mut self, b: &Stmt) -> (r: Result<(), GenError>)
        requires
            old(self).wf_c(),
        ensures
            final(self).wf_c(),
            match r {
                Result::Ok(u) => gen_payload(cstate(*old(self)), stmt_model(*b)) == Result::Ok::<
                    CState,
                    GenErrorModel,
                >(cstate(*final(self))),
                Result::Err(e) => gen_payload(cstate(*old(self)), stmt_model(*b)) == Result::Err::<
                    CState,
                    GenErrorModel,
                >(gen_error_model(e)),
            },
        decreases stmt_size(*b), 0int,
    {
        reveal(gen_payload);
        match b {
            Stmt::Block { stmts } => {
                let ghost m = stmts_model(stmts@);
                proof {
                    crate::stmt::lemma_stmts_model_index(stmts@);
                }
                let n = stmts.len();
                let mut k: usize = 0;
                proof {
                    reveal(gen_payload);
                    assert(m.subrange(0, m.len() as int) =~= m);
                    assert(stmt_model(*b) == StmtModel::Block { stmts: m });
                    assert(gen_payload(cstate(*self), StmtModel::Block { stmts: m })
                        == gen_stmts(cstate(*self), m));
                    assert(gen_payload(cstate(*self), stmt_model(*b)) == gen_stmts(
                        cstate(*self),
                        m,
                    ));
                }
                while k < n
                    invariant
                        old(self).wf_c(),
                        self.wf_c(),
                        n == stmts@.len(),
                        k <= n,
                        m == stmts_model(stmts@),
                        m.len() == n,
                        stmt_size(*b) == 1 + stmts_size(stmts@),
                        forall|i: int| 0 <= i < n ==> m[i] == stmt_model(stmts@[i]),
                        gen_payload(cstate(*old(self)), stmt_model(*b)) == gen_stmts(
                            cstate(*self),
                            m.subrange(k as int, m.len() as int),
                        ),
                    decreases n - k,
                {
                    reveal(gen_stmts);
                    proof {
                        lemma_stmts_size_index(stmts@, k as int);
                        assert(m.subrange(k as int, m.len() as int)[0] == m[k as int]);
                        assert(m.subrange(k as int, m.len() as int).subrange(
                            1,
                            m.subrange(k as int, m.len() as int).len() as int,
                        ) =~= m.subrange(k as int + 1, m.len() as int));
                    }
                    let st = &stmts[k];
                    match self.compile_statement(st) {
                        Result::Ok(()) => {},
                        Result::Err(e) => {
                            return Result::Err(e);
                        },
                    }
                    k = k + 1;
                }
                reveal(gen_stmts);
                proof {
                    assert(m.subrange(n as int, m.len() as int) =~= Seq::<StmtModel>::empty());
                }
                Result::Ok(())
            },
            Stmt::Expression { expression: _ } => Result::Err(GenError::ExpectedBlock),
            Stmt::Print { expression: _ } => Result::Err(GenError::ExpectedBlock),
            Stmt::Var { name: _, data_type: _, initializer: _ } => Result::Err(
                GenError::ExpectedBlock,
            ),
            Stmt::IfElse { condition: _, then: _, els: _ } => Result::Err(GenError::ExpectedBlock),
            Stmt::While { condition: _, block: _ } => Result::Err(GenError::ExpectedBlock),
            Stmt::Function { name: _, params: _, body: _ } => Result::Err(
                GenError::ExpectedBlock,
            ),
            Stmt::Return { token: _, expr: _ } => Result::Err(GenError::ExpectedBlock),
            Stmt::Break => Result::Err(GenError::ExpectedBlock),
            Stmt::Continue => Result::Err(GenError::ExpectedBlock),
        }
    }


    /// Lower a conditional: then/else/merge blocks, the conditional branch,
    /// each arm's statements, and the cursor at merge.
    #[verifier::rlimit(100)]
    #[verifier::spinoff_prover]
    fn compile_if_else(&mut self, st: &Stmt) -> (r: Result<(), GenError>)
        requires
            old(self).wf_c(),
            st is IfElse,
        ensures
            final(self).wf_c(),
            match r {
                Result::Ok(u) => gen_stmt(cstate(*old(self)), stmt_model(*st)) == Result::Ok::<
                    CState,
                    GenErrorModel,
                >(cstate(*final(self))),
                Result::Err(e) => gen_stmt(cstate(*old(self)), stmt_model(*st)) == Result::Err::<
                    CState,
                    GenErrorModel,
                >(gen_error_model(e)),
            },
        decreases stmt_size(*st), 0int,
    {
        reveal(gen_stmt);
        match st {
            Stmt::IfElse { condition, then, els } => {
                let ghost s0m = cstate(*self);
                let ghost cm0 = (match stmt_model(*st) {
                    StmtModel::IfElse { condition: cmx, then: _, els: _ } => cmx,
                    _ => arbitrary(),
                });
                let ghost tm0 = (match stmt_model(*st) {
                    StmtModel::IfElse { condition: _, then: tx, els: _ } => *tx,
                    _ => arbitrary(),
                });
                let ghost em0 = (match stmt_model(*st) {
                    StmtModel::IfElse { condition: _, then: _, els: ex } => ex,
                    _ => arbitrary(),
                });
                let c = match self.compile_expr(condition) {
                    Result::Ok(x) => x,
                    Result::Err(e) => {
                        return Result::Err(e);
                    },
                };
                let ghost s1m = cstate(*self);
                if !(c.0 == TokenType::Int && c.2 == ValKind::I) {
                    return Result::Err(GenError::TypeMismatch);
                }
                proof {
                    assert(s0m == cstate(*old(self)));
                    assert(stmt_model(*st) == StmtModel::IfElse {
                        condition: cm0,
                        then: Box::new(tm0),
                        els: em0,
                    });
                    assert(gen_expr(s0m, cm0) == Result::Ok::<
                        (CState, TokenType, int, ValKind),
                        GenErrorModel,
                    >((s1m, c.0, c.1 as int, c.2)));
                }
                match els {
                    Option::Some(else_block) => {
                        let ghost elm0 = stmt_model(**else_block);
                        let then_b = self.append_block();
                        let else_b = self.append_block();
                        let merge_b = self.append_block();
                        self.emit(Instr::CondBr { cond: c.1, then_b, else_b });
                        self.cur = then_b;
                        let ghost s5m = m_set_cur(
                            m_emit(
                                m_append_block(m_append_block(m_append_block(s1m).0).0).0,
                                InstrModel::CondBr(c.1 as int, then_b as int, else_b as int),
                            ),
                            then_b as int,
                        );
                        proof {
                            assert(cstate(*self) == s5m);
                            assert(em0 == Option::Some(Box::new(elm0)));
                        }
                        let tpay: &Stmt = then;
                        match self.compile_block_payload(tpay) {
                            Result::Ok(()) => {},
                            Result::Err(e) => {
                                proof {
                                    assert(tm0 == stmt_model(*tpay));
                                    lemma_gen_if_then_err(
                                        s0m,
                                        cm0,
                                        tm0,
                                        em0,
                                        s1m,
                                        gen_error_model(e),
                                        c.1 as int,
                                    );
                                }
                                return Result::Err(e);
                            },
                        }
                        let ghost s6m = cstate(*self);
                        self.emit(Instr::Br { target: merge_b });
                        self.cur = else_b;
                        proof {
                            assert(gen_payload(s5m, tm0) == Result::Ok::<CState, GenErrorModel>(
                                s6m,
                            ));
                            assert(cstate(*self) == m_set_cur(
                                m_emit(s6m, InstrModel::Br(merge_b as int)),
                                else_b as int,
                            ));
                        }
                        let epay: &Stmt = else_block;
                        match self.compile_block_payload(epay) {
                            Result::Ok(()) => {},
                            Result::Err(e) => {
                                proof {
                                    assert(elm0 == stmt_model(*epay));
                                    lemma_gen_if_else_err(
                                        s0m,
                                        cm0,
                                        tm0,
                                        elm0,
                                        s1m,
                                        gen_error_model(e),
                                        c.1 as int,
                                    );
                                }
                                return Result::Err(e);
                            },
                        }
                        self.emit(Instr::Br { target: merge_b });
                        self.cur = merge_b;
                        Result::Ok(())
                    },
                    Option::None => {
                        let then_b = self.append_block();
                        let merge_b = self.append_block();
                        self.emit(Instr::CondBr { cond: c.1, then_b, else_b: merge_b });
                        self.cur = then_b;
                        let ghost s5m = m_set_cur(
                            m_emit(
                                m_append_block(m_append_block(s1m).0).0,
                                InstrModel::CondBr(c.1 as int, then_b as int, merge_b as int),
                            ),
                            then_b as int,
                        );
                        proof {
                            assert(cstate(*self) == s5m);
                            assert(em0 is None);
                        }
                        let tpay: &Stmt = then;
                        match self.compile_block_payload(tpay) {
                            Result::Ok(()) => {},
                            Result::Err(e) => {
                                proof {
                                    assert(tm0 == stmt_model(*tpay));
                                    lemma_gen_if_then_err(
                                        s0m,
                                        cm0,
                                        tm0,
                                        em0,
                                        s1m,
                                        gen_error_model(e),
                                        c.1 as int,
                                    );
                                }
                                return Result::Err(e);
                            },
                        }
                        self.emit(Instr::Br { target: merge_b });
                        self.cur = merge_b;
                        Result::Ok(())
                    },
                }
            },
            _ => Result::Err(GenError::UnsupportedStatement),
        }
    }


    /// Lower a loop: header/body/merge blocks, the back edge, the condition
    /// re-evaluated in the header, and the cursor at merge.
    #[verifier::rlimit(100)]
    #[verifier::spinoff_prover]
    fn compile_while(&mut self, st: &Stmt) -> (r: Result<(), GenError>)
        requires
            old(self).wf_c(),
            st is While,
        ensures
            final(self).wf_c(),
            match r {
                Result::Ok(u) => gen_stmt(cstate(*old(self)), stmt_model(*st)) == Result::Ok::<
                    CState,
                    GenErrorModel,
                >(cstate(*final(self))),
                Result::Err(e) => gen_stmt(cstate(*old(self)), stmt_model(*st)) == Result::Err::<
                    CState,
                    GenErrorModel,
                >(gen_error_model(e)),
            },
        decreases stmt_size(*st), 0int,
    {
        reveal(gen_stmt);
        match st {
            Stmt::While { condition, block } => {
                let ghost s0m = cstate(*self);
                let header_b = self.append_block();
                let body_b = self.append_block();
                let merge_b = self.append_block();
                self.emit(Instr::Br { target: header_b });
                self.cur = header_b;
                let ghost s4m = m_set_cur(
                    m_emit(
                        m_append_block(m_append_block(m_append_block(s0m).0).0).0,
                        InstrModel::Br(header_b as int),
                    ),
                    header_b as int,
                );
                proof {
                    assert(cstate(*self) == s4m);
                }
                let c = match self.compile_expr(condition) {
                    Result::Ok(x) => x,
                    Result::Err(e) => {
                        return Result::Err(e);
                    },
                };
                if !(c.0 == TokenType::Int && c.2 == ValKind::I) {
                    return Result::Err(GenError::TypeMismatch);
                }
                let ghost s5m = cstate(*self);
                self.emit(Instr::CondBr { cond: c.1, then_b: body_b, else_b: merge_b });
                self.cur = body_b;
                let ghost s6m = m_set_cur(
                    m_emit(s5m, InstrModel::CondBr(c.1 as int, body_b as int, merge_b as int)),
                    body_b as int,
                );
                proof {
                    assert(s0m == cstate(*old(self)));
                    assert(cstate(*self) == s6m);
                    let cm0 = (match stmt_model(*st) {
                        StmtModel::While { condition: cm, block: _ } => cm,
                        _ => arbitrary(),
                    });
                    assert(gen_expr(s4m, cm0) == Result::Ok::<
                        (CState, TokenType, int, ValKind),
                        GenErrorModel,
                    >((s5m, c.0, c.1 as int, c.2)));
                }
                let wbody: &Stmt = block;
                match self.compile_block_payload(wbody) {
                    Result::Ok(()) => {},
                    Result::Err(e) => {
                        proof {
                            let bm0 = (match stmt_model(*st) {
                                StmtModel::While { condition: _, block: bx } => *bx,
                                _ => arbitrary(),
                            });
                            assert(bm0 == stmt_model(*wbody));
                            assert(stmt_model(*st) == StmtModel::While {
                                condition: (match stmt_model(*st) {
                                    StmtModel::While { condition: cmx, block: _ } => cmx,
                                    _ => arbitrary(),
                                }),
                                block: Box::new(bm0),
                            });
                            lemma_gen_while_err(
                                s0m,
                                (match stmt_model(*st) {
                                    StmtModel::While { condition: cmx, block: _ } => cmx,
                                    _ => arbitrary(),
                                }),
                                bm0,
                                s5m,
                                gen_error_model(e),
                                c.1 as int,
                            );
                        }
                        return Result::Err(e);
                    },
                }
                self.emit(Instr::Br { target: header_b });
                self.cur = merge_b;
                Result::Ok(())
            },
            _ => Result::Err(GenError::UnsupportedStatement),
        }
    }

    /// Lower one statement against the implicit entry function, exactly as
    /// the lowering model describes.
    #[verifier::rlimit(100)]
    #[verifier::spinoff_prover]
    pub fn compile_statement(&mut self, st: &Stmt) -> (r: Result<(), GenError>)
        requires
            old(self).wf_c(),
        ensures
            final(self).wf_c(),
            match r {
                Result::Ok(u) => gen_stmt(cstate(*old(self)), stmt_model(*st)) == Result::Ok::<
                    CState,
                    GenErrorModel,
                >(cstate(*final(self))),
                Result::Err(e) => gen_stmt(cstate(*old(self)), stmt_model(*st)) == Result::Err::<
                    CState,
                    GenErrorModel,
                >(gen_error_model(e)),
            },
        decreases stmt_size(*st), 1int,
    {
        reveal(gen_stmt);
        match st {
            Stmt::Var { name, data_type, initializer } => {
                let vt = match self.get_basic_type(*data_type) {
                    Result::Ok(x) => x,
                    Result::Err(e) => {
                        return Result::Err(e);
                    },
                };
                let slot = self.emit_value(Instr::Alloca { ty: vt });
                proof {
                    assert(vars_model(self.vars@.push((name.lexeme, *data_type, vt, slot)))
                        =~= vars_model(self.vars@).push(
                        (name.lexeme@, *data_type, vt, slot as int),
                    ));
                }
                self.vars.push((duplicate_string(&name.lexeme), *data_type, vt, slot));
                proof {
                    assert(vars_model(self.vars@) =~= vars_model(old(self).vars@).push(
                        (name.lexeme@, *data_type, vt, slot as int),
                    ));
                    assert(cstate(*self).vars =~= m_push_var(
                        m_emit_value(cstate(*old(self)), instr_model(Instr::Alloca { ty: vt })).0,
                        name.lexeme@,
                        *data_type,
                        vt,
                        slot as int,
                    ).vars);
                }
                let init = match self.compile_expr(initializer) {
                    Result::Ok(x) => x,
                    Result::Err(e) => {
                        return Result::Err(e);
                    },
                };
                self.emit(Instr::Store { ptr: slot, val: init.1 });
                Result::Ok(())
            },
            Stmt::IfElse { condition: _, then: _, els: _ } => self.compile_if_else(
                st,
            ),
            Stmt::While { condition: _, block: _ } => self.compile_while(st),
            Stmt::Expression { expression } => {
                match self.compile_expr(expression) {
                    Result::Ok(_) => Result::Ok(()),
                    Result::Err(e) => Result::Err(e),
                }
            },
            Stmt::Print { expression } => {
                let v = match self.compile_expr(expression) {
                    Result::Ok(x) => x,
                    Result::Err(e) => {
                        return Result::Err(e);
                    },
                };
                match self.build_print_call(v.1, v.2, v.0) {
                    Result::Ok(()) => Result::Ok(()),
                    Result::Err(e) => Result::Err(e),
                }
            },
            Stmt::Block { stmts: _ } => {
                reveal(gen_payload);
                reveal(gen_stmts);
                self.compile_block_payload(st)
            },
            Stmt::Function { name: _, params: _, body: _ } => Result::Err(
                GenError::UnsupportedStatement,
            ),
            Stmt::Return { token: _, expr: _ } => Result::Err(GenError::UnsupportedStatement),
            Stmt::Break => Result::Err(GenError::UnsupportedStatement),
            Stmt::Continue => Result::Err(GenError::UnsupportedStatement),
        }
    }

    /// Lower a whole program: every top-level statement in input order,
    /// then the return-zero instruction, exactly as the lowering model
    /// describes.
    #[verifier::rlimit(100)]
    #[verifier::spinoff_prover]
    pub fn generate(&mut self, st: &Vec<Stmt>) -> (r: Result<(), GenError>)
        requires
            old(self).wf_c(),
        ensures
            final(self).wf_c(),
            match r {
                Result::Ok(u) => gen_program(cstate(*old(self)), stmts_model(st@))
                    == Result::Ok::<CState, GenErrorModel>(cstate(*final(self))),
                Result::Err(e) => gen_program(cstate(*old(self)), stmts_model(st@))
                    == Result::Err::<CState, GenErrorModel>(gen_error_model(e)),
            },
    {
        reveal(gen_program);
        let ghost m = stmts_model(st@);
        proof {
            crate::stmt::lemma_stmts_model_index(st@);
            assert(m.subrange(0, m.len() as int) =~= m);
        }
        let n = st.len();
        let mut k: usize = 0;
        while k < n
            invariant
                old(self).wf_c(),
                self.wf_c(),
                n == st@.len(),
                k <= n,
                m == stmts_model(st@),
                m.len() == n,
                forall|i: int| 0 <= i < n ==> m[i] == stmt_model(st@[i]),
                gen_stmts(cstate(*old(self)), m) == gen_stmts(
                    cstate(*self),
                    m.subrange(k as int, m.len() as int),
                ),
            decreases n - k,
        {
            reveal(gen_stmts);
            reveal(gen_program);
            proof {
                assert(m.subrange(k as int, m.len() as int)[0] == m[k as int]);
                assert(m.subrange(k as int, m.len() as int).subrange(
                    1,
                    m.subrange(k as int, m.len() as int).len() as int,
                ) =~= m.subrange(k as int + 1, m.len() as int));
            }
            let s = &st[k];
            match self.compile_statement(s) {
                Result::Ok(()) => {},
                Result::Err(e) => {
                    return Result::Err(e);
                },
            }
            k = k + 1;
        }
        reveal(gen_stmts);
        proof {
            assert(m.subrange(n as int, m.len() as int) =~= Seq::<StmtModel>::empty());
        }
        self.emit(Instr::RetZero);
        Result::Ok(())
    }
}

/// Structural size of a statement tree, the code generator's termination
/// measure.
pub open spec fn stmt_size(s: Stmt) -> nat
    decreases s,
{
    match s {
        Stmt::Block { stmts } => 1 + stmts_size(stmts@),
        Stmt::IfElse { condition: _, then, els } => 1 + stmt_size(*then) + (match els {
            Option::Some(b) => stmt_size(*b),
            Option::None => 0nat,
        }),
        Stmt::While { condition: _, block } => 1 + stmt_size(*block),
        Stmt::Function { name: _, params: _, body } => 1 + stmts_size(body@),
        _ => 1,
    }
}

pub open spec fn stmts_size(ss: Seq<Stmt>) -> nat
    decreases ss,
{
    if ss.len() == 0 {
        0
    } else {
        stmts_size(ss.drop_last()) + stmt_size(ss.last())
    }
}

proof fn lemma_stmts_size_index(ss: Seq<Stmt>, i: int)
    requires
        0 <= i < ss.len(),
    ensures
        stmt_size(ss[i]) <= stmts_size(ss),
    decreases ss.len(),
{
    if i == ss.len() - 1 {
    } else {
        lemma_stmts_size_index(ss.drop_last(), i);
    }
}

/// An owned copy of a fixed piece of format text.
fn str_const(s: &str) -> (r: String)
    ensures
        r@ == s@,
{
    String::from_str(s)
}

fn kind_of(vt: VarType) -> (r: ValKind)
    ensures
        r == kind_of_spec(vt),
{
    match vt {
        VarType::Float => ValKind::F,
        VarType::Bool => ValKind::I,
        VarType::Ptr => ValKind::P,
    }
}

} // verus!
