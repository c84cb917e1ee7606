//! The parser: token stream to abstract syntax tree.
//!
//! The grammar is prefix-form throughout: an arithmetic operator is
//! followed by exactly two arguments, a relational operator by two
//! arguments, a logical operator by two conditions.  Zero-argument
//! procedures must not be followed by anything that could begin an
//! argument; `MAKE` and `ADDASSIGN` demand a bare name as their first
//! argument; `IF` and `WHILE` take a condition or a variable reference and
//! a non-empty bracketed block.  The first structural mismatch aborts the
//! whole parse with a positioned error.
//!
//! The executable parser is proved equal to the specification parser
//! `sp_program`, which defines the grammar over token views.

use vstd::prelude::*;
use vstd::string::StringSliceAdditionalSpecFns;
use crate::tokenizer::{Token, TokenV, tokenize, lexed_views, lex_at};
use crate::ast::{
    ASTNode, ControlFlow, Condition, Expression, Math, Procedure, Query, ExprV, CondV, MathV,
    expr_view, cond_view,
};

verus! {

/// Why a parse failed.
#[derive(Debug, Clone, Copy, PartialEq, Eq, Structural)]
pub enum SyntaxErrorKind {
    /// A token that cannot begin a statement.
    ExpectedStatement,
    /// A token that cannot begin an argument.
    ExpectedArgument,
    /// A token that cannot begin a condition.
    ExpectedCondition,
    /// A zero-argument procedure, or a finished one, was followed by an
    /// argument.
    TrailingArgument,
    /// The first argument of `MAKE` or `ADDASSIGN` was not a bare name.
    BindTargetNotName,
    /// A numeric literal too large for the fixed-point range.
    NumberTooLarge,
    /// `IF` or `WHILE` was not followed by a `[`-delimited block.
    ExpectedBlock,
    /// A block was not closed by `]`.
    UnclosedBlock,
    /// The input ended where more tokens were required.
    UnexpectedEnd,
}

/// A positioned parse error: the byte span of the offending token (or of
/// the input's end) and what was expected there.
#[derive(Debug, Clone, Copy, PartialEq, Eq, Structural)]
pub struct SyntaxError {
    pub lo: usize,
    pub hi: usize,
    pub kind: SyntaxErrorKind,
}

/// Is `b` an ASCII digit?
pub open spec fn is_digit(b: u8) -> bool {
    0x30 <= b <= 0x39
}

/// Is `b` an ASCII letter?
pub open spec fn is_alpha(b: u8) -> bool {
    (0x41 <= b <= 0x5a) || (0x61 <= b <= 0x7a)
}

/// Are all bytes of `s` in `[i, j)` digits?
pub open spec fn all_digits(s: Seq<u8>, i: int, j: int) -> bool {
    forall|k: int| i <= k < j ==> is_digit(#[trigger] s[k])
}

/// Does `s` hold a letter anywhere?
pub open spec fn has_alpha(s: Seq<u8>) -> bool {
    exists|k: int| 0 <= k < s.len() && is_alpha(#[trigger] s[k])
}

/// The unsigned body of a numeric literal: digits, or digits around one
/// point with at least one digit after it.
pub open spec fn num_body(t: Seq<u8>) -> bool {
    ||| (t.len() > 0 && all_digits(t, 0, t.len() as int))
    ||| (exists|d: int|
        0 <= d < t.len() && #[trigger] t[d] == 0x2e && d + 1 < t.len() && all_digits(t, 0, d)
            && all_digits(t, d + 1, t.len() as int))
}

/// Does `s` spell a numeric literal: an optional minus sign, then digits
/// with an optional decimal point?
pub open spec fn is_num_lit(s: Seq<u8>) -> bool {
    if s.len() > 0 && s[0] == 0x2d {
        num_body(s.subrange(1, s.len() as int))
    } else {
        num_body(s)
    }
}

/// The value of the digits of `s` in `[i, j)`, read in base ten.
pub open spec fn digits_val(s: Seq<u8>, i: int, j: int) -> int
    decreases j - i,
{
    if j <= i {
        0
    } else {
        digits_val(s, i, j - 1) * 10 + (s[j - 1] - 0x30)
    }
}

/// The value of up to three fraction digits of `s` starting at `i`, in
/// thousandths; further digits are cut off.
pub open spec fn frac3(s: Seq<u8>, i: int, j: int) -> int {
    (if i < j {
        (s[i] - 0x30) * 100
    } else {
        0
    }) + (if i + 1 < j {
        (s[i + 1] - 0x30) * 10
    } else {
        0
    }) + (if i + 2 < j {
        (s[i + 2] - 0x30) as int
    } else {
        0
    })
}

/// The first position of `b` in `s` at or after `i`, or the length.
pub open spec fn find_byte(s: Seq<u8>, b: u8, i: int) -> int
    decreases s.len() - i,
{
    if i < 0 || i >= s.len() {
        s.len() as int
    } else if s[i] == b {
        i
    } else {
        find_byte(s, b, i + 1)
    }
}

/// The first position in `[i, j)` whose byte is not `0x30`, or `j`.
pub open spec fn first_nonzero(s: Seq<u8>, i: int, j: int) -> int
    decreases j - i,
{
    if i < 0 || i >= j {
        j
    } else if s[i] != 0x30 {
        i
    } else {
        first_nonzero(s, i + 1, j)
    }
}

/// The fixed-point value of a numeric literal, or `None` where the
/// literal's magnitude is too large for the fixed-point range (more than
/// fifteen significant whole digits).
pub open spec fn lit_value(s: Seq<u8>) -> Option<int> {
    if !is_num_lit(s) {
        None
    } else {
        let neg = s[0] == 0x2d;
        let t = if neg {
            s.subrange(1, s.len() as int)
        } else {
            s
        };
        let dot = find_byte(t, 0x2e, 0);
        let nz = first_nonzero(t, 0, dot);
        if dot - nz > 15 {
            None
        } else {
            let mag = digits_val(t, 0, dot) * 1000 + if dot < t.len() {
                frac3(t, dot + 1, t.len() as int)
            } else {
                0
            };
            if neg {
                Some(-mag)
            } else {
                Some(mag)
            }
        }
    }
}

/// The byte span reported for position `i`: the token's own span, or the
/// input's end.
pub open spec fn span_at(t: Seq<(TokenV, int, int)>, end: int, i: int) -> (int, int) {
    if 0 <= i < t.len() {
        (t[i].1, t[i].2)
    } else {
        (end, end)
    }
}

/// An error of kind `k` at position `i`.
pub open spec fn err_at(t: Seq<(TokenV, int, int)>, end: int, i: int, k: SyntaxErrorKind) -> SyntaxError {
    SyntaxError { lo: span_at(t, end, i).0 as usize, hi: span_at(t, end, i).1 as usize, kind: k }
}

/// Clamp a continuation index into `(lo - 1, n]`, for termination; the
/// executable parser always returns indexes already in range, so the
/// clamp is the identity wherever it is reached.
pub open spec fn next_idx(j: int, lo: int, n: int) -> int {
    if lo <= j <= n {
        j
    } else if lo <= n {
        lo
    } else {
        n
    }
}

/// Can this token begin a condition?
pub open spec fn is_cond_head(tv: TokenV) -> bool {
    tv is Equal || tv is NotEqual || tv is LessThan || tv is GreaterThan || tv is And || tv is Or
}

/// The argument grammar: a prefix arithmetic operator with two arguments,
/// a literal value, a variable reference, or a query.
pub open spec fn sp_arg(t: Seq<(TokenV, int, int)>, end: int, i: int) -> Result<
    (ExprV, int),
    SyntaxError,
>
    decreases t.len() - i, 1int,
{
    if i < 0 || i >= t.len() {
        Err(err_at(t, end, i, SyntaxErrorKind::UnexpectedEnd))
    } else {
        match t[i].0 {
            TokenV::Add | TokenV::Sub | TokenV::Mul | TokenV::Div => match sp_arg(t, end, i + 1) {
                Err(e) => Err(e),
                Ok((l, j0)) => {
                    let j = next_idx(j0, i + 2, t.len() as int);
                    match sp_arg(t, end, j) {
                        Err(e) => Err(e),
                        Ok((r, k0)) => {
                            let k = next_idx(k0, j + 1, t.len() as int);
                            let m = match t[i].0 {
                                TokenV::Add => MathV::Add(l, r),
                                TokenV::Sub => MathV::Sub(l, r),
                                TokenV::Mul => MathV::Mul(l, r),
                                _ => MathV::Div(l, r),
                            };
                            Ok((ExprV::MathE(Box::new(m)), k))
                        },
                    }
                },
            },
            TokenV::Value(s) => {
                if is_num_lit(s) {
                    match lit_value(s) {
                        Some(v) => Ok((ExprV::Num(v), i + 1)),
                        None => Err(err_at(t, end, i, SyntaxErrorKind::NumberTooLarge)),
                    }
                } else if has_alpha(s) {
                    Ok((ExprV::Str(s), i + 1))
                } else {
                    Err(err_at(t, end, i, SyntaxErrorKind::ExpectedArgument))
                }
            },
            TokenV::Variable(s) => Ok((ExprV::Var(s), i + 1)),
            TokenV::XCOR => Ok((ExprV::Query(Query::XCOR), i + 1)),
            TokenV::YCOR => Ok((ExprV::Query(Query::YCOR), i + 1)),
            TokenV::HEADING => Ok((ExprV::Query(Query::HEADING), i + 1)),
            TokenV::COLOR => Ok((ExprV::Query(Query::COLOR), i + 1)),
            _ => Err(err_at(t, end, i, SyntaxErrorKind::ExpectedArgument)),
        }
    }
}

/// The condition grammar: a relational operator with two arguments, or a
/// logical operator with two conditions.
pub open spec fn sp_cond(t: Seq<(TokenV, int, int)>, end: int, i: int) -> Result<
    (CondV, int),
    SyntaxError,
>
    decreases t.len() - i, 2int,
{
    if i < 0 || i >= t.len() {
        Err(err_at(t, end, i, SyntaxErrorKind::UnexpectedEnd))
    } else {
        match t[i].0 {
            TokenV::Equal | TokenV::NotEqual | TokenV::LessThan | TokenV::GreaterThan => match sp_arg(
                t,
                end,
                i + 1,
            ) {
                Err(e) => Err(e),
                Ok((l, j0)) => {
                    let j = next_idx(j0, i + 2, t.len() as int);
                    match sp_arg(t, end, j) {
                        Err(e) => Err(e),
                        Ok((r, k0)) => {
                            let k = next_idx(k0, j + 1, t.len() as int);
                            let c = match t[i].0 {
                                TokenV::Equal => CondV::Equal(l, r),
                                TokenV::NotEqual => CondV::NotEqual(l, r),
                                TokenV::LessThan => CondV::LessThan(l, r),
                                _ => CondV::GreaterThan(l, r),
                            };
                            Ok((c, k))
                        },
                    }
                },
            },
            TokenV::And | TokenV::Or => match sp_cond(t, end, i + 1) {
                Err(e) => Err(e),
                Ok((l, j0)) => {
                    let j = next_idx(j0, i + 2, t.len() as int);
                    match sp_cond(t, end, j) {
                        Err(e) => Err(e),
                        Ok((r, k0)) => {
                            let k = next_idx(k0, j + 1, t.len() as int);
                            let c = if t[i].0 is And {
                                CondV::And(Box::new(l), Box::new(r))
                            } else {
                                CondV::Or(Box::new(l), Box::new(r))
                            };
                            Ok((c, k))
                        },
                    }
                },
            },
            _ => Err(err_at(t, end, i, SyntaxErrorKind::ExpectedCondition)),
        }
    }
}

/// The mathematical shape of a procedure statement.
pub enum ProcV {
    PenUp,
    PenDown,
    Forward(ExprV),
    Back(ExprV),
    Left(ExprV),
    Right(ExprV),
    SetPenColor(ExprV),
    Turn(ExprV),
    SetHeading(ExprV),
    SetX(ExprV),
    SetY(ExprV),
    Make(ExprV, ExprV),
    AddAssign(ExprV, ExprV),
}

/// The mathematical shape of a statement.
pub enum NodeV {
    Proc(ProcV),
    IfV(ExprV, Seq<NodeV>),
    WhileV(ExprV, Seq<NodeV>),
}

/// The mathematical value of a procedure.
pub open spec fn proc_view(p: &Procedure) -> ProcV
    decreases p,
{
    match p {
        Procedure::PenUp => ProcV::PenUp,
        Procedure::PenDown => ProcV::PenDown,
        Procedure::Forward(e) => ProcV::Forward(expr_view(e)),
        Procedure::Back(e) => ProcV::Back(expr_view(e)),
        Procedure::Left(e) => ProcV::Left(expr_view(e)),
        Procedure::Right(e) => ProcV::Right(expr_view(e)),
        Procedure::SetPenColor(e) => ProcV::SetPenColor(expr_view(e)),
        Procedure::Turn(e) => ProcV::Turn(expr_view(e)),
        Procedure::SetHeading(e) => ProcV::SetHeading(expr_view(e)),
        Procedure::SetX(e) => ProcV::SetX(expr_view(e)),
        Procedure::SetY(e) => ProcV::SetY(expr_view(e)),
        Procedure::Make(n, v) => ProcV::Make(expr_view(n), expr_view(v)),
        Procedure::AddAssign(n, v) => ProcV::AddAssign(expr_view(n), expr_view(v)),
    }
}

/// The mathematical value of a statement.
pub open spec fn node_view(n: &ASTNode) -> NodeV
    decreases n, 0int,
{
    match n {
        ASTNode::Procedure(p) => NodeV::Proc(proc_view(p)),
        ASTNode::ControlFlow(ControlFlow::If { condition, block }) => NodeV::IfV(
            expr_view(condition),
            nodes_view_from(block@, 0),
        ),
        ASTNode::ControlFlow(ControlFlow::While { condition, block }) => NodeV::WhileV(
            expr_view(condition),
            nodes_view_from(block@, 0),
        ),
    }
}

/// The mathematical values of the statements of `s` from `i` on.
pub open spec fn nodes_view_from(s: Seq<ASTNode>, i: int) -> Seq<NodeV>
    decreases s, s.len() - i,
{
    if i < 0 || i >= s.len() {
        Seq::empty()
    } else {
        seq![node_view(&s[i])] + nodes_view_from(s, i + 1)
    }
}

/// The mathematical values of a statement sequence.
pub open spec fn nodes_view(s: Seq<ASTNode>) -> Seq<NodeV> {
    nodes_view_from(s, 0)
}

/// The statement grammar.
pub open spec fn sp_stmt(t: Seq<(TokenV, int, int)>, end: int, i: int) -> Result<
    (NodeV, int),
    SyntaxError,
>
    decreases t.len() - i, 3int,
{
    if i < 0 || i >= t.len() {
        Err(err_at(t, end, i, SyntaxErrorKind::UnexpectedEnd))
    } else {
        match t[i].0 {
            TokenV::PenUp | TokenV::PenDown => {
                if sp_arg(t, end, i + 1) is Ok {
                    Err(err_at(t, end, i + 1, SyntaxErrorKind::TrailingArgument))
                } else {
                    let p = if t[i].0 is PenUp {
                        ProcV::PenUp
                    } else {
                        ProcV::PenDown
                    };
                    Ok((NodeV::Proc(p), i + 1))
                }
            },
            TokenV::Forward | TokenV::Back | TokenV::Left | TokenV::Right | TokenV::Turn
                | TokenV::SetHeading | TokenV::SetX | TokenV::SetY | TokenV::SetPenColor => match sp_arg(
                t,
                end,
                i + 1,
            ) {
                Err(e) => Err(e),
                Ok((e, j0)) => {
                    let j = next_idx(j0, i + 2, t.len() as int);
                    if sp_arg(t, end, j) is Ok {
                        Err(err_at(t, end, j, SyntaxErrorKind::TrailingArgument))
                    } else {
                        let p = match t[i].0 {
                            TokenV::Forward => ProcV::Forward(e),
                            TokenV::Back => ProcV::Back(e),
                            TokenV::Left => ProcV::Left(e),
                            TokenV::Right => ProcV::Right(e),
                            TokenV::Turn => ProcV::Turn(e),
                            TokenV::SetHeading => ProcV::SetHeading(e),
                            TokenV::SetX => ProcV::SetX(e),
                            TokenV::SetY => ProcV::SetY(e),
                            _ => ProcV::SetPenColor(e),
                        };
                        Ok((NodeV::Proc(p), j))
                    }
                },
            },
            TokenV::Make | TokenV::AddAssign => match sp_arg(t, end, i + 1) {
                Err(e) => Err(e),
                Ok((name, j0)) => {
                    let j = next_idx(j0, i + 2, t.len() as int);
                    match name {
                        ExprV::Str(n) => {
                            let value = if t[i].0 is Make && j < t.len() && is_cond_head(t[j].0) {
                                match sp_cond(t, end, j) {
                                    Err(e) => Err(e),
                                    Ok((c, k0)) => Ok((ExprV::BoolE(Box::new(c)), k0)),
                                }
                            } else {
                                sp_arg(t, end, j)
                            };
                            match value {
                                Err(e) => Err(e),
                                Ok((v, k0)) => {
                                    let k = next_idx(k0, j + 1, t.len() as int);
                                    if sp_arg(t, end, k) is Ok {
                                        Err(err_at(t, end, k, SyntaxErrorKind::TrailingArgument))
                                    } else {
                                        let p = if t[i].0 is Make {
                                            ProcV::Make(ExprV::Var(n), v)
                                        } else {
                                            ProcV::AddAssign(ExprV::Var(n), v)
                                        };
                                        Ok((NodeV::Proc(p), k))
                                    }
                                },
                            }
                        },
                        _ => Err(err_at(t, end, i + 1, SyntaxErrorKind::BindTargetNotName)),
                    }
                },
            },
            TokenV::If | TokenV::While => {
                let guard = if i + 1 < t.len() && is_cond_head(t[i + 1].0) {
                    match sp_cond(t, end, i + 1) {
                        Err(e) => Err(e),
                        Ok((c, j0)) => Ok((ExprV::BoolE(Box::new(c)), j0)),
                    }
                } else if i + 1 < t.len() && t[i + 1].0 is Variable {
                    Ok((ExprV::Var(t[i + 1].0->Variable_0), i + 2))
                } else {
                    Err(err_at(t, end, i + 1, SyntaxErrorKind::ExpectedCondition))
                };
                match guard {
                    Err(e) => Err(e),
                    Ok((g, j0)) => {
                        let j = next_idx(j0, i + 2, t.len() as int);
                        if !(j < t.len() && t[j].0 is LParen) {
                            Err(err_at(t, end, j, SyntaxErrorKind::ExpectedBlock))
                        } else {
                            match sp_block(t, end, j + 1) {
                                Err(e) => Err(e),
                                Ok((body, k0)) => {
                                    let n = if t[i].0 is If {
                                        NodeV::IfV(g, body)
                                    } else {
                                        NodeV::WhileV(g, body)
                                    };
                                    Ok((n, k0))
                                },
                            }
                        }
                    },
                }
            },
            _ => Err(err_at(t, end, i, SyntaxErrorKind::ExpectedStatement)),
        }
    }
}

/// The body of a block: one or more statements, then the closing `]`;
/// the returned index stands past the bracket.
pub open spec fn sp_block(t: Seq<(TokenV, int, int)>, end: int, i: int) -> Result<
    (Seq<NodeV>, int),
    SyntaxError,
>
    decreases t.len() - i, 4int,
{
    match sp_stmt(t, end, i) {
        Err(e) => Err(e),
        Ok((n, j0)) => {
            let j = next_idx(j0, i + 1, t.len() as int);
            if j >= t.len() {
                Err(err_at(t, end, j, SyntaxErrorKind::UnclosedBlock))
            } else if t[j].0 is RParen {
                Ok((seq![n], j + 1))
            } else {
                match sp_block(t, end, j) {
                    Err(e) => Err(e),
                    Ok((rest, k0)) => Ok((seq![n] + rest, k0)),
                }
            }
        },
    }
}

/// The program tail from statement position `i` on: one or more
/// statements reaching the end of the input.
pub open spec fn sp_program_from(t: Seq<(TokenV, int, int)>, end: int, i: int) -> Result<
    Seq<NodeV>,
    SyntaxError,
>
    decreases t.len() - i, 5int,
{
    match sp_stmt(t, end, i) {
        Err(e) => Err(e),
        Ok((n, j0)) => {
            let j = next_idx(j0, i + 1, t.len() as int);
            if j >= t.len() {
                Ok(seq![n])
            } else {
                match sp_program_from(t, end, j) {
                    Err(e) => Err(e),
                    Ok(rest) => Ok(seq![n] + rest),
                }
            }
        },
    }
}

/// The program grammar: one or more statements covering the whole token
/// stream.
pub open spec fn sp_program(t: Seq<(TokenV, int, int)>, end: int) -> Result<Seq<NodeV>, SyntaxError> {
    if t.len() == 0 {
        Err(err_at(t, end, 0, SyntaxErrorKind::ExpectedStatement))
    } else {
        sp_program_from(t, end, 0)
    }
}

/// The number of top-level statements the grammar reads from `t`,
/// starting at `i`.
pub open spec fn sp_stmt_count(t: Seq<(TokenV, int, int)>, end: int, i: int) -> Option<int>
    decreases t.len() - i, 6int,
{
    match sp_stmt(t, end, i) {
        Err(_) => None,
        Ok((_, j0)) => {
            let j = next_idx(j0, i + 1, t.len() as int);
            if j >= t.len() {
                Some(1)
            } else {
                match sp_stmt_count(t, end, j) {
                    None => None,
                    Some(c) => Some(1 + c),
                }
            }
        },
    }
}


/// A statement sequence and its views have the same length, so the
/// top-level count law speaks of the built tree itself.
pub proof fn lemma_nodes_view_len(s: Seq<ASTNode>, i: int)
    requires
        0 <= i <= s.len(),
    ensures
        nodes_view_from(s, i).len() == s.len() - i,
    decreases s.len() - i,
{
    if i < s.len() {
        lemma_nodes_view_len(s, i + 1);
    }
}

/// A program that parses has exactly as many top-level nodes as the
/// grammar reads top-level statements: none dropped, none duplicated.
pub proof fn lemma_top_level_count(t: Seq<(TokenV, int, int)>, end: int, i: int)
    requires
        sp_program_from(t, end, i) is Ok,
    ensures
        sp_stmt_count(t, end, i) == Some(sp_program_from(t, end, i)->Ok_0.len() as int),
    decreases t.len() - i,
{
    match sp_stmt(t, end, i) {
        Err(_) => {},
        Ok((n, j0)) => {
            let j = next_idx(j0, i + 1, t.len() as int);
            if j < t.len() {
                lemma_top_level_count(t, end, j);
            }
        },
    }
}

/// Ten to the `n`.
pub open spec fn pow10(n: nat) -> int
    decreases n,
{
    if n == 0 {
        1
    } else {
        10 * pow10((n - 1) as nat)
    }
}

/// The value of a digit run is bounded by ten to its length.
proof fn lemma_digits_val_bound(s: Seq<u8>, i: int, j: int)
    requires
        i <= j,
        all_digits(s, i, j),
    ensures
        0 <= digits_val(s, i, j) < pow10((j - i) as nat),
    decreases j - i,
{
    if j > i {
        lemma_digits_val_bound(s, i, j - 1);
    }
}

/// A leading zero does not change a digit run's value.
proof fn lemma_digits_val_strip(s: Seq<u8>, i: int, j: int)
    requires
        i < j,
        s[i] == 0x30,
    ensures
        digits_val(s, i, j) == digits_val(s, i + 1, j),
    decreases j - i,
{
    if j > i + 1 {
        lemma_digits_val_strip(s, i, j - 1);
        assert(digits_val(s, i, j) == digits_val(s, i, j - 1) * 10 + (s[j - 1] - 0x30));
        assert(digits_val(s, i + 1, j) == digits_val(s, i + 1, j - 1) * 10 + (s[j - 1] - 0x30));
    } else {
        assert(digits_val(s, i, j) == digits_val(s, i, i) * 10 + (s[i] - 0x30));
    }
}

/// Leading zeros do not change a digit run's value.
proof fn lemma_digits_val_nz(s: Seq<u8>, i: int, j: int)
    requires
        0 <= i <= j,
    ensures
        digits_val(s, i, j) == digits_val(s, first_nonzero(s, i, j), j),
    decreases j - i,
{
    if i < j && s[i] == 0x30 {
        lemma_digits_val_strip(s, i, j);
        lemma_digits_val_nz(s, i + 1, j);
    }
}

/// How a quoted literal reads as a value.
#[derive(Debug, Clone, Copy, PartialEq, Eq, Structural)]
pub enum ValueClass {
    /// A numeric literal, as a fixed-point value.
    Num(i64),
    /// A numeric literal whose magnitude exceeds the fixed-point range.
    TooBig,
    /// A string literal: not numeric, but holding a letter.
    Text,
    /// Neither numeric nor a string: no value at all.
    Other,
}

fn is_digit_b(b: u8) -> (r: bool)
    ensures
        r == is_digit(b),
{
    0x30 <= b && b <= 0x39
}

fn has_alpha_b(s: &[u8]) -> (r: bool)
    ensures
        r == has_alpha(s@),
{
    let mut k: usize = 0;
    while k < s.len()
        invariant
            k <= s@.len(),
            forall|m: int| 0 <= m < k ==> !is_alpha(#[trigger] s@[m]),
        decreases s@.len() - k,
    {
        let b = s[k];
        if (0x41 <= b && b <= 0x5a) || (0x61 <= b && b <= 0x7a) {
            return true;
        }
        k = k + 1;
    }
    false
}

/// Classify the payload of a quoted literal, computing the fixed-point
/// value of a numeric one.
#[verifier::rlimit(100)]
pub fn classify_value(s: &[u8]) -> (r: ValueClass)
    ensures
        match r {
            ValueClass::Num(v) => is_num_lit(s@) && lit_value(s@) == Some(v as int),
            ValueClass::TooBig => is_num_lit(s@) && lit_value(s@) is None,
            ValueClass::Text => !is_num_lit(s@) && has_alpha(s@),
            ValueClass::Other => !is_num_lit(s@) && !has_alpha(s@),
        },
{
    let n = s.len();
    let neg = n > 0 && s[0] == 0x2d;
    let start: usize = if neg {
        1
    } else {
        0
    };
    let t = crate::tokenizer::copy_range(s, start, n);
    let ghost tv = t@;
    proof {
        if neg {
            assert(tv =~= s@.subrange(1, s@.len() as int));
        } else {
            assert(tv =~= s@);
        }
    }
    // scan the body: digits with at most one point, at least one digit,
    // and at least one digit after the point
    let m = t.len();
    let mut dot: usize = m;
    let mut k: usize = 0;
    let mut bad: bool = false;
    while k < m && !bad
        invariant
            tv == t@,
            k <= m,
            m == tv.len(),
            dot <= m,
            !bad ==> (dot == m <==> forall|q: int| 0 <= q < k ==> tv[q] != 0x2e),
            !bad ==> (dot < m ==> dot < k && tv[dot as int] == 0x2e),
            !bad ==> forall|q: int| 0 <= q < k && q != dot ==> is_digit(#[trigger] tv[q]),
            bad ==> !num_body(tv),
        decreases m - k, (if bad { 0int } else { 1int }),
    {
        let b = t[k];
        if b == 0x2e {
            if dot != m {
                proof {
                    let d0 = dot as int;
                    let d1 = k as int;
                    assert(!num_body(tv)) by {
                        assert(tv[d0] == 0x2e && !is_digit(tv[d0]));
                        assert(tv[d1] == 0x2e && !is_digit(tv[d1]));
                        if num_body(tv) {
                            if tv.len() > 0 && all_digits(tv, 0, tv.len() as int) {
                                assert(is_digit(tv[d0]));
                            } else {
                                let d = choose|d: int|
                                    0 <= d < tv.len() && #[trigger] tv[d] == 0x2e && d + 1
                                        < tv.len() && all_digits(tv, 0, d) && all_digits(
                                        tv,
                                        d + 1,
                                        tv.len() as int,
                                    );
                                if d != d0 {
                                    assert(is_digit(tv[d0]));
                                } else {
                                    assert(is_digit(tv[d1]));
                                }
                            }
                        }
                    }
                }
                bad = true;
            } else {
                dot = k;
            }
        } else if !is_digit_b(b) {
            proof {
                let d1 = k as int;
                assert(!num_body(tv)) by {
                    if num_body(tv) {
                        if tv.len() > 0 && all_digits(tv, 0, tv.len() as int) {
                            assert(is_digit(tv[d1]));
                        } else {
                            let d = choose|d: int|
                                0 <= d < tv.len() && #[trigger] tv[d] == 0x2e && d + 1 < tv.len()
                                    && all_digits(tv, 0, d) && all_digits(tv, d + 1, tv.len() as int);
                            if d != d1 {
                                assert(is_digit(tv[d1]));
                            }
                        }
                    }
                }
            }
            bad = true;
        }
        if !bad {
            k = k + 1;
        }
    }
    let shape_ok: bool = !bad && m > 0 && (dot == m || dot + 1 < m);
    proof {
        if !bad {
            if shape_ok {
                assert(num_body(tv)) by {
                    if dot < m {
                        let d = dot as int;
                        assert(tv[d] == 0x2e && d + 1 < tv.len() && all_digits(tv, 0, d)
                            && all_digits(tv, d + 1, tv.len() as int));
                    } else {
                        assert(all_digits(tv, 0, tv.len() as int));
                    }
                }
            } else {
                assert(!num_body(tv)) by {
                    if num_body(tv) {
                        if m == 0 {
                        } else {
                            // dot == m - 1 here: the point is the last byte
                            assert(tv[dot as int] == 0x2e && !is_digit(tv[dot as int]));
                            if tv.len() > 0 && all_digits(tv, 0, tv.len() as int) {
                            } else {
                                let d = choose|d: int|
                                    0 <= d < tv.len() && #[trigger] tv[d] == 0x2e && d + 1
                                        < tv.len() && all_digits(tv, 0, d) && all_digits(
                                        tv,
                                        d + 1,
                                        tv.len() as int,
                                    );
                                if d != dot as int {
                                    assert(is_digit(tv[dot as int]));
                                }
                            }
                        }
                    }
                }
            }
        }
        assert(is_num_lit(s@) == shape_ok);
    }
    if !shape_ok {
        if has_alpha_b(s) {
            return ValueClass::Text;
        }
        return ValueClass::Other;
    }
    // the literal is numeric; compute its fixed-point value
    proof {
        assert forall|q: int| 0 <= q < dot as int implies tv[q] != 0x2e by {
            assert(is_digit(tv[q]));
        }
        lemma_find_byte_scan(tv, 0x2e, 0, dot as int);
    }
    let mut nz: usize = 0;
    while nz < dot && t[nz] == 0x30
        invariant
            tv == t@,
            nz <= dot <= m,
            m == tv.len(),
            first_nonzero(tv, 0, dot as int) == first_nonzero(tv, nz as int, dot as int),
        decreases dot - nz,
    {
        proof {
            assert(first_nonzero(tv, nz as int, dot as int) == first_nonzero(
                tv,
                nz + 1,
                dot as int,
            ));
        }
        nz = nz + 1;
    }
    proof {
        if nz < dot {
            assert(first_nonzero(tv, nz as int, dot as int) == nz as int);
        } else {
            assert(first_nonzero(tv, nz as int, dot as int) == dot as int);
        }
    }
    if dot - nz > 15 {
        return ValueClass::TooBig;
    }
    let mut mag: u64 = 0;
    let mut q: usize = nz;
    while q < dot
        invariant
            tv == t@,
            nz <= q <= dot <= m,
            m == tv.len(),
            dot - nz <= 15,
            forall|w: int| 0 <= w < tv.len() && w != dot ==> is_digit(#[trigger] tv[w]),
            mag == digits_val(tv, nz as int, q as int),
            mag < 0x38d7ea4c68000,  // ten to the fifteenth
        decreases dot - q,
    {
        proof {
            assert(is_digit(tv[q as int]));
            lemma_digits_val_bound(tv, nz as int, q as int);
            lemma_pow10_mono((q - nz) as nat, 14nat);
            reveal_with_fuel(pow10, 16);
            assert(pow10(14nat) == 100000000000000);
        }
        mag = mag * 10 + ((t[q] - 0x30) as u64);
        q = q + 1;
        proof {
            lemma_digits_val_bound(tv, nz as int, q as int);
            lemma_pow10_mono((q - nz) as nat, 15nat);
            reveal_with_fuel(pow10, 16);
            assert(pow10(15nat) == 1000000000000000);
        }
    }
    proof {
        lemma_digits_val_nz(tv, 0, dot as int);
    }
    let f: u64 = if dot < m {
        let d1: u64 = if m - dot > 1 {
            ((t[dot + 1] - 0x30) as u64) * 100
        } else {
            0
        };
        let d2: u64 = if m - dot > 2 {
            ((t[dot + 2] - 0x30) as u64) * 10
        } else {
            0
        };
        let d3: u64 = if m - dot > 3 {
            (t[dot + 3] - 0x30) as u64
        } else {
            0
        };
        d1 + d2 + d3
    } else {
        0
    };
    let total: u64 = mag * 1000 + f;
    let v: i64 = if neg {
        -(total as i64)
    } else {
        total as i64
    };
    ValueClass::Num(v)
}

/// `pow10` is positive and monotone.
proof fn lemma_pow10_mono(a: nat, b: nat)
    requires
        a <= b,
    ensures
        1 <= pow10(a) <= pow10(b),
    decreases b,
{
    if a < b {
        lemma_pow10_mono(a, (b - 1) as nat);
    } else if b > 0 {
        lemma_pow10_mono(0, (b - 1) as nat);
    }
}

/// A scan that saw no match up to `j` and a match at `j` pins `find_byte`.
proof fn lemma_find_byte_scan(s: Seq<u8>, b: u8, i: int, j: int)
    requires
        0 <= i <= j <= s.len(),
        forall|q: int| i <= q < j ==> s[q] != b,
        j < s.len() ==> s[j] == b,
    ensures
        find_byte(s, b, i) == if j < s.len() {
            j
        } else {
            s.len() as int
        },
    decreases j - i,
{
    if i < j {
        lemma_find_byte_scan(s, b, i + 1, j);
    }
}

/// Shifting a prepended element: the views of a statement sequence behind
/// a fresh head.
proof fn lemma_nodes_view_shift(s: Seq<ASTNode>, x: ASTNode, i: int)
    requires
        0 <= i <= s.len(),
    ensures
        nodes_view_from(seq![x] + s, i + 1) == nodes_view_from(s, i),
    decreases s.len() - i,
{
    if i < s.len() {
        lemma_nodes_view_shift(s, x, i + 1);
        assert((seq![x] + s)[i + 1] == s[i]);
    }
}

/// Prepending a statement prepends its view.
proof fn lemma_nodes_view_prepend(s: Seq<ASTNode>, x: ASTNode)
    ensures
        nodes_view_from(seq![x] + s, 0) == seq![node_view(&x)] + nodes_view_from(s, 0),
    decreases s.len(),
{
    lemma_nodes_view_shift(s, x, 0);
    assert((seq![x] + s)[0] == x);
    assert(nodes_view_from(seq![x] + s, 0) =~= seq![node_view(&x)] + nodes_view_from(s, 0));
}

/// Build a positioned error for token position `i`.
fn mk_err(t: &Vec<(Token, usize, usize)>, end: usize, i: usize, kind: SyntaxErrorKind) -> (r:
    SyntaxError)
    ensures
        r == err_at(lexed_views(t@), end as int, i as int, kind),
{
    if i < t.len() {
        SyntaxError { lo: t[i].1, hi: t[i].2, kind }
    } else {
        SyntaxError { lo: end, hi: end, kind }
    }
}

fn is_cond_head_x(tok: &Token) -> (r: bool)
    ensures
        r == is_cond_head(tok.v()),
{
    matches!(
        tok,
        Token::Equal | Token::NotEqual | Token::LessThan | Token::GreaterThan | Token::And
            | Token::Or
    )
}

/// Parse one argument: a prefix arithmetic expression, a literal, a
/// variable reference, or a query.
fn parse_arg(t: &Vec<(Token, usize, usize)>, end: usize, i: usize) -> (r: Result<
    (Expression, usize),
    SyntaxError,
>)
    requires
        i <= t@.len(),
    ensures
        ({
            let sp = sp_arg(lexed_views(t@), end as int, i as int);
            match r {
                Ok(p) => sp == Ok::<(ExprV, int), SyntaxError>((expr_view(&p.0), p.1 as int)) && i
                    < p.1 <= t@.len(),
                Err(e) => sp == Err::<(ExprV, int), SyntaxError>(e),
            }
        }),
    decreases t@.len() - i, 1int,
{
    let n = t.len();
    if i >= n {
        return Err(mk_err(t, end, i, SyntaxErrorKind::UnexpectedEnd));
    }
    match &t[i].0 {
        Token::Add | Token::Sub | Token::Mul | Token::Div => {
            let (l, j) = match parse_arg(t, end, i + 1) {
                Ok(p) => p,
                Err(e) => {
                    return Err(e);
                },
            };
            let (rr, k) = match parse_arg(t, end, j) {
                Ok(p) => p,
                Err(e) => {
                    return Err(e);
                },
            };
            let m = match &t[i].0 {
                Token::Add => Math::Add(l, rr),
                Token::Sub => Math::Sub(l, rr),
                Token::Mul => Math::Mul(l, rr),
                _ => Math::Div(l, rr),
            };
            Ok((Expression::Math(Box::new(m)), k))
        },
        Token::Value(s) => match classify_value(s.as_slice()) {
            ValueClass::Num(v) => Ok((Expression::Float(v), i + 1)),
            ValueClass::TooBig => Err(mk_err(t, end, i, SyntaxErrorKind::NumberTooLarge)),
            ValueClass::Text => Ok((Expression::Str(crate::ast::copy_bytes(s)), i + 1)),
            ValueClass::Other => Err(mk_err(t, end, i, SyntaxErrorKind::ExpectedArgument)),
        },
        Token::Variable(s) => Ok((Expression::Variable(crate::ast::copy_bytes(s)), i + 1)),
        Token::XCOR => Ok((Expression::Query(Query::XCOR), i + 1)),
        Token::YCOR => Ok((Expression::Query(Query::YCOR), i + 1)),
        Token::HEADING => Ok((Expression::Query(Query::HEADING), i + 1)),
        Token::COLOR => Ok((Expression::Query(Query::COLOR), i + 1)),
        _ => Err(mk_err(t, end, i, SyntaxErrorKind::ExpectedArgument)),
    }
}

/// Parse one condition: a relational operator with two arguments, or a
/// logical operator with two conditions.
fn parse_cond(t: &Vec<(Token, usize, usize)>, end: usize, i: usize) -> (r: Result<
    (Condition, usize),
    SyntaxError,
>)
    requires
        i <= t@.len(),
    ensures
        ({
            let sp = sp_cond(lexed_views(t@), end as int, i as int);
            match r {
                Ok(p) => sp == Ok::<(CondV, int), SyntaxError>((cond_view(&p.0), p.1 as int)) && i
                    < p.1 <= t@.len(),
                Err(e) => sp == Err::<(CondV, int), SyntaxError>(e),
            }
        }),
    decreases t@.len() - i, 2int,
{
    let n = t.len();
    if i >= n {
        return Err(mk_err(t, end, i, SyntaxErrorKind::UnexpectedEnd));
    }
    match &t[i].0 {
        Token::Equal | Token::NotEqual | Token::LessThan | Token::GreaterThan => {
            let (l, j) = match parse_arg(t, end, i + 1) {
                Ok(p) => p,
                Err(e) => {
                    return Err(e);
                },
            };
            let (rr, k) = match parse_arg(t, end, j) {
                Ok(p) => p,
                Err(e) => {
                    return Err(e);
                },
            };
            let c = match &t[i].0 {
                Token::Equal => Condition::Equal(l, rr),
                Token::NotEqual => Condition::NotEqual(l, rr),
                Token::LessThan => Condition::LessThan(l, rr),
                _ => Condition::GreaterThan(l, rr),
            };
            Ok((c, k))
        },
        Token::And | Token::Or => {
            let (l, j) = match parse_cond(t, end, i + 1) {
                Ok(p) => p,
                Err(e) => {
                    return Err(e);
                },
            };
            let (rr, k) = match parse_cond(t, end, j) {
                Ok(p) => p,
                Err(e) => {
                    return Err(e);
                },
            };
            let c = if matches!(&t[i].0, Token::And) {
                Condition::And(Box::new(l), Box::new(rr))
            } else {
                Condition::Or(Box::new(l), Box::new(rr))
            };
            Ok((c, k))
        },
        _ => Err(mk_err(t, end, i, SyntaxErrorKind::ExpectedCondition)),
    }
}

/// Parse one statement: a procedure or a guarded block.
#[verifier::rlimit(100)]
fn parse_stmt(t: &Vec<(Token, usize, usize)>, end: usize, i: usize) -> (r: Result<
    (ASTNode, usize),
    SyntaxError,
>)
    requires
        i <= t@.len(),
    ensures
        ({
            let sp = sp_stmt(lexed_views(t@), end as int, i as int);
            match r {
                Ok(p) => sp == Ok::<(NodeV, int), SyntaxError>((node_view(&p.0), p.1 as int)) && i
                    < p.1 <= t@.len(),
                Err(e) => sp == Err::<(NodeV, int), SyntaxError>(e),
            }
        }),
    decreases t@.len() - i, 3int,
{
    let n = t.len();
    if i >= n {
        return Err(mk_err(t, end, i, SyntaxErrorKind::UnexpectedEnd));
    }
    match &t[i].0 {
        Token::PenUp | Token::PenDown => {
            if parse_arg(t, end, i + 1).is_ok() {
                return Err(mk_err(t, end, i + 1, SyntaxErrorKind::TrailingArgument));
            }
            let p = if matches!(&t[i].0, Token::PenUp) {
                Procedure::PenUp
            } else {
                Procedure::PenDown
            };
            Ok((ASTNode::Procedure(p), i + 1))
        },
        Token::Forward | Token::Back | Token::Left | Token::Right | Token::Turn
            | Token::SetHeading | Token::SetX | Token::SetY | Token::SetPenColor => {
            let (e, j) = match parse_arg(t, end, i + 1) {
                Ok(p) => p,
                Err(e) => {
                    return Err(e);
                },
            };
            if parse_arg(t, end, j).is_ok() {
                return Err(mk_err(t, end, j, SyntaxErrorKind::TrailingArgument));
            }
            let p = match &t[i].0 {
                Token::Forward => Procedure::Forward(e),
                Token::Back => Procedure::Back(e),
                Token::Left => Procedure::Left(e),
                Token::Right => Procedure::Right(e),
                Token::Turn => Procedure::Turn(e),
                Token::SetHeading => Procedure::SetHeading(e),
                Token::SetX => Procedure::SetX(e),
                Token::SetY => Procedure::SetY(e),
                _ => Procedure::SetPenColor(e),
            };
            Ok((ASTNode::Procedure(p), j))
        },
        Token::Make | Token::AddAssign => {
            let is_make = matches!(&t[i].0, Token::Make);
            let (name, j) = match parse_arg(t, end, i + 1) {
                Ok(p) => p,
                Err(e) => {
                    return Err(e);
                },
            };
            let nm = match name {
                Expression::Str(nm) => nm,
                _ => {
                    return Err(mk_err(t, end, i + 1, SyntaxErrorKind::BindTargetNotName));
                },
            };
            let value_parsed: Result<(Expression, usize), SyntaxError> = if is_make && j < n
                && is_cond_head_x(&t[j].0) {
                match parse_cond(t, end, j) {
                    Ok((c, k)) => Ok((Expression::Bool(Box::new(c)), k)),
                    Err(e) => Err(e),
                }
            } else {
                parse_arg(t, end, j)
            };
            let (v, k) = match value_parsed {
                Ok(p) => p,
                Err(e) => {
                    return Err(e);
                },
            };
            if parse_arg(t, end, k).is_ok() {
                return Err(mk_err(t, end, k, SyntaxErrorKind::TrailingArgument));
            }
            let p = if is_make {
                Procedure::Make(Expression::Variable(nm), v)
            } else {
                Procedure::AddAssign(Expression::Variable(nm), v)
            };
            Ok((ASTNode::Procedure(p), k))
        },
        Token::If | Token::While => {
            let is_if = matches!(&t[i].0, Token::If);
            let guard: Result<(Expression, usize), SyntaxError> = if i + 1 < n && is_cond_head_x(
                &t[i + 1].0,
            ) {
                match parse_cond(t, end, i + 1) {
                    Ok((c, j)) => Ok((Expression::Bool(Box::new(c)), j)),
                    Err(e) => Err(e),
                }
            } else if i + 1 < n {
                match &t[i + 1].0 {
                    Token::Variable(s) => Ok((Expression::Variable(crate::ast::copy_bytes(s)), i + 2)),
                    _ => Err(mk_err(t, end, i + 1, SyntaxErrorKind::ExpectedCondition)),
                }
            } else {
                Err(mk_err(t, end, i + 1, SyntaxErrorKind::ExpectedCondition))
            };
            let (g, j) = match guard {
                Ok(p) => p,
                Err(e) => {
                    return Err(e);
                },
            };
            if !(j < n && matches!(&t[j].0, Token::LParen)) {
                return Err(mk_err(t, end, j, SyntaxErrorKind::ExpectedBlock));
            }
            let (body, k) = match parse_block(t, end, j + 1) {
                Ok(p) => p,
                Err(e) => {
                    return Err(e);
                },
            };
            let node = if is_if {
                ASTNode::ControlFlow(ControlFlow::If { condition: g, block: body })
            } else {
                ASTNode::ControlFlow(ControlFlow::While { condition: g, block: body })
            };
            Ok((node, k))
        },
        _ => Err(mk_err(t, end, i, SyntaxErrorKind::ExpectedStatement)),
    }
}

/// Parse a block body: one or more statements, then the closing `]`.
fn parse_block(t: &Vec<(Token, usize, usize)>, end: usize, i: usize) -> (r: Result<
    (Vec<ASTNode>, usize),
    SyntaxError,
>)
    requires
        i <= t@.len(),
    ensures
        ({
            let sp = sp_block(lexed_views(t@), end as int, i as int);
            match r {
                Ok(p) => sp == Ok::<(Seq<NodeV>, int), SyntaxError>(
                    (nodes_view(p.0@), p.1 as int),
                ) && i < p.1 <= t@.len(),
                Err(e) => sp == Err::<(Seq<NodeV>, int), SyntaxError>(e),
            }
        }),
    decreases t@.len() - i, 4int,
{
    let n = t.len();
    let (nd, j) = match parse_stmt(t, end, i) {
        Ok(p) => p,
        Err(e) => {
            return Err(e);
        },
    };
    if j >= n {
        return Err(mk_err(t, end, j, SyntaxErrorKind::UnclosedBlock));
    }
    if matches!(&t[j].0, Token::RParen) {
        let mut out: Vec<ASTNode> = Vec::new();
        out.push(nd);
        proof {
            assert(nodes_view_from(out@, 1) =~= Seq::<NodeV>::empty());
            assert(nodes_view(out@) =~= seq![node_view(&out@[0])] + nodes_view_from(out@, 1));
            assert(nodes_view(out@) =~= seq![node_view(&out@[0])]);
        }
        return Ok((out, j + 1));
    }
    let (mut rest, k) = match parse_block(t, end, j) {
        Ok(p) => p,
        Err(e) => {
            return Err(e);
        },
    };
    let ghost rest0 = rest@;
    let ghost nd0 = nd;
    rest.insert(0, nd);
    proof {
        assert(rest@ =~= seq![nd0] + rest0);
        lemma_nodes_view_prepend(rest0, nd0);
    }
    Ok((rest, k))
}

/// Parse the rest of a program: one or more statements reaching the end
/// of the input.
fn parse_program_from(t: &Vec<(Token, usize, usize)>, end: usize, i: usize) -> (r: Result<
    Vec<ASTNode>,
    SyntaxError,
>)
    requires
        i <= t@.len(),
    ensures
        ({
            let sp = sp_program_from(lexed_views(t@), end as int, i as int);
            match r {
                Ok(nodes) => sp == Ok::<Seq<NodeV>, SyntaxError>(nodes_view(nodes@)),
                Err(e) => sp == Err::<Seq<NodeV>, SyntaxError>(e),
            }
        }),
    decreases t@.len() - i, 5int,
{
    let n = t.len();
    let (nd, j) = match parse_stmt(t, end, i) {
        Ok(p) => p,
        Err(e) => {
            return Err(e);
        },
    };
    if j >= n {
        let mut out: Vec<ASTNode> = Vec::new();
        out.push(nd);
        proof {
            assert(nodes_view_from(out@, 1) =~= Seq::<NodeV>::empty());
            assert(nodes_view(out@) =~= seq![node_view(&out@[0])] + nodes_view_from(out@, 1));
            assert(nodes_view(out@) =~= seq![node_view(&out@[0])]);
        }
        return Ok(out);
    }
    let mut rest = match parse_program_from(t, end, j) {
        Ok(p) => p,
        Err(e) => {
            return Err(e);
        },
    };
    let ghost rest0 = rest@;
    let ghost nd0 = nd;
    rest.insert(0, nd);
    proof {
        assert(rest@ =~= seq![nd0] + rest0);
        lemma_nodes_view_prepend(rest0, nd0);
    }
    Ok(rest)
}

/// Parse Logo source text into a program: tokenize it, then read one or
/// more statements covering the whole token stream.  On failure the
/// positioned error is returned; the grammar is exactly [`sp_program`]
/// over the token views.
pub fn parse_content(content: &str) -> (r: Result<Vec<ASTNode>, Vec<SyntaxError>>)
    ensures
        ({
            let tv = lex_at(content.spec_bytes(), 0);
            let end = content.spec_bytes().len() as int;
            match r {
                Ok(nodes) => sp_program(tv, end) == Ok::<Seq<NodeV>, SyntaxError>(
                    nodes_view(nodes@),
                ),
                Err(errs) => errs@.len() == 1 && sp_program(tv, end) == Err::<
                    Seq<NodeV>,
                    SyntaxError,
                >(errs@[0]),
            }
        }),
{
    let toks = tokenize(content);
    let end = content.as_bytes().len();
    if toks.len() == 0 {
        let e = SyntaxError { lo: end, hi: end, kind: SyntaxErrorKind::ExpectedStatement };
        let mut errs: Vec<SyntaxError> = Vec::new();
        errs.push(e);
        return Err(errs);
    }
    match parse_program_from(&toks, end, 0) {
        Ok(nodes) => Ok(nodes),
        Err(e) => {
            let mut errs: Vec<SyntaxError> = Vec::new();
            errs.push(e);
            Err(errs)
        },
    }
}

} // verus!
