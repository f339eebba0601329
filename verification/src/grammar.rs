//! The grammar: what a token sequence parses to, as mathematical functions
//! from a token sequence and a position to a tree and the number of tokens
//! used, or to the first error.
//!
//! Line breaks separate nothing: whenever a token is used, the line breaks
//! after it are used with it. The one place where a line break counts is
//! after `return`.

use vstd::prelude::*;
use crate::ast::{
    BinOp, DataType, ExecTarget, ExprView, FnDefView, ParamView, ProgramView, ReduceOp,
    StmtView, UnaryOp,
};
use crate::cursor::{current, lemma_skip_newlines, next, peek, remaining, skip_newlines, used};
use crate::token::{tag_name, TokenKindView, TokenTag, TokenView};

verus! {

/// What a parse error complains of.
#[derive(Debug, Clone, Copy, PartialEq, Eq)]
pub enum ParseErrorKind {
    /// A token with this tag was expected.
    Expected(TokenTag),
    ExpectedFunctionName,
    ExpectedParameterName,
    ExpectedType,
    /// An array type without an integer literal as its size.
    ExpectedArraySize,
    /// An array size that is negative or more than the machine can address.
    InvalidArraySize,
    ExpectedVariableName,
    ExpectedLoopVariable,
    ExpectedIdentifier,
    ExpectedReduceOperation,
    /// A token that starts no statement.
    UnexpectedToken,
    /// A token that starts no expression.
    UnexpectedTokenInExpression,
}

/// A parse error: the complaint, and the tag and place of the token it was
/// raised at. Past the end of the tokens the tag is `Eof` and the place 0, 0.
#[derive(Debug, Clone, Copy, PartialEq, Eq)]
pub struct ParseError {
    pub kind: ParseErrorKind,
    pub found: TokenTag,
    pub line: usize,
    pub col: usize,
}

/// The text of a parse error.
pub open spec fn parse_error_text(e: ParseError) -> Seq<char> {
    match e.kind {
        ParseErrorKind::Expected(tag) => "Expected "@ + tag_name(tag) + ", got "@ + tag_name(
            e.found,
        ),
        ParseErrorKind::ExpectedFunctionName => "Expected function name"@,
        ParseErrorKind::ExpectedParameterName => "Expected parameter name"@,
        ParseErrorKind::ExpectedType => "Expected type, got "@ + tag_name(e.found),
        ParseErrorKind::ExpectedArraySize => "Expected array size"@,
        ParseErrorKind::InvalidArraySize => "Invalid array size"@,
        ParseErrorKind::ExpectedVariableName => "Expected variable name"@,
        ParseErrorKind::ExpectedLoopVariable => "Expected loop variable"@,
        ParseErrorKind::ExpectedIdentifier => "Expected identifier"@,
        ParseErrorKind::ExpectedReduceOperation => "Expected reduce operation"@,
        ParseErrorKind::UnexpectedToken => "Unexpected token: "@ + tag_name(e.found),
        ParseErrorKind::UnexpectedTokenInExpression => "Unexpected token in expression: "@
            + tag_name(e.found),
    }
}

impl ParseError {
    /// The text of this error.
    pub fn message(&self) -> (r: String)
        ensures
            r@ == parse_error_text(*self),
    {
        let mut out = String::new();
        match self.kind {
            ParseErrorKind::Expected(tag) => {
                out.append("Expected ");
                out.append(tag.name());
                out.append(", got ");
                out.append(self.found.name());
                assert(out@ =~= parse_error_text(*self));
            },
            ParseErrorKind::ExpectedFunctionName => {
                out.append("Expected function name");
            },
            ParseErrorKind::ExpectedParameterName => {
                out.append("Expected parameter name");
            },
            ParseErrorKind::ExpectedType => {
                out.append("Expected type, got ");
                out.append(self.found.name());
                assert(out@ =~= parse_error_text(*self));
            },
            ParseErrorKind::ExpectedArraySize => {
                out.append("Expected array size");
            },
            ParseErrorKind::InvalidArraySize => {
                out.append("Invalid array size");
            },
            ParseErrorKind::ExpectedVariableName => {
                out.append("Expected variable name");
            },
            ParseErrorKind::ExpectedLoopVariable => {
                out.append("Expected loop variable");
            },
            ParseErrorKind::ExpectedIdentifier => {
                out.append("Expected identifier");
            },
            ParseErrorKind::ExpectedReduceOperation => {
                out.append("Expected reduce operation");
            },
            ParseErrorKind::UnexpectedToken => {
                out.append("Unexpected token: ");
                out.append(self.found.name());
                assert(out@ =~= parse_error_text(*self));
            },
            ParseErrorKind::UnexpectedTokenInExpression => {
                out.append("Unexpected token in expression: ");
                out.append(self.found.name());
                assert(out@ =~= parse_error_text(*self));
            },
        }
        assert(out@ =~= parse_error_text(*self));
        out
    }
}

/// A tree and the number of tokens it used, or an error.
pub type Parsed<T> = Result<(T, nat), ParseError>;

broadcast use lemma_skip_newlines;

/// The error of a complaint raised at a position.
pub open spec fn fail(ts: Seq<TokenView>, pos: int, kind: ParseErrorKind) -> ParseError {
    ParseError {
        kind,
        found: peek(ts, pos).tag(),
        line: current(ts, pos).line,
        col: current(ts, pos).col,
    }
}

/// Uses the token at `pos` if it has the tag: the number of tokens used.
pub open spec fn expect(ts: Seq<TokenView>, pos: int, tag: TokenTag) -> Result<nat, ParseError> {
    if peek(ts, pos).tag() == tag {
        Ok(used(pos, next(ts, pos)))
    } else {
        Err(fail(ts, pos, ParseErrorKind::Expected(tag)))
    }
}

/// The scalar type that a type keyword names.
pub open spec fn keyword_type(kind: TokenKindView) -> Option<DataType> {
    match kind {
        TokenKindView::I32 => Some(DataType::I32),
        TokenKindView::I64 => Some(DataType::I64),
        TokenKindView::F32 => Some(DataType::F32),
        TokenKindView::F64 => Some(DataType::F64),
        TokenKindView::Bool => Some(DataType::Bool),
        _ => None,
    }
}

/// A type: a type keyword, then optionally `[`, an integer literal, `]`.
#[verifier::opaque]
pub open spec fn parse_type(ts: Seq<TokenView>, pos: int) -> Parsed<DataType> {
    match keyword_type(peek(ts, pos)) {
        None => Err(fail(ts, pos, ParseErrorKind::ExpectedType)),
        Some(base) => {
            let p1 = next(ts, pos);
            if peek(ts, p1) is LBracket {
                let p2 = next(ts, p1);
                match peek(ts, p2) {
                    TokenKindView::IntLit(n) => if 0 <= n <= usize::MAX {
                        let p3 = next(ts, p2);
                        match expect(ts, p3, TokenTag::RBracket) {
                            Err(e) => Err(e),
                            Ok(k) => Ok(
                                (DataType::Array(Box::new(base), n as usize), used(pos, p3 + k)),
                            ),
                        }
                    } else {
                        Err(fail(ts, p2, ParseErrorKind::InvalidArraySize))
                    },
                    _ => Err(fail(ts, p2, ParseErrorKind::ExpectedArraySize)),
                }
            } else {
                Ok((base, used(pos, p1)))
            }
        },
    }
}

/// The operator that a token is on a level of the expression grammar.
/// Levels, loosest first: 0 `||`, 1 `&&`, 2 `== !=`, 3 `< > <= >=`,
/// 4 `+ -`, 5 `* / %`.
pub open spec fn binary_op(level: nat, kind: TokenKindView) -> Option<BinOp> {
    if level == 0 {
        match kind {
            TokenKindView::Or => Some(BinOp::Or),
            _ => None,
        }
    } else if level == 1 {
        match kind {
            TokenKindView::And => Some(BinOp::And),
            _ => None,
        }
    } else if level == 2 {
        match kind {
            TokenKindView::EqEq => Some(BinOp::Eq),
            TokenKindView::NotEq => Some(BinOp::NotEq),
            _ => None,
        }
    } else if level == 3 {
        match kind {
            TokenKindView::Lt => Some(BinOp::Lt),
            TokenKindView::Gt => Some(BinOp::Gt),
            TokenKindView::LtEq => Some(BinOp::LtEq),
            TokenKindView::GtEq => Some(BinOp::GtEq),
            _ => None,
        }
    } else if level == 4 {
        match kind {
            TokenKindView::Plus => Some(BinOp::Add),
            TokenKindView::Minus => Some(BinOp::Sub),
            _ => None,
        }
    } else if level == 5 {
        match kind {
            TokenKindView::Star => Some(BinOp::Mul),
            TokenKindView::Slash => Some(BinOp::Div),
            TokenKindView::Percent => Some(BinOp::Mod),
            _ => None,
        }
    } else {
        None
    }
}

/// The reduction that a token names: `+`, `*`, `max` or `min`.
pub open spec fn reduce_op_of(kind: TokenKindView) -> Option<ReduceOp> {
    match kind {
        TokenKindView::Plus => Some(ReduceOp::Sum),
        TokenKindView::Star => Some(ReduceOp::Prod),
        TokenKindView::Ident(name) => if name == "max"@ {
            Some(ReduceOp::Max)
        } else if name == "min"@ {
            Some(ReduceOp::Min)
        } else {
            None
        },
        _ => None,
    }
}

/// How far a level is from the tightest.
pub open spec fn depth(level: nat) -> nat {
    if level >= 5 {
        0
    } else {
        (5 - level) as nat
    }
}

/// A primary expression: a literal, `( expr )`, `reduce ( op , expr )`, or a
/// name, alone or followed by `( args )` or `[ expr ]`.
#[verifier::opaque]
pub open spec fn parse_primary(ts: Seq<TokenView>, pos: int) -> Parsed<ExprView>
    decreases remaining(ts, pos), 0nat,
{
    match peek(ts, pos) {
        TokenKindView::IntLit(n) => Ok((ExprView::IntLit(n), used(pos, next(ts, pos)))),
        TokenKindView::FloatLit(t) => Ok((ExprView::FloatLit(t), used(pos, next(ts, pos)))),
        TokenKindView::BoolLit(b) => Ok((ExprView::BoolLit(b), used(pos, next(ts, pos)))),
        TokenKindView::StringLit(t) => Ok((ExprView::StringLit(t), used(pos, next(ts, pos)))),
        TokenKindView::Reduce => {
            let p1 = next(ts, pos);
            match expect(ts, p1, TokenTag::LParen) {
                Err(e) => Err(e),
                Ok(k1) => {
                    let p2 = p1 + k1;
                    match reduce_op_of(peek(ts, p2)) {
                        None => Err(fail(ts, p2, ParseErrorKind::ExpectedReduceOperation)),
                        Some(op) => {
                            let p3 = next(ts, p2);
                            match expect(ts, p3, TokenTag::Comma) {
                                Err(e) => Err(e),
                                Ok(k3) => {
                                    let p4 = p3 + k3;
                                    match parse_binary(ts, p4, 0) {
                                        Err(e) => Err(e),
                                        Ok((array, n)) => match expect(
                                            ts,
                                            p4 + n,
                                            TokenTag::RParen,
                                        ) {
                                            Err(e) => Err(e),
                                            Ok(k5) => Ok(
                                                (
                                                    ExprView::Reduce(op, Box::new(array)),
                                                    used(pos, p4 + n + k5),
                                                ),
                                            ),
                                        },
                                    }
                                },
                            }
                        },
                    }
                },
            }
        },
        TokenKindView::Ident(name) => {
            let p1 = next(ts, pos);
            if peek(ts, p1) is LParen {
                let p2 = next(ts, p1);
                match parse_args(ts, p2) {
                    Err(e) => Err(e),
                    Ok((args, n)) => match expect(ts, p2 + n, TokenTag::RParen) {
                        Err(e) => Err(e),
                        Ok(k) => Ok((ExprView::Call(name, args), used(pos, p2 + n + k))),
                    },
                }
            } else if peek(ts, p1) is LBracket {
                let p2 = next(ts, p1);
                match parse_binary(ts, p2, 0) {
                    Err(e) => Err(e),
                    Ok((index, n)) => match expect(ts, p2 + n, TokenTag::RBracket) {
                        Err(e) => Err(e),
                        Ok(k) => Ok(
                            (
                                ExprView::Index(
                                    Box::new(ExprView::Ident(name)),
                                    Box::new(index),
                                ),
                                used(pos, p2 + n + k),
                            ),
                        ),
                    },
                }
            } else {
                Ok((ExprView::Ident(name), used(pos, p1)))
            }
        },
        TokenKindView::LParen => {
            let p1 = next(ts, pos);
            match parse_binary(ts, p1, 0) {
                Err(e) => Err(e),
                Ok((inner, n)) => match expect(ts, p1 + n, TokenTag::RParen) {
                    Err(e) => Err(e),
                    Ok(k) => Ok((inner, used(pos, p1 + n + k))),
                },
            }
        },
        _ => Err(fail(ts, pos, ParseErrorKind::UnexpectedTokenInExpression)),
    }
}

/// A unary expression: any number of `-` and `!` before a primary one.
#[verifier::opaque]
pub open spec fn parse_unary(ts: Seq<TokenView>, pos: int) -> Parsed<ExprView>
    decreases remaining(ts, pos), 1nat,
{
    match peek(ts, pos) {
        TokenKindView::Minus => match parse_unary(ts, next(ts, pos)) {
            Err(e) => Err(e),
            Ok((inner, n)) => Ok(
                (ExprView::UnaryOp(UnaryOp::Neg, Box::new(inner)), used(pos, next(ts, pos) + n)),
            ),
        },
        TokenKindView::Not => match parse_unary(ts, next(ts, pos)) {
            Err(e) => Err(e),
            Ok((inner, n)) => Ok(
                (ExprView::UnaryOp(UnaryOp::Not, Box::new(inner)), used(pos, next(ts, pos) + n)),
            ),
        },
        _ => parse_primary(ts, pos),
    }
}

/// An expression of a level: operands of the next tighter level (unary
/// expressions on the tightest), joined by the operators of the level,
/// grouped from the left.
#[verifier::opaque]
pub open spec fn parse_binary(ts: Seq<TokenView>, pos: int, level: nat) -> Parsed<ExprView>
    decreases remaining(ts, pos), 2 * depth(level) + 3,
{
    let first = if level >= 5 {
        parse_unary(ts, pos)
    } else {
        parse_binary(ts, pos, level + 1)
    };
    match first {
        Err(e) => Err(e),
        Ok((left, n)) => match parse_binary_rest(ts, pos + n, level, left) {
            Err(e) => Err(e),
            Ok((whole, m)) => Ok((whole, n + m)),
        },
    }
}

/// What follows the operands read so far on a level: nothing, or an operator
/// of the level, an operand and what follows them.
#[verifier::opaque]
pub open spec fn parse_binary_rest(ts: Seq<TokenView>, pos: int, level: nat, left: ExprView)
    -> Parsed<ExprView>
    decreases remaining(ts, pos), 2 * depth(level) + 2,
{
    match binary_op(level, peek(ts, pos)) {
        None => Ok((left, 0)),
        Some(op) => {
            let p1 = next(ts, pos);
            let operand = if level >= 5 {
                parse_unary(ts, p1)
            } else {
                parse_binary(ts, p1, level + 1)
            };
            match operand {
                Err(e) => Err(e),
                Ok((right, n)) => match parse_binary_rest(
                    ts,
                    p1 + n,
                    level,
                    ExprView::BinOp(Box::new(left), op, Box::new(right)),
                ) {
                    Err(e) => Err(e),
                    Ok((whole, m)) => Ok((whole, used(pos, p1 + n + m))),
                },
            }
        },
    }
}

/// The arguments of a call, up to the closing parenthesis: expressions, each
/// optionally followed by a comma. An expression holds at least one token,
/// so the position moves with each argument and the rest is always read
/// (`lemma_args_go_on`).
#[verifier::opaque]
pub open spec fn parse_args(ts: Seq<TokenView>, pos: int) -> Parsed<Seq<ExprView>>
    decreases remaining(ts, pos), 16nat,
{
    if peek(ts, pos) is RParen {
        Ok((Seq::empty(), 0))
    } else {
        match parse_binary(ts, pos, 0) {
            Err(e) => Err(e),
            Ok((arg, n)) => {
                let p1 = pos + n;
                let p2 = if peek(ts, p1) is Comma {
                    next(ts, p1)
                } else {
                    p1
                };
                if p2 > pos && pos < ts.len() {
                    match parse_args(ts, p2) {
                        Err(e) => Err(e),
                        Ok((rest, m)) => Ok((seq![arg] + rest, used(pos, p2 + m))),
                    }
                } else {
                    Ok((seq![arg], used(pos, p2)))
                }
            },
        }
    }
}

/// An expression.
pub open spec fn parse_expr(ts: Seq<TokenView>, pos: int) -> Parsed<ExprView> {
    parse_binary(ts, pos, 0)
}

/// A data declaration: `data NAME : TYPE`.
#[verifier::opaque]
pub open spec fn parse_data_decl(ts: Seq<TokenView>, pos: int) -> Parsed<StmtView> {
    match expect(ts, pos, TokenTag::Data) {
        Err(e) => Err(e),
        Ok(k1) => {
            let p1 = pos + k1;
            match peek(ts, p1) {
                TokenKindView::Ident(name) => {
                    let p2 = next(ts, p1);
                    match expect(ts, p2, TokenTag::Colon) {
                        Err(e) => Err(e),
                        Ok(k2) => match parse_type(ts, p2 + k2) {
                            Err(e) => Err(e),
                            Ok((dtype, n)) => Ok(
                                (StmtView::DataDecl { name, dtype }, used(pos, p2 + k2 + n)),
                            ),
                        },
                    }
                },
                _ => Err(fail(ts, p1, ParseErrorKind::ExpectedVariableName)),
            }
        },
    }
}

/// A return: `return`, and an expression unless a line break, `}` or the
/// end stands right after it.
#[verifier::opaque]
pub open spec fn parse_return(ts: Seq<TokenView>, pos: int) -> Parsed<StmtView> {
    match expect(ts, pos, TokenTag::Return) {
        Err(e) => Err(e),
        Ok(k) => {
            let after = peek(ts, pos + 1);
            if after is Newline || after is RBrace || after is Eof {
                Ok((StmtView::Return(None), k))
            } else {
                match parse_expr(ts, pos + k) {
                    Err(e) => Err(e),
                    Ok((value, n)) => Ok((StmtView::Return(Some(value)), k + n)),
                }
            }
        },
    }
}

/// A statement that starts with a name: `NAME = expr`, `NAME [ expr ] =
/// expr`, a call `NAME ( args )`, or the name alone. Without `=` an index
/// is read and dropped.
#[verifier::opaque]
pub open spec fn parse_assign_or_expr(ts: Seq<TokenView>, pos: int) -> Parsed<StmtView> {
    match peek(ts, pos) {
        TokenKindView::Ident(name) => {
            let p1 = next(ts, pos);
            let indexed: Parsed<Option<ExprView>> = if peek(ts, p1) is LBracket {
                let p2 = next(ts, p1);
                match parse_expr(ts, p2) {
                    Err(e) => Err(e),
                    Ok((index, n)) => match expect(ts, p2 + n, TokenTag::RBracket) {
                        Err(e) => Err(e),
                        Ok(k) => Ok((Some(index), used(p1, p2 + n + k))),
                    },
                }
            } else {
                Ok((None, 0))
            };
            match indexed {
                Err(e) => Err(e),
                Ok((index, n1)) => {
                    let p3 = p1 + n1;
                    if peek(ts, p3) is Eq {
                        let p4 = next(ts, p3);
                        match parse_expr(ts, p4) {
                            Err(e) => Err(e),
                            Ok((value, n)) => Ok(
                                (
                                    StmtView::Assign { target: name, index, value },
                                    used(pos, p4 + n),
                                ),
                            ),
                        }
                    } else if peek(ts, p3) is LParen {
                        let p4 = next(ts, p3);
                        match parse_args(ts, p4) {
                            Err(e) => Err(e),
                            Ok((args, n)) => match expect(ts, p4 + n, TokenTag::RParen) {
                                Err(e) => Err(e),
                                Ok(k) => Ok(
                                    (
                                        StmtView::ExprStmt(ExprView::Call(name, args)),
                                        used(pos, p4 + n + k),
                                    ),
                                ),
                            },
                        }
                    } else {
                        Ok((StmtView::ExprStmt(ExprView::Ident(name)), used(pos, p3)))
                    }
                },
            }
        },
        _ => Err(fail(ts, pos, ParseErrorKind::ExpectedIdentifier)),
    }
}

/// A braced block: `{ statements }`.
#[verifier::opaque]
pub open spec fn parse_braced(ts: Seq<TokenView>, pos: int) -> Parsed<Seq<StmtView>>
    decreases remaining(ts, pos), 10nat,
{
    match expect(ts, pos, TokenTag::LBrace) {
        Err(e) => Err(e),
        Ok(k1) => match parse_block(ts, pos + k1) {
            Err(e) => Err(e),
            Ok((body, n)) => match expect(ts, pos + k1 + n, TokenTag::RBrace) {
                Err(e) => Err(e),
                Ok(k2) => Ok((body, k1 + n + k2)),
            },
        },
    }
}

/// A tagged block: a target keyword, then `{ statements }`.
#[verifier::opaque]
pub open spec fn parse_exec_block(ts: Seq<TokenView>, pos: int, target: ExecTarget) -> Parsed<
    StmtView,
>
    decreases remaining(ts, pos), 20nat,
{
    if pos < 0 || pos >= ts.len() {
        Err(fail(ts, pos, ParseErrorKind::UnexpectedToken))
    } else {
        match parse_braced(ts, next(ts, pos)) {
            Err(e) => Err(e),
            Ok((body, n)) => Ok((StmtView::ExecBlock { target, body }, used(pos, next(ts, pos) + n))),
        }
    }
}

/// A conditional: `if expr { statements }`, then optionally
/// `else { statements }`.
#[verifier::opaque]
pub open spec fn parse_if(ts: Seq<TokenView>, pos: int) -> Parsed<StmtView>
    decreases remaining(ts, pos), 20nat,
{
    match expect(ts, pos, TokenTag::If) {
        Err(e) => Err(e),
        Ok(k1) => match parse_expr(ts, pos + k1) {
            Err(e) => Err(e),
            Ok((cond, n1)) => match parse_braced(ts, pos + k1 + n1) {
                Err(e) => Err(e),
                Ok((then_body, n2)) => {
                    let p2 = pos + k1 + n1 + n2;
                    if peek(ts, p2) is Else {
                        match parse_braced(ts, next(ts, p2)) {
                            Err(e) => Err(e),
                            Ok((else_body, n3)) => Ok(
                                (
                                    StmtView::If { cond, then_body, else_body: Some(else_body) },
                                    used(pos, next(ts, p2) + n3),
                                ),
                            ),
                        }
                    } else {
                        Ok((StmtView::If { cond, then_body, else_body: None }, used(pos, p2)))
                    }
                },
            },
        },
    }
}

/// A loop: `for NAME = expr : expr { statements }`.
#[verifier::opaque]
pub open spec fn parse_for(ts: Seq<TokenView>, pos: int) -> Parsed<StmtView>
    decreases remaining(ts, pos), 20nat,
{
    match expect(ts, pos, TokenTag::For) {
        Err(e) => Err(e),
        Ok(k1) => {
            let p1 = pos + k1;
            match peek(ts, p1) {
                TokenKindView::Ident(var) => {
                    let p2 = next(ts, p1);
                    match expect(ts, p2, TokenTag::Eq) {
                        Err(e) => Err(e),
                        Ok(k2) => match parse_expr(ts, p2 + k2) {
                            Err(e) => Err(e),
                            Ok((start, n1)) => {
                                let p3 = p2 + k2 + n1;
                                match expect(ts, p3, TokenTag::Colon) {
                                    Err(e) => Err(e),
                                    Ok(k3) => match parse_expr(ts, p3 + k3) {
                                        Err(e) => Err(e),
                                        Ok((end, n2)) => match parse_braced(
                                            ts,
                                            p3 + k3 + n2,
                                        ) {
                                            Err(e) => Err(e),
                                            Ok((body, n3)) => Ok(
                                                (
                                                    StmtView::For { var, start, end, body },
                                                    used(pos, p3 + k3 + n2 + n3),
                                                ),
                                            ),
                                        },
                                    },
                                }
                            },
                        },
                    }
                },
                _ => Err(fail(ts, p1, ParseErrorKind::ExpectedLoopVariable)),
            }
        },
    }
}

/// A statement, after any line breaks: a data declaration, a tagged block,
/// `if`, `for`, `return`, or one that starts with a name.
#[verifier::opaque]
pub open spec fn parse_statement(ts: Seq<TokenView>, pos: int) -> Parsed<StmtView>
    decreases remaining(ts, pos), 30nat,
{
    let p0 = skip_newlines(ts, pos);
    let found: Parsed<StmtView> = match peek(ts, p0) {
        TokenKindView::Data => parse_data_decl(ts, p0),
        TokenKindView::Parallel => parse_exec_block(ts, p0, ExecTarget::Parallel),
        TokenKindView::Sequential => parse_exec_block(ts, p0, ExecTarget::Sequential),
        TokenKindView::Gpu => parse_exec_block(ts, p0, ExecTarget::Gpu),
        TokenKindView::Asm => parse_exec_block(ts, p0, ExecTarget::Asm),
        TokenKindView::If => parse_if(ts, p0),
        TokenKindView::For => parse_for(ts, p0),
        TokenKindView::Return => parse_return(ts, p0),
        TokenKindView::Ident(_) => parse_assign_or_expr(ts, p0),
        _ => Err(fail(ts, p0, ParseErrorKind::UnexpectedToken)),
    };
    match found {
        Err(e) => Err(e),
        Ok((s, n)) => Ok((s, used(pos, p0 + n))),
    }
}

/// The statements of a block, up to its closing brace or the end: each may
/// have line breaks before it. A statement holds at least one token, so the
/// position moves with each and the rest is always read
/// (`lemma_block_goes_on`).
#[verifier::opaque]
pub open spec fn parse_block(ts: Seq<TokenView>, pos: int) -> Parsed<Seq<StmtView>>
    decreases remaining(ts, pos), 31nat,
{
    let p0 = skip_newlines(ts, pos);
    if peek(ts, p0) is RBrace || peek(ts, p0) is Eof {
        Ok((Seq::empty(), used(pos, p0)))
    } else {
        match parse_statement(ts, p0) {
            Err(e) => Err(e),
            Ok((s, n)) => {
                let p1 = p0 + n;
                if p1 > pos && pos < ts.len() {
                    match parse_block(ts, p1) {
                        Err(e) => Err(e),
                        Ok((rest, m)) => Ok((seq![s] + rest, used(pos, p1 + m))),
                    }
                } else {
                    Ok((seq![s], used(pos, p1)))
                }
            },
        }
    }
}

/// The parameters of a function, up to the closing parenthesis:
/// `NAME : TYPE`, each optionally followed by a comma.
#[verifier::opaque]
pub open spec fn parse_params(ts: Seq<TokenView>, pos: int) -> Parsed<Seq<ParamView>>
    decreases remaining(ts, pos),
{
    if peek(ts, pos) is RParen {
        Ok((Seq::empty(), 0))
    } else {
        match peek(ts, pos) {
            TokenKindView::Ident(name) => {
                let p1 = next(ts, pos);
                match expect(ts, p1, TokenTag::Colon) {
                    Err(e) => Err(e),
                    Ok(k1) => match parse_type(ts, p1 + k1) {
                        Err(e) => Err(e),
                        Ok((dtype, n)) => {
                            let p2 = p1 + k1 + n;
                            let p3 = if peek(ts, p2) is Comma {
                                next(ts, p2)
                            } else {
                                p2
                            };
                            match parse_params(ts, p3) {
                                Err(e) => Err(e),
                                Ok((rest, m)) => Ok(
                                    (seq![ParamView { name, dtype }] + rest, used(pos, p3 + m)),
                                ),
                            }
                        },
                    },
                }
            },
            _ => Err(fail(ts, pos, ParseErrorKind::ExpectedParameterName)),
        }
    }
}

/// A function definition:
/// `fn NAME ( params ) [-> TYPE] { statements }`; without `->` the function
/// returns nothing.
#[verifier::opaque]
pub open spec fn parse_function(ts: Seq<TokenView>, pos: int) -> Parsed<FnDefView> {
    match expect(ts, pos, TokenTag::Fn) {
        Err(e) => Err(e),
        Ok(k1) => {
            let p1 = pos + k1;
            match peek(ts, p1) {
                TokenKindView::Ident(name) => {
                    let p2 = next(ts, p1);
                    match expect(ts, p2, TokenTag::LParen) {
                        Err(e) => Err(e),
                        Ok(k2) => match parse_params(ts, p2 + k2) {
                            Err(e) => Err(e),
                            Ok((params, n1)) => {
                                let p3 = p2 + k2 + n1;
                                match expect(ts, p3, TokenTag::RParen) {
                                    Err(e) => Err(e),
                                    Ok(k3) => {
                                        let p4 = p3 + k3;
                                        let returns: Parsed<DataType> = if peek(ts, p4) is Arrow {
                                            match parse_type(ts, next(ts, p4)) {
                                                Err(e) => Err(e),
                                                Ok((t, n)) => Ok((t, used(p4, next(ts, p4) + n))),
                                            }
                                        } else {
                                            Ok((DataType::Void, 0))
                                        };
                                        match returns {
                                            Err(e) => Err(e),
                                            Ok((ret_type, n2)) => match parse_braced(
                                                ts,
                                                p4 + n2,
                                            ) {
                                                Err(e) => Err(e),
                                                Ok((body, n3)) => Ok(
                                                    (
                                                        FnDefView { name, params, ret_type, body },
                                                        used(pos, p4 + n2 + n3),
                                                    ),
                                                ),
                                            },
                                        }
                                    },
                                }
                            },
                        },
                    }
                },
                _ => Err(fail(ts, p1, ParseErrorKind::ExpectedFunctionName)),
            }
        },
    }
}

/// The program from a position on: function definitions and statements in
/// any order, up to the end. A definition or a statement holds at least one
/// token, so the position moves with each and the rest is always read
/// (`lemma_items_go_on`).
#[verifier::opaque]
pub open spec fn parse_items(ts: Seq<TokenView>, pos: int) -> Result<ProgramView, ParseError>
    decreases remaining(ts, pos),
{
    let p0 = skip_newlines(ts, pos);
    if peek(ts, p0) is Eof {
        Ok(ProgramView { functions: Seq::empty(), statements: Seq::empty() })
    } else if peek(ts, p0) is Fn {
        match parse_function(ts, p0) {
            Err(e) => Err(e),
            Ok((f, n)) => if p0 + n > pos && pos < ts.len() {
                match parse_items(ts, p0 + n) {
                    Err(e) => Err(e),
                    Ok(rest) => Ok(
                        ProgramView {
                            functions: seq![f] + rest.functions,
                            statements: rest.statements,
                        },
                    ),
                }
            } else {
                Ok(ProgramView { functions: seq![f], statements: Seq::empty() })
            },
        }
    } else {
        match parse_statement(ts, p0) {
            Err(e) => Err(e),
            Ok((s, n)) => if p0 + n > pos && pos < ts.len() {
                match parse_items(ts, p0 + n) {
                    Err(e) => Err(e),
                    Ok(rest) => Ok(
                        ProgramView {
                            functions: rest.functions,
                            statements: seq![s] + rest.statements,
                        },
                    ),
                }
            } else {
                Ok(ProgramView { functions: Seq::empty(), statements: seq![s] })
            },
        }
    }
}

/// The program that a token sequence parses to.
pub open spec fn parse_program(ts: Seq<TokenView>) -> Result<ProgramView, ParseError> {
    parse_items(ts, 0)
}

/// A primary expression holds at least one token.
pub proof fn lemma_primary_uses_tokens(ts: Seq<TokenView>, pos: int)
    ensures
        match parse_primary(ts, pos) {
            Ok((_, n)) => n >= 1 && 0 <= pos < ts.len(),
            Err(_) => true,
        },
{
    reveal_with_fuel(parse_primary, 1);
}

/// A unary expression holds at least one token.
pub proof fn lemma_unary_uses_tokens(ts: Seq<TokenView>, pos: int)
    ensures
        match parse_unary(ts, pos) {
            Ok((_, n)) => n >= 1 && 0 <= pos < ts.len(),
            Err(_) => true,
        },
{
    reveal_with_fuel(parse_unary, 1);
    reveal_with_fuel(parse_primary, 1);
    lemma_primary_uses_tokens(ts, pos);
}

/// An expression of any level holds at least one token.
pub proof fn lemma_expr_uses_tokens(ts: Seq<TokenView>, pos: int, level: nat)
    ensures
        match parse_binary(ts, pos, level) {
            Ok((_, n)) => n >= 1 && 0 <= pos < ts.len(),
            Err(_) => true,
        },
    decreases depth(level),
{
    reveal_with_fuel(parse_binary, 1);
    reveal_with_fuel(parse_unary, 1);
    reveal_with_fuel(parse_binary_rest, 1);
    if level >= 5 {
        lemma_unary_uses_tokens(ts, pos);
    } else {
        lemma_expr_uses_tokens(ts, pos, level + 1);
    }
}

/// A statement holds at least one token.
pub proof fn lemma_statement_uses_tokens(ts: Seq<TokenView>, pos: int)
    requires
        0 <= pos,
    ensures
        match parse_statement(ts, pos) {
            Ok((_, n)) => n >= 1 && pos < ts.len(),
            Err(_) => true,
        },
{
    reveal_with_fuel(parse_statement, 1);
    reveal(parse_data_decl);
    reveal_with_fuel(parse_exec_block, 1);
    reveal_with_fuel(parse_if, 1);
    reveal_with_fuel(parse_for, 1);
    reveal(parse_return);
    reveal(parse_assign_or_expr);
}

/// A function definition holds at least one token.
pub proof fn lemma_function_uses_tokens(ts: Seq<TokenView>, pos: int)
    ensures
        match parse_function(ts, pos) {
            Ok((_, n)) => n >= 1 && 0 <= pos < ts.len(),
            Err(_) => true,
        },
{
    reveal(parse_function);
}

/// After an argument the arguments go on: the position has moved, so the
/// rest is always read.
pub proof fn lemma_args_go_on(ts: Seq<TokenView>, pos: int)
    requires
        !(peek(ts, pos) is RParen),
        parse_binary(ts, pos, 0) is Ok,
    ensures
        ({
            let (arg, n) = parse_binary(ts, pos, 0)->Ok_0;
            let p1 = pos + n;
            let p2 = if peek(ts, p1) is Comma {
                next(ts, p1)
            } else {
                p1
            };
            parse_args(ts, pos) == match parse_args(ts, p2) {
                Err(e) => Err::<(Seq<ExprView>, nat), ParseError>(e),
                Ok((rest, m)) => Ok((seq![arg] + rest, used(pos, p2 + m))),
            }
        }),
{
    reveal_with_fuel(parse_args, 1);
    reveal_with_fuel(parse_binary, 1);
    lemma_expr_uses_tokens(ts, pos, 0);
}

/// After a statement the block goes on: the position has moved, so the
/// rest is always read.
pub proof fn lemma_block_goes_on(ts: Seq<TokenView>, pos: int)
    requires
        0 <= pos,
        !(peek(ts, skip_newlines(ts, pos)) is RBrace),
        !(peek(ts, skip_newlines(ts, pos)) is Eof),
        parse_statement(ts, skip_newlines(ts, pos)) is Ok,
    ensures
        ({
            let p0 = skip_newlines(ts, pos);
            let (s, n) = parse_statement(ts, p0)->Ok_0;
            parse_block(ts, pos) == match parse_block(ts, p0 + n) {
                Err(e) => Err::<(Seq<StmtView>, nat), ParseError>(e),
                Ok((rest, m)) => Ok((seq![s] + rest, used(pos, p0 + n + m))),
            }
        }),
{
    reveal_with_fuel(parse_block, 1);
    reveal_with_fuel(parse_statement, 1);
    lemma_statement_uses_tokens(ts, skip_newlines(ts, pos));
}

/// After a function definition or a statement the program goes on: the
/// position has moved, so the rest is always read.
pub proof fn lemma_items_go_on(ts: Seq<TokenView>, pos: int)
    requires
        0 <= pos,
        !(peek(ts, skip_newlines(ts, pos)) is Eof),
    ensures
        ({
            let p0 = skip_newlines(ts, pos);
            if peek(ts, p0) is Fn {
                parse_items(ts, pos) == match parse_function(ts, p0) {
                    Err(e) => Err::<ProgramView, ParseError>(e),
                    Ok((f, n)) => match parse_items(ts, p0 + n) {
                        Err(e) => Err(e),
                        Ok(rest) => Ok(
                            ProgramView {
                                functions: seq![f] + rest.functions,
                                statements: rest.statements,
                            },
                        ),
                    },
                }
            } else {
                parse_items(ts, pos) == match parse_statement(ts, p0) {
                    Err(e) => Err::<ProgramView, ParseError>(e),
                    Ok((s, n)) => match parse_items(ts, p0 + n) {
                        Err(e) => Err(e),
                        Ok(rest) => Ok(
                            ProgramView {
                                functions: rest.functions,
                                statements: seq![s] + rest.statements,
                            },
                        ),
                    },
                }
            }
        }),
{
    reveal_with_fuel(parse_items, 1);
    lemma_statement_uses_tokens(ts, skip_newlines(ts, pos));
    lemma_function_uses_tokens(ts, skip_newlines(ts, pos));
}

} // verus!
