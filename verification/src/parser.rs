//! The parser: tokens to a program, by recursive descent. The first error
//! ends the parse.

use vstd::prelude::*;
use crate::ast::{
    expr_view, exprs_view, params_view, stmts_view, BinOp, DataType, ExecTarget, Expr, ExprView,
    FnDef, FnDefView, Param, ParamView, Program, ProgramView, ReduceOp, Stmt, StmtView, UnaryOp,
};
use crate::cursor::{lemma_skip_newlines, next, peek, remaining, skip_newlines, used};
use crate::grammar::{
    binary_op, depth, expect, fail, parse_args, parse_assign_or_expr, parse_binary,
    parse_binary_rest, parse_block, parse_braced, parse_data_decl, parse_exec_block, parse_expr,
    parse_for, parse_function, parse_if, parse_items, parse_params, parse_primary,
    parse_program, parse_return, parse_statement, parse_type, parse_unary, reduce_op_of,
    ParseError, ParseErrorKind, Parsed,
};
use crate::lexer::{lex, Lexer};
use crate::text::is_text;
use crate::token::{tokens_view, Token, TokenKind, TokenKindView, TokenTag, TokenView};

verus! {

broadcast use lemma_skip_newlines;

/// An expression was parsed as the grammar says, and the position moved by
/// the tokens used.
pub open spec fn yields_expr(
    r: Result<Expr, ParseError>,
    before: int,
    after: int,
    s: Parsed<ExprView>,
) -> bool {
    match s {
        Ok((v, n)) => r is Ok && r->Ok_0@ == v && after == before + n && n > 0,
        Err(e) => r == Err::<Expr, ParseError>(e),
    }
}

/// A statement was parsed as the grammar says.
pub open spec fn yields_stmt(
    r: Result<Stmt, ParseError>,
    before: int,
    after: int,
    s: Parsed<StmtView>,
) -> bool {
    match s {
        Ok((v, n)) => r is Ok && r->Ok_0@ == v && after == before + n && n > 0,
        Err(e) => r == Err::<Stmt, ParseError>(e),
    }
}

/// A list of statements was parsed as the grammar says.
pub open spec fn yields_stmts(
    r: Result<Vec<Stmt>, ParseError>,
    before: int,
    after: int,
    s: Parsed<Seq<StmtView>>,
) -> bool {
    match s {
        Ok((v, n)) => r is Ok && stmts_view(r->Ok_0@) == v && after == before + n,
        Err(e) => r == Err::<Vec<Stmt>, ParseError>(e),
    }
}

/// A list of expressions was parsed as the grammar says.
pub open spec fn yields_exprs(
    r: Result<Vec<Expr>, ParseError>,
    before: int,
    after: int,
    s: Parsed<Seq<ExprView>>,
) -> bool {
    match s {
        Ok((v, n)) => r is Ok && exprs_view(r->Ok_0@) == v && after == before + n,
        Err(e) => r == Err::<Vec<Expr>, ParseError>(e),
    }
}

/// A type was parsed as the grammar says.
pub open spec fn yields_type(
    r: Result<DataType, ParseError>,
    before: int,
    after: int,
    s: Parsed<DataType>,
) -> bool {
    match s {
        Ok((v, n)) => r == Ok::<DataType, ParseError>(v) && after == before + n && n > 0,
        Err(e) => r == Err::<DataType, ParseError>(e),
    }
}

/// A program was parsed as the grammar says.
pub open spec fn yields_program(r: Result<Program, ParseError>, s: Result<ProgramView, ParseError>)
    -> bool {
    match s {
        Ok(v) => r is Ok && r->Ok_0@ == v,
        Err(e) => r == Err::<Program, ParseError>(e),
    }
}

/// Parsing is a function of the tokens: two parses of one token sequence
/// yield equal trees, or the same error.
pub proof fn lemma_parse_is_a_function(
    tokens: Seq<TokenView>,
    first: Result<Program, ParseError>,
    second: Result<Program, ParseError>,
)
    requires
        yields_program(first, parse_program(tokens)),
        yields_program(second, parse_program(tokens)),
    ensures
        match first {
            Ok(p) => second is Ok && second->Ok_0@ == p@,
            Err(e) => second == Err::<Program, ParseError>(e),
        },
{
}

/// The parser: a token sequence and a position in it.
pub struct Parser {
    tokens: Vec<Token>,
    pos: usize,
}

impl Parser {
    /// The tokens.
    pub closed spec fn tokens(&self) -> Seq<TokenView> {
        tokens_view(self.tokens@)
    }

    /// The position of the next token to read.
    pub closed spec fn position(&self) -> int {
        self.pos as int
    }

    /// The position lies within the tokens or at their end.
    pub closed spec fn wf(&self) -> bool {
        self.pos <= self.tokens.len()
    }

    /// A parser at the start of a token sequence.
    pub fn new(tokens: Vec<Token>) -> (r: Self)
        ensures
            r.wf(),
            r.tokens() == tokens_view(tokens@),
            r.position() == 0,
    {
        Self { tokens, pos: 0 }
    }

    /// A parser at the start of the tokens of a source text.
    pub fn from_source(source: &str) -> (r: Self)
        requires
            source@.len() < usize::MAX,
        ensures
            r.wf(),
            r.tokens() == lex(source@),
            r.position() == 0,
    {
        let mut lexer = Lexer::new(source);
        let tokens = lexer.tokenize();
        Self::new(tokens)
    }

    /// The tag of the token at the position; `Eof` past the end.
    pub fn peek_tag(&self) -> (r: TokenTag)
        requires
            self.wf(),
        ensures
            r == peek(self.tokens(), self.position()).tag(),
            r != TokenTag::Eof ==> self.position() < self.tokens().len(),
    {
        if self.pos < self.tokens.len() {
            self.tokens[self.pos].kind.tag()
        } else {
            TokenTag::Eof
        }
    }

    /// The error of a complaint raised at the position.
    fn fail(&self, kind: ParseErrorKind) -> (r: ParseError)
        requires
            self.wf(),
        ensures
            r == fail(self.tokens(), self.position(), kind),
    {
        if self.pos < self.tokens.len() {
            ParseError {
                kind,
                found: self.tokens[self.pos].kind.tag(),
                line: self.tokens[self.pos].line,
                col: self.tokens[self.pos].col,
            }
        } else {
            ParseError { kind, found: TokenTag::Eof, line: 0, col: 0 }
        }
    }

    /// Skips line breaks.
    fn skip_newlines(&mut self)
        requires
            old(self).wf(),
        ensures
            final(self).wf(),
            final(self).tokens() == old(self).tokens(),
            final(self).position() == skip_newlines(old(self).tokens(), old(self).position()),
    {
        while self.pos < self.tokens.len() && self.is_newline_at(self.pos)
            invariant
                self.wf(),
                self.tokens@ == old(self).tokens@,
                skip_newlines(self.tokens(), self.pos as int) == skip_newlines(
                    old(self).tokens(),
                    old(self).pos as int,
                ),
            decreases self.tokens.len() - self.pos,
        {
            self.pos += 1;
        }
    }

    fn is_newline_at(&self, at: usize) -> (r: bool)
        requires
            at < self.tokens.len(),
        ensures
            r == (self.tokens()[at as int].kind is Newline),
    {
        match self.tokens[at].kind {
            TokenKind::Newline => true,
            _ => false,
        }
    }

    /// Uses the token at the position and the line breaks after it.
    fn advance(&mut self)
        requires
            old(self).wf(),
            old(self).position() < old(self).tokens().len(),
        ensures
            final(self).wf(),
            final(self).tokens() == old(self).tokens(),
            final(self).position() == next(old(self).tokens(), old(self).position()),
            final(self).position() > old(self).position(),
    {
        self.pos += 1;
        self.skip_newlines();
    }

    /// Uses the token at the position if it has the tag.
    fn expect(&mut self, tag: TokenTag) -> (r: Result<(), ParseError>)
        requires
            old(self).wf(),
            tag != TokenTag::Eof,
        ensures
            final(self).wf(),
            final(self).tokens() == old(self).tokens(),
            match expect(old(self).tokens(), old(self).position(), tag) {
                Ok(k) => r is Ok && final(self).position() == old(self).position() + k && k > 0,
                Err(e) => r == Err::<(), ParseError>(e) && final(self).position() == old(
                    self,
                ).position(),
            },
    {
        if self.peek_tag() == tag {
            self.advance();
            Ok(())
        } else {
            Err(self.fail(ParseErrorKind::Expected(tag)))
        }
    }

    /// The name that the identifier at the position holds, if one stands
    /// there.
    fn ident_here(&self) -> (r: Option<String>)
        requires
            self.wf(),
        ensures
            match peek(self.tokens(), self.position()) {
                TokenKindView::Ident(name) => r is Some && r->0@ == name && self.position()
                    < self.tokens().len(),
                _ => r is None,
            },
    {
        if self.pos < self.tokens.len() {
            match &self.tokens[self.pos].kind {
                TokenKind::Ident(s) => Some(s.clone()),
                _ => None,
            }
        } else {
            None
        }
    }

    /// Parses a type.
    pub fn parse_type(&mut self) -> (r: Result<DataType, ParseError>)
        requires
            old(self).wf(),
        ensures
            final(self).wf(),
            final(self).tokens() == old(self).tokens(),
            yields_type(
                r,
                old(self).position(),
                final(self).position(),
                parse_type(old(self).tokens(), old(self).position()),
            ),
    {
        proof {
            reveal(parse_type);
        }
        let base = match self.peek_tag() {
            TokenTag::I32 => DataType::I32,
            TokenTag::I64 => DataType::I64,
            TokenTag::F32 => DataType::F32,
            TokenTag::F64 => DataType::F64,
            TokenTag::Bool => DataType::Bool,
            _ => {
                return Err(self.fail(ParseErrorKind::ExpectedType));
            },
        };
        self.advance();
        if self.peek_tag() == TokenTag::LBracket {
            self.advance();
            let size: usize = if self.pos < self.tokens.len() {
                match self.tokens[self.pos].kind {
                    TokenKind::IntLit(n) => {
                        if n >= 0 && (n as u64) <= (usize::MAX as u64) {
                            n as usize
                        } else {
                            return Err(self.fail(ParseErrorKind::InvalidArraySize));
                        }
                    },
                    _ => {
                        return Err(self.fail(ParseErrorKind::ExpectedArraySize));
                    },
                }
            } else {
                return Err(self.fail(ParseErrorKind::ExpectedArraySize));
            };
            self.advance();
            match self.expect(TokenTag::RBracket) {
                Ok(()) => {},
                Err(e) => {
                    return Err(e);
                },
            }
            Ok(DataType::Array(Box::new(base), size))
        } else {
            Ok(base)
        }
    }

    /// Parses a primary expression.
    #[verifier::rlimit(60)]
    pub fn parse_primary(&mut self) -> (r: Result<Expr, ParseError>)
        requires
            old(self).wf(),
        ensures
            final(self).wf(),
            final(self).tokens() == old(self).tokens(),
            yields_expr(
                r,
                old(self).position(),
                final(self).position(),
                parse_primary(old(self).tokens(), old(self).position()),
            ),
        decreases remaining(old(self).tokens(), old(self).position()), 0nat,
    {
        proof {
            reveal_with_fuel(parse_primary, 1);
            reveal_with_fuel(parse_binary, 1);
            reveal_with_fuel(parse_args, 1);
        }
        if self.pos >= self.tokens.len() {
            return Err(self.fail(ParseErrorKind::UnexpectedTokenInExpression));
        }
        let ghost ts = self.tokens();
        let ghost start = self.pos as int;
        match &self.tokens[self.pos].kind {
            TokenKind::IntLit(n) => {
                let e = Expr::IntLit(*n);
                self.advance();
                Ok(e)
            },
            TokenKind::FloatLit(t) => {
                let e = Expr::FloatLit(t.clone());
                self.advance();
                Ok(e)
            },
            TokenKind::BoolLit(b) => {
                let e = Expr::BoolLit(*b);
                self.advance();
                Ok(e)
            },
            TokenKind::StringLit(t) => {
                let e = Expr::StringLit(t.clone());
                self.advance();
                Ok(e)
            },
            TokenKind::Reduce => {
                self.advance();
                match self.expect(TokenTag::LParen) {
                    Ok(()) => {},
                    Err(e) => {
                        return Err(e);
                    },
                }
                let op = match self.reduce_op_here() {
                    Some(op) => op,
                    None => {
                        return Err(self.fail(ParseErrorKind::ExpectedReduceOperation));
                    },
                };
                self.advance();
                match self.expect(TokenTag::Comma) {
                    Ok(()) => {},
                    Err(e) => {
                        return Err(e);
                    },
                }
                let array = match self.parse_binary(0) {
                    Ok(e) => e,
                    Err(e) => {
                        return Err(e);
                    },
                };
                match self.expect(TokenTag::RParen) {
                    Ok(()) => {},
                    Err(e) => {
                        return Err(e);
                    },
                }
                Ok(Expr::Reduce(op, Box::new(array)))
            },
            TokenKind::Ident(s) => {
                let name = s.clone();
                self.advance();
                if self.peek_tag() == TokenTag::LParen {
                    self.advance();
                    let args = match self.parse_args() {
                        Ok(a) => a,
                        Err(e) => {
                            return Err(e);
                        },
                    };
                    match self.expect(TokenTag::RParen) {
                        Ok(()) => {},
                        Err(e) => {
                            return Err(e);
                        },
                    }
                    proof {
                        crate::ast::lemma_call_view(name, args);
                    }
                    Ok(Expr::Call(name, args))
                } else if self.peek_tag() == TokenTag::LBracket {
                    self.advance();
                    let index = match self.parse_binary(0) {
                        Ok(e) => e,
                        Err(e) => {
                            return Err(e);
                        },
                    };
                    match self.expect(TokenTag::RBracket) {
                        Ok(()) => {},
                        Err(e) => {
                            return Err(e);
                        },
                    }
                    let target = Expr::Ident(name);
                    assert(expr_view(target) == ExprView::Ident(name@));
                    Ok(Expr::Index(Box::new(target), Box::new(index)))
                } else {
                    Ok(Expr::Ident(name))
                }
            },
            TokenKind::LParen => {
                self.advance();
                let inner = match self.parse_binary(0) {
                    Ok(e) => e,
                    Err(e) => {
                        return Err(e);
                    },
                };
                match self.expect(TokenTag::RParen) {
                    Ok(()) => {},
                    Err(e) => {
                        return Err(e);
                    },
                }
                Ok(inner)
            },
            _ => Err(self.fail(ParseErrorKind::UnexpectedTokenInExpression)),
        }
    }

    /// The reduction that the token at the position names.
    fn reduce_op_here(&self) -> (r: Option<ReduceOp>)
        requires
            self.wf(),
        ensures
            r == reduce_op_of(peek(self.tokens(), self.position())),
            r is Some ==> self.position() < self.tokens().len(),
    {
        if self.pos < self.tokens.len() {
            match &self.tokens[self.pos].kind {
                TokenKind::Plus => Some(ReduceOp::Sum),
                TokenKind::Star => Some(ReduceOp::Prod),
                TokenKind::Ident(s) => {
                    if is_text(s, "max") {
                        Some(ReduceOp::Max)
                    } else if is_text(s, "min") {
                        Some(ReduceOp::Min)
                    } else {
                        None
                    }
                },
                _ => None,
            }
        } else {
            None
        }
    }

    /// Parses a unary expression.
    pub fn parse_unary(&mut self) -> (r: Result<Expr, ParseError>)
        requires
            old(self).wf(),
        ensures
            final(self).wf(),
            final(self).tokens() == old(self).tokens(),
            yields_expr(
                r,
                old(self).position(),
                final(self).position(),
                parse_unary(old(self).tokens(), old(self).position()),
            ),
        decreases remaining(old(self).tokens(), old(self).position()), 1nat,
    {
        proof {
            reveal_with_fuel(parse_unary, 1);
            reveal_with_fuel(parse_primary, 1);
        }
        match self.peek_tag() {
            TokenTag::Minus => {
                self.advance();
                match self.parse_unary() {
                    Ok(inner) => Ok(Expr::UnaryOp(UnaryOp::Neg, Box::new(inner))),
                    Err(e) => Err(e),
                }
            },
            TokenTag::Not => {
                self.advance();
                match self.parse_unary() {
                    Ok(inner) => Ok(Expr::UnaryOp(UnaryOp::Not, Box::new(inner))),
                    Err(e) => Err(e),
                }
            },
            _ => self.parse_primary(),
        }
    }

    /// The operator that the token at the position is on a level.
    fn binary_op_here(&self, level: u8) -> (r: Option<BinOp>)
        requires
            self.wf(),
        ensures
            r == binary_op(level as nat, peek(self.tokens(), self.position())),
            r is Some ==> self.position() < self.tokens().len(),
    {
        let tag = self.peek_tag();
        match level {
            0 => match tag {
                TokenTag::Or => Some(BinOp::Or),
                _ => None,
            },
            1 => match tag {
                TokenTag::And => Some(BinOp::And),
                _ => None,
            },
            2 => match tag {
                TokenTag::EqEq => Some(BinOp::Eq),
                TokenTag::NotEq => Some(BinOp::NotEq),
                _ => None,
            },
            3 => match tag {
                TokenTag::Lt => Some(BinOp::Lt),
                TokenTag::Gt => Some(BinOp::Gt),
                TokenTag::LtEq => Some(BinOp::LtEq),
                TokenTag::GtEq => Some(BinOp::GtEq),
                _ => None,
            },
            4 => match tag {
                TokenTag::Plus => Some(BinOp::Add),
                TokenTag::Minus => Some(BinOp::Sub),
                _ => None,
            },
            5 => match tag {
                TokenTag::Star => Some(BinOp::Mul),
                TokenTag::Slash => Some(BinOp::Div),
                TokenTag::Percent => Some(BinOp::Mod),
                _ => None,
            },
            _ => None,
        }
    }

    /// Parses an expression of a level of the grammar: 0 is the loosest
    /// (`||`), 5 the tightest (`* / %`).
    pub fn parse_binary(&mut self, level: u8) -> (r: Result<Expr, ParseError>)
        requires
            old(self).wf(),
        ensures
            final(self).wf(),
            final(self).tokens() == old(self).tokens(),
            yields_expr(
                r,
                old(self).position(),
                final(self).position(),
                parse_binary(old(self).tokens(), old(self).position(), level as nat),
            ),
        decreases remaining(old(self).tokens(), old(self).position()), 2 * depth(level as nat) + 3,
    {
        proof {
            reveal_with_fuel(parse_binary, 1);
            reveal_with_fuel(parse_unary, 1);
            reveal_with_fuel(parse_binary_rest, 1);
        }
        let ghost ts = self.tokens();
        let ghost start = self.pos as int;
        let ghost target = parse_binary(ts, start, level as nat);
        let first = if level >= 5 {
            self.parse_unary()
        } else {
            self.parse_binary(level + 1)
        };
        let mut left = match first {
            Ok(e) => e,
            Err(e) => {
                return Err(e);
            },
        };
        loop
            invariant
                self.wf(),
                self.tokens() == ts,
                ts == old(self).tokens(),
                start == old(self).position(),
                start < self.pos,
                target == parse_binary(ts, start, level as nat),
                match parse_binary_rest(ts, self.pos as int, level as nat, left@) {
                    Ok((whole, m)) => target == Ok::<(ExprView, nat), ParseError>(
                        (whole, (self.pos - start + m) as nat),
                    ),
                    Err(e) => target == Err::<(ExprView, nat), ParseError>(e),
                },
            decreases remaining(ts, self.pos as int),
        {
            proof {
                reveal_with_fuel(parse_binary_rest, 1);
                reveal_with_fuel(parse_binary, 1);
                reveal_with_fuel(parse_unary, 1);
            }
            let op = match self.binary_op_here(level) {
                Some(op) => op,
                None => {
                    return Ok(left);
                },
            };
            self.advance();
            let operand = if level >= 5 {
                self.parse_unary()
            } else {
                self.parse_binary(level + 1)
            };
            let right = match operand {
                Ok(e) => e,
                Err(e) => {
                    return Err(e);
                },
            };
            left = Expr::BinOp(Box::new(left), op, Box::new(right));
        }
    }

    /// Parses an expression.
    pub fn parse_expr(&mut self) -> (r: Result<Expr, ParseError>)
        requires
            old(self).wf(),
        ensures
            final(self).wf(),
            final(self).tokens() == old(self).tokens(),
            yields_expr(
                r,
                old(self).position(),
                final(self).position(),
                parse_expr(old(self).tokens(), old(self).position()),
            ),
    {
        self.parse_binary(0)
    }

    /// Parses the arguments of a call, up to its closing parenthesis.
    pub fn parse_args(&mut self) -> (r: Result<Vec<Expr>, ParseError>)
        requires
            old(self).wf(),
        ensures
            final(self).wf(),
            final(self).tokens() == old(self).tokens(),
            yields_exprs(
                r,
                old(self).position(),
                final(self).position(),
                parse_args(old(self).tokens(), old(self).position()),
            ),
        decreases remaining(old(self).tokens(), old(self).position()), 16nat,
    {
        proof {
            reveal_with_fuel(parse_args, 1);
            reveal_with_fuel(parse_binary, 1);
        }
        let ghost ts = self.tokens();
        let ghost start = self.pos as int;
        let ghost target = parse_args(ts, start);
        let mut args: Vec<Expr> = Vec::new();
        assert(exprs_view(args@) =~= Seq::<ExprView>::empty());
        loop
            invariant
                self.wf(),
                self.tokens() == ts,
                ts == old(self).tokens(),
                start == old(self).position(),
                start <= self.pos,
                target == parse_args(ts, start),
                match parse_args(ts, self.pos as int) {
                    Ok((rest, m)) => target == Ok::<(Seq<ExprView>, nat), ParseError>(
                        (exprs_view(args@) + rest, (self.pos - start + m) as nat),
                    ),
                    Err(e) => target == Err::<(Seq<ExprView>, nat), ParseError>(e),
                },
            decreases remaining(ts, self.pos as int),
        {
            proof {
                reveal_with_fuel(parse_args, 1);
                reveal_with_fuel(parse_binary, 1);
            }
            if self.peek_tag() == TokenTag::RParen {
                assert(exprs_view(args@) + Seq::<ExprView>::empty() =~= exprs_view(args@));
                return Ok(args);
            }
            let ghost before = exprs_view(args@);
            let ghost at = self.pos as int;
            let arg = match self.parse_binary(0) {
                Ok(e) => e,
                Err(e) => {
                    return Err(e);
                },
            };
            let ghost arg_view = arg@;
            args.push(arg);
            assert(exprs_view(args@) =~= before.push(arg_view));
            if self.peek_tag() == TokenTag::Comma {
                self.advance();
            }
            proof {
                assert(at < ts.len());
                match parse_args(ts, self.pos as int) {
                    Ok((rest, m)) => {
                        assert(before + (seq![arg_view] + rest) =~= before.push(arg_view) + rest);
                    },
                    Err(e) => {},
                }
            }
        }
    }

    /// Parses a data declaration.
    pub fn parse_data_decl(&mut self) -> (r: Result<Stmt, ParseError>)
        requires
            old(self).wf(),
        ensures
            final(self).wf(),
            final(self).tokens() == old(self).tokens(),
            yields_stmt(
                r,
                old(self).position(),
                final(self).position(),
                parse_data_decl(old(self).tokens(), old(self).position()),
            ),
    {
        proof {
            reveal(parse_data_decl);
        }
        match self.expect(TokenTag::Data) {
            Ok(()) => {},
            Err(e) => {
                return Err(e);
            },
        }
        let name = match self.ident_here() {
            Some(s) => s,
            None => {
                return Err(self.fail(ParseErrorKind::ExpectedVariableName));
            },
        };
        self.advance();
        match self.expect(TokenTag::Colon) {
            Ok(()) => {},
            Err(e) => {
                return Err(e);
            },
        }
        let dtype = match self.parse_type() {
            Ok(t) => t,
            Err(e) => {
                return Err(e);
            },
        };
        Ok(Stmt::DataDecl { name, dtype })
    }

    /// Parses a braced block.
    pub fn parse_braced(&mut self) -> (r: Result<Vec<Stmt>, ParseError>)
        requires
            old(self).wf(),
        ensures
            final(self).wf(),
            final(self).tokens() == old(self).tokens(),
            yields_stmts(
                r,
                old(self).position(),
                final(self).position(),
                parse_braced(old(self).tokens(), old(self).position()),
            ),
            r is Ok ==> final(self).position() > old(self).position(),
        decreases remaining(old(self).tokens(), old(self).position()), 10nat,
    {
        proof {
            reveal_with_fuel(parse_braced, 1);
            reveal_with_fuel(parse_block, 1);
        }
        match self.expect(TokenTag::LBrace) {
            Ok(()) => {},
            Err(e) => {
                return Err(e);
            },
        }
        let body = match self.parse_block() {
            Ok(b) => b,
            Err(e) => {
                return Err(e);
            },
        };
        match self.expect(TokenTag::RBrace) {
            Ok(()) => {},
            Err(e) => {
                return Err(e);
            },
        }
        Ok(body)
    }

    /// Parses a tagged block, of which the target keyword stands at the
    /// position: whatever token stands there is taken for the keyword. Past
    /// the end of the tokens there is none to take.
    pub fn parse_exec_block(&mut self, target: ExecTarget) -> (r: Result<Stmt, ParseError>)
        requires
            old(self).wf(),
        ensures
            final(self).wf(),
            final(self).tokens() == old(self).tokens(),
            yields_stmt(
                r,
                old(self).position(),
                final(self).position(),
                parse_exec_block(old(self).tokens(), old(self).position(), target),
            ),
        decreases remaining(old(self).tokens(), old(self).position()), 20nat,
    {
        proof {
            reveal_with_fuel(parse_exec_block, 1);
            reveal_with_fuel(parse_braced, 1);
        }
        if self.pos >= self.tokens.len() {
            return Err(self.fail(ParseErrorKind::UnexpectedToken));
        }
        self.advance();
        let body = match self.parse_braced() {
            Ok(b) => b,
            Err(e) => {
                return Err(e);
            },
        };
        let s = Stmt::ExecBlock { target, body };
        proof {
            crate::ast::lemma_stmt_view_bodies(s);
        }
        Ok(s)
    }

    /// Parses a conditional.
    pub fn parse_if(&mut self) -> (r: Result<Stmt, ParseError>)
        requires
            old(self).wf(),
        ensures
            final(self).wf(),
            final(self).tokens() == old(self).tokens(),
            yields_stmt(
                r,
                old(self).position(),
                final(self).position(),
                parse_if(old(self).tokens(), old(self).position()),
            ),
        decreases remaining(old(self).tokens(), old(self).position()), 20nat,
    {
        proof {
            reveal_with_fuel(parse_if, 1);
            reveal_with_fuel(parse_braced, 1);
        }
        match self.expect(TokenTag::If) {
            Ok(()) => {},
            Err(e) => {
                return Err(e);
            },
        }
        let cond = match self.parse_expr() {
            Ok(c) => c,
            Err(e) => {
                return Err(e);
            },
        };
        let then_body = match self.parse_braced() {
            Ok(b) => b,
            Err(e) => {
                return Err(e);
            },
        };
        let else_body = if self.peek_tag() == TokenTag::Else {
            self.advance();
            match self.parse_braced() {
                Ok(b) => Some(b),
                Err(e) => {
                    return Err(e);
                },
            }
        } else {
            None
        };
        let s = Stmt::If { cond, then_body, else_body };
        proof {
            crate::ast::lemma_stmt_view_bodies(s);
        }
        Ok(s)
    }

    /// Parses a loop.
    pub fn parse_for(&mut self) -> (r: Result<Stmt, ParseError>)
        requires
            old(self).wf(),
        ensures
            final(self).wf(),
            final(self).tokens() == old(self).tokens(),
            yields_stmt(
                r,
                old(self).position(),
                final(self).position(),
                parse_for(old(self).tokens(), old(self).position()),
            ),
        decreases remaining(old(self).tokens(), old(self).position()), 20nat,
    {
        proof {
            reveal_with_fuel(parse_for, 1);
            reveal_with_fuel(parse_braced, 1);
        }
        match self.expect(TokenTag::For) {
            Ok(()) => {},
            Err(e) => {
                return Err(e);
            },
        }
        let var = match self.ident_here() {
            Some(s) => s,
            None => {
                return Err(self.fail(ParseErrorKind::ExpectedLoopVariable));
            },
        };
        self.advance();
        match self.expect(TokenTag::Eq) {
            Ok(()) => {},
            Err(e) => {
                return Err(e);
            },
        }
        let start = match self.parse_expr() {
            Ok(e) => e,
            Err(e) => {
                return Err(e);
            },
        };
        match self.expect(TokenTag::Colon) {
            Ok(()) => {},
            Err(e) => {
                return Err(e);
            },
        }
        let end = match self.parse_expr() {
            Ok(e) => e,
            Err(e) => {
                return Err(e);
            },
        };
        let body = match self.parse_braced() {
            Ok(b) => b,
            Err(e) => {
                return Err(e);
            },
        };
        let s = Stmt::For { var, start, end, body };
        proof {
            crate::ast::lemma_stmt_view_bodies(s);
        }
        Ok(s)
    }

    /// Parses a return.
    pub fn parse_return(&mut self) -> (r: Result<Stmt, ParseError>)
        requires
            old(self).wf(),
        ensures
            final(self).wf(),
            final(self).tokens() == old(self).tokens(),
            yields_stmt(
                r,
                old(self).position(),
                final(self).position(),
                parse_return(old(self).tokens(), old(self).position()),
            ),
    {
        proof {
            reveal(parse_return);
        }
        let at = self.pos;
        match self.expect(TokenTag::Return) {
            Ok(()) => {},
            Err(e) => {
                return Err(e);
            },
        }
        let after = if at + 1 < self.tokens.len() {
            self.tokens[at + 1].kind.tag()
        } else {
            TokenTag::Eof
        };
        if after == TokenTag::Newline || after == TokenTag::RBrace || after == TokenTag::Eof {
            Ok(Stmt::Return(None))
        } else {
            match self.parse_expr() {
                Ok(value) => Ok(Stmt::Return(Some(value))),
                Err(e) => Err(e),
            }
        }
    }

    /// Parses a statement that starts with a name.
    pub fn parse_assign_or_expr(&mut self) -> (r: Result<Stmt, ParseError>)
        requires
            old(self).wf(),
        ensures
            final(self).wf(),
            final(self).tokens() == old(self).tokens(),
            yields_stmt(
                r,
                old(self).position(),
                final(self).position(),
                parse_assign_or_expr(old(self).tokens(), old(self).position()),
            ),
    {
        proof {
            reveal(parse_assign_or_expr);
        }
        let name = match self.ident_here() {
            Some(s) => s,
            None => {
                return Err(self.fail(ParseErrorKind::ExpectedIdentifier));
            },
        };
        self.advance();
        let index = if self.peek_tag() == TokenTag::LBracket {
            self.advance();
            let idx = match self.parse_expr() {
                Ok(e) => e,
                Err(e) => {
                    return Err(e);
                },
            };
            match self.expect(TokenTag::RBracket) {
                Ok(()) => {},
                Err(e) => {
                    return Err(e);
                },
            }
            Some(idx)
        } else {
            None
        };
        if self.peek_tag() == TokenTag::Eq {
            self.advance();
            let value = match self.parse_expr() {
                Ok(e) => e,
                Err(e) => {
                    return Err(e);
                },
            };
            Ok(Stmt::Assign { target: name, index, value })
        } else if self.peek_tag() == TokenTag::LParen {
            self.advance();
            let args = match self.parse_args() {
                Ok(a) => a,
                Err(e) => {
                    return Err(e);
                },
            };
            match self.expect(TokenTag::RParen) {
                Ok(()) => {},
                Err(e) => {
                    return Err(e);
                },
            }
            proof {
                crate::ast::lemma_call_view(name, args);
            }
            Ok(Stmt::ExprStmt(Expr::Call(name, args)))
        } else {
            let e = Expr::Ident(name);
            assert(expr_view(e) == ExprView::Ident(name@));
            Ok(Stmt::ExprStmt(e))
        }
    }

    /// Parses a statement.
    pub fn parse_statement(&mut self) -> (r: Result<Stmt, ParseError>)
        requires
            old(self).wf(),
        ensures
            final(self).wf(),
            final(self).tokens() == old(self).tokens(),
            yields_stmt(
                r,
                old(self).position(),
                final(self).position(),
                parse_statement(old(self).tokens(), old(self).position()),
            ),
        decreases remaining(old(self).tokens(), old(self).position()), 30nat,
    {
        proof {
            reveal_with_fuel(parse_statement, 1);
            reveal_with_fuel(parse_exec_block, 1);
            reveal_with_fuel(parse_if, 1);
            reveal_with_fuel(parse_for, 1);
        }
        self.skip_newlines();
        match self.peek_tag() {
            TokenTag::Data => self.parse_data_decl(),
            TokenTag::Parallel => self.parse_exec_block(ExecTarget::Parallel),
            TokenTag::Sequential => self.parse_exec_block(ExecTarget::Sequential),
            TokenTag::Gpu => self.parse_exec_block(ExecTarget::Gpu),
            TokenTag::Asm => self.parse_exec_block(ExecTarget::Asm),
            TokenTag::If => self.parse_if(),
            TokenTag::For => self.parse_for(),
            TokenTag::Return => self.parse_return(),
            TokenTag::Ident => self.parse_assign_or_expr(),
            _ => Err(self.fail(ParseErrorKind::UnexpectedToken)),
        }
    }

    /// Parses the statements of a block, up to its closing brace or the end.
    pub fn parse_block(&mut self) -> (r: Result<Vec<Stmt>, ParseError>)
        requires
            old(self).wf(),
        ensures
            final(self).wf(),
            final(self).tokens() == old(self).tokens(),
            yields_stmts(
                r,
                old(self).position(),
                final(self).position(),
                parse_block(old(self).tokens(), old(self).position()),
            ),
        decreases remaining(old(self).tokens(), old(self).position()), 31nat,
    {
        proof {
            reveal_with_fuel(parse_block, 1);
            reveal_with_fuel(parse_statement, 1);
        }
        let ghost ts = self.tokens();
        let ghost start = self.pos as int;
        let ghost target = parse_block(ts, start);
        let mut stmts: Vec<Stmt> = Vec::new();
        assert(stmts_view(stmts@) =~= Seq::<StmtView>::empty());
        loop
            invariant
                self.wf(),
                self.tokens() == ts,
                ts == old(self).tokens(),
                start == old(self).position(),
                start <= self.pos,
                target == parse_block(ts, start),
                match parse_block(ts, self.pos as int) {
                    Ok((rest, m)) => target == Ok::<(Seq<StmtView>, nat), ParseError>(
                        (stmts_view(stmts@) + rest, (self.pos - start + m) as nat),
                    ),
                    Err(e) => target == Err::<(Seq<StmtView>, nat), ParseError>(e),
                },
            decreases remaining(ts, self.pos as int),
        {
            proof {
                reveal_with_fuel(parse_block, 1);
            reveal_with_fuel(parse_statement, 1);
            }
            let ghost at = self.pos as int;
            self.skip_newlines();
            let tag = self.peek_tag();
            if tag == TokenTag::RBrace || tag == TokenTag::Eof {
                assert(stmts_view(stmts@) + Seq::<StmtView>::empty() =~= stmts_view(stmts@));
                return Ok(stmts);
            }
            let ghost before = stmts_view(stmts@);
            let s = match self.parse_statement() {
                Ok(s) => s,
                Err(e) => {
                    return Err(e);
                },
            };
            let ghost s_view = s@;
            stmts.push(s);
            assert(stmts_view(stmts@) =~= before.push(s_view));
            proof {
                match parse_block(ts, self.pos as int) {
                    Ok((rest, m)) => {
                        assert(before + (seq![s_view] + rest) =~= before.push(s_view) + rest);
                    },
                    Err(e) => {},
                }
            }
        }
    }

    /// Parses the parameters of a function, up to the closing parenthesis.
    pub fn parse_params(&mut self) -> (r: Result<Vec<Param>, ParseError>)
        requires
            old(self).wf(),
        ensures
            final(self).wf(),
            final(self).tokens() == old(self).tokens(),
            match parse_params(old(self).tokens(), old(self).position()) {
                Ok((v, n)) => r is Ok && params_view(r->Ok_0@) == v && final(self).position()
                    == old(self).position() + n,
                Err(e) => r == Err::<Vec<Param>, ParseError>(e),
            },
    {
        let ghost ts = self.tokens();
        let ghost start = self.pos as int;
        let ghost target = parse_params(ts, start);
        let mut params: Vec<Param> = Vec::new();
        assert(params_view(params@) =~= Seq::<ParamView>::empty());
        loop
            invariant
                self.wf(),
                self.tokens() == ts,
                ts == old(self).tokens(),
                start == old(self).position(),
                start <= self.pos,
                target == parse_params(ts, start),
                match parse_params(ts, self.pos as int) {
                    Ok((rest, m)) => target == Ok::<(Seq<ParamView>, nat), ParseError>(
                        (params_view(params@) + rest, (self.pos - start + m) as nat),
                    ),
                    Err(e) => target == Err::<(Seq<ParamView>, nat), ParseError>(e),
                },
            decreases remaining(ts, self.pos as int),
        {
            proof {
                reveal_with_fuel(parse_params, 1);
            }
            if self.peek_tag() == TokenTag::RParen {
                assert(params_view(params@) + Seq::<ParamView>::empty() =~= params_view(params@));
                return Ok(params);
            }
            let ghost before = params_view(params@);
            let name = match self.ident_here() {
                Some(s) => s,
                None => {
                    return Err(self.fail(ParseErrorKind::ExpectedParameterName));
                },
            };
            self.advance();
            match self.expect(TokenTag::Colon) {
                Ok(()) => {},
                Err(e) => {
                    return Err(e);
                },
            }
            let dtype = match self.parse_type() {
                Ok(t) => t,
                Err(e) => {
                    return Err(e);
                },
            };
            let param = Param { name, dtype };
            let ghost param_view = param@;
            params.push(param);
            assert(params_view(params@) =~= before.push(param_view));
            if self.peek_tag() == TokenTag::Comma {
                self.advance();
            }
            proof {
                match parse_params(ts, self.pos as int) {
                    Ok((rest, m)) => {
                        assert(before + (seq![param_view] + rest) =~= before.push(param_view)
                            + rest);
                    },
                    Err(e) => {},
                }
            }
        }
    }

    /// Parses a function definition.
    pub fn parse_function(&mut self) -> (r: Result<FnDef, ParseError>)
        requires
            old(self).wf(),
        ensures
            final(self).wf(),
            final(self).tokens() == old(self).tokens(),
            match parse_function(old(self).tokens(), old(self).position()) {
                Ok((v, n)) => r is Ok && r->Ok_0@ == v && final(self).position() == old(
                    self,
                ).position() + n && n > 0,
                Err(e) => r == Err::<FnDef, ParseError>(e),
            },
    {
        proof {
            reveal(parse_function);
        }
        match self.expect(TokenTag::Fn) {
            Ok(()) => {},
            Err(e) => {
                return Err(e);
            },
        }
        let name = match self.ident_here() {
            Some(s) => s,
            None => {
                return Err(self.fail(ParseErrorKind::ExpectedFunctionName));
            },
        };
        self.advance();
        match self.expect(TokenTag::LParen) {
            Ok(()) => {},
            Err(e) => {
                return Err(e);
            },
        }
        let params = match self.parse_params() {
            Ok(p) => p,
            Err(e) => {
                return Err(e);
            },
        };
        match self.expect(TokenTag::RParen) {
            Ok(()) => {},
            Err(e) => {
                return Err(e);
            },
        }
        let ret_type = if self.peek_tag() == TokenTag::Arrow {
            self.advance();
            match self.parse_type() {
                Ok(t) => t,
                Err(e) => {
                    return Err(e);
                },
            }
        } else {
            DataType::Void
        };
        let body = match self.parse_braced() {
            Ok(b) => b,
            Err(e) => {
                return Err(e);
            },
        };
        Ok(FnDef { name, params, ret_type, body })
    }

    /// Parses a whole program from the position on: function definitions
    /// and statements, up to the end of the tokens.
    pub fn parse(&mut self) -> (r: Result<Program, ParseError>)
        requires
            old(self).wf(),
        ensures
            final(self).wf(),
            final(self).tokens() == old(self).tokens(),
            yields_program(r, parse_items(old(self).tokens(), old(self).position())),
    {
        let ghost ts = self.tokens();
        let ghost start = self.pos as int;
        let ghost target = parse_items(ts, start);
        let mut program = Program::new();
        loop
            invariant
                self.wf(),
                self.tokens() == ts,
                ts == old(self).tokens(),
                target == parse_items(ts, old(self).position()),
                match parse_items(ts, self.pos as int) {
                    Ok(rest) => target == Ok::<ProgramView, ParseError>(
                        ProgramView {
                            functions: program@.functions + rest.functions,
                            statements: program@.statements + rest.statements,
                        },
                    ),
                    Err(e) => target == Err::<ProgramView, ParseError>(e),
                },
            decreases remaining(ts, self.pos as int),
        {
            proof {
                reveal_with_fuel(parse_items, 1);
            }
            let ghost before = program@;
            let ghost at = self.pos as int;
            self.skip_newlines();
            let tag = self.peek_tag();
            if tag == TokenTag::Eof {
                assert(before.functions + Seq::<FnDefView>::empty() =~= before.functions);
                assert(before.statements + Seq::<StmtView>::empty() =~= before.statements);
                return Ok(program);
            }
            if tag == TokenTag::Fn {
                let func = match self.parse_function() {
                    Ok(f) => f,
                    Err(e) => {
                        return Err(e);
                    },
                };
                let ghost f_view = func@;
                program.functions.push(func);
                assert(program@.functions =~= before.functions.push(f_view));
                assert(program@.statements =~= before.statements);
                proof {
                    match parse_items(ts, self.pos as int) {
                        Ok(rest) => {
                            assert(before.functions + (seq![f_view] + rest.functions)
                                =~= before.functions.push(f_view) + rest.functions);
                        },
                        Err(e) => {},
                    }
                }
            } else {
                let stmt = match self.parse_statement() {
                    Ok(s) => s,
                    Err(e) => {
                        return Err(e);
                    },
                };
                let ghost s_view = stmt@;
                program.statements.push(stmt);
                assert(program@.statements =~= before.statements.push(s_view));
                assert(program@.functions =~= before.functions);
                proof {
                    match parse_items(ts, self.pos as int) {
                        Ok(rest) => {
                            assert(before.statements + (seq![s_view] + rest.statements)
                                =~= before.statements.push(s_view) + rest.statements);
                        },
                        Err(e) => {},
                    }
                }
            }
        }
    }
}

} // verus!
