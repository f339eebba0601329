//! Positions in a token sequence.

use vstd::prelude::*;
use crate::token::{TokenKindView, TokenView};

verus! {

/// The token at a position; past the end, `Eof` at 0, 0.
pub open spec fn current(ts: Seq<TokenView>, pos: int) -> TokenView {
    if 0 <= pos < ts.len() {
        ts[pos]
    } else {
        TokenView { kind: TokenKindView::Eof, line: 0, col: 0 }
    }
}

/// The kind of the token at a position.
pub open spec fn peek(ts: Seq<TokenView>, pos: int) -> TokenKindView {
    current(ts, pos).kind
}

/// The number of tokens from a position on.
pub open spec fn remaining(ts: Seq<TokenView>, pos: int) -> nat {
    if pos < ts.len() {
        (ts.len() - pos) as nat
    } else {
        0
    }
}

/// The first position from `pos` on that holds no line break.
pub open spec fn skip_newlines(ts: Seq<TokenView>, pos: int) -> int
    decreases remaining(ts, pos),
{
    if 0 <= pos < ts.len() && ts[pos].kind is Newline {
        skip_newlines(ts, pos + 1)
    } else {
        pos
    }
}

/// The position after the token at `pos` and the line breaks that follow it.
pub open spec fn next(ts: Seq<TokenView>, pos: int) -> int {
    skip_newlines(ts, pos + 1)
}

/// The number of tokens between two positions.
pub open spec fn used(from: int, to: int) -> nat {
    if to >= from {
        (to - from) as nat
    } else {
        0
    }
}

/// Skipping line breaks never moves back, nor past the end.
pub broadcast proof fn lemma_skip_newlines(ts: Seq<TokenView>, pos: int)
    ensures
        pos <= #[trigger] skip_newlines(ts, pos),
        pos <= ts.len() ==> skip_newlines(ts, pos) <= ts.len(),
    decreases remaining(ts, pos),
{
    if 0 <= pos < ts.len() && ts[pos].kind is Newline {
        lemma_skip_newlines(ts, pos + 1);
    }
}

} // verus!
