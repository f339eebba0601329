//! The lexer: source text to tokens.
//!
//! The lexer never fails. Blanks and `//` comments separate tokens, a line
//! break is a token of its own, and a character that starts no token is
//! passed over.

use vstd::prelude::*;
use crate::text::{chars_are, to_chars};
use crate::token::{tokens_view, Token, TokenKind, TokenKindView, TokenView};

verus! {

/// What `char::is_alphabetic` returns: whether the character has the
/// Unicode property Alphabetic.
pub uninterp spec fn is_alphabetic(c: char) -> bool;

/// What `char::is_numeric` returns: whether the character is of one of
/// Unicode's number categories.
pub uninterp spec fn is_numeric(c: char) -> bool;

/// `char::is_alphabetic` decides the Unicode property Alphabetic.
pub assume_specification[ char::is_alphabetic ](c: char) -> (r: bool)
    ensures
        r == is_alphabetic(c),
;

/// `char::is_alphanumeric` holds of the characters of which
/// `char::is_alphabetic` or `char::is_numeric` holds.
pub assume_specification[ char::is_alphanumeric ](c: char) -> (r: bool)
    ensures
        r == (is_alphabetic(c) || is_numeric(c)),
;

/// A blank: space, tab or carriage return.
pub open spec fn is_blank(c: char) -> bool {
    c == ' ' || c == '\t' || c == '\r'
}

/// An ASCII decimal digit.
pub open spec fn is_digit(c: char) -> bool {
    '0' <= c <= '9'
}

/// A character that may start a word.
pub open spec fn starts_word(c: char) -> bool {
    is_alphabetic(c) || c == '_'
}

/// A character that may continue a word.
pub open spec fn continues_word(c: char) -> bool {
    is_alphabetic(c) || is_numeric(c) || c == '_'
}

/// What may start a word may continue one.
pub proof fn lemma_word_start_continues(c: char)
    requires
        starts_word(c),
    ensures
        continues_word(c),
{
}

/// The line of the character at `pos`: one more than the line breaks before
/// it.
pub open spec fn line_of(src: Seq<char>, pos: int) -> int
    decreases pos,
{
    if pos <= 0 {
        1
    } else if src[pos - 1] == '\n' {
        line_of(src, pos - 1) + 1
    } else {
        line_of(src, pos - 1)
    }
}

/// The column of the character at `pos`: one more than the characters
/// between it and the line break before it.
pub open spec fn col_of(src: Seq<char>, pos: int) -> int
    decreases pos,
{
    if pos <= 0 || src[pos - 1] == '\n' {
        1
    } else {
        col_of(src, pos - 1) + 1
    }
}

/// The first position from `pos` on that holds no blank.
pub open spec fn skip_blanks(src: Seq<char>, pos: int) -> int
    decreases src.len() - pos,
{
    if 0 <= pos < src.len() && is_blank(src[pos]) {
        skip_blanks(src, pos + 1)
    } else {
        pos
    }
}

/// The first position from `pos` on that holds a line break; the end of the
/// source if there is none.
pub open spec fn line_end(src: Seq<char>, pos: int) -> int
    decreases src.len() - pos,
{
    if 0 <= pos < src.len() && src[pos] != '\n' {
        line_end(src, pos + 1)
    } else {
        pos
    }
}

/// The first position from `pos` on that does not continue a word.
pub open spec fn word_end(src: Seq<char>, pos: int) -> int
    decreases src.len() - pos,
{
    if 0 <= pos < src.len() && continues_word(src[pos]) {
        word_end(src, pos + 1)
    } else {
        pos
    }
}

/// The first position from `pos` on that does not continue a number. Digits
/// continue it, and so does the first point; a second point ends it.
pub open spec fn number_end(src: Seq<char>, pos: int, seen_point: bool) -> int
    decreases src.len() - pos,
{
    if 0 <= pos < src.len() && is_digit(src[pos]) {
        number_end(src, pos + 1, seen_point)
    } else if 0 <= pos < src.len() && src[pos] == '.' && !seen_point {
        number_end(src, pos + 1, true)
    } else {
        pos
    }
}

/// Whether the number that starts before `pos` and continues from there
/// holds a point.
pub open spec fn number_has_point(src: Seq<char>, pos: int, seen_point: bool) -> bool
    decreases src.len() - pos,
{
    if 0 <= pos < src.len() && is_digit(src[pos]) {
        number_has_point(src, pos + 1, seen_point)
    } else if 0 <= pos < src.len() && src[pos] == '.' && !seen_point {
        true
    } else {
        seen_point
    }
}

/// The number that a sequence of digits denotes.
pub open spec fn digits_value(s: Seq<char>) -> nat
    decreases s.len(),
{
    if s.len() == 0 {
        0
    } else {
        digits_value(s.drop_last()) * 10 + ((s.last() as int - 48) as nat)
    }
}

/// The value of an integer literal: what its digits denote, or 0 if that is
/// more than a 64-bit signed integer holds.
pub open spec fn int_literal(s: Seq<char>) -> i64 {
    if digits_value(s) <= i64::MAX {
        digits_value(s) as i64
    } else {
        0
    }
}

/// The character that an escape `\c` inside a string stands for.
pub open spec fn unescaped(c: char) -> char {
    if c == 'n' {
        '\n'
    } else if c == 't' {
        '\t'
    } else {
        c
    }
}

/// The position after the string whose text starts at `pos`: after its
/// closing quote, or the end of the source if it has none.
pub open spec fn string_end(src: Seq<char>, pos: int) -> int
    decreases src.len() - pos,
{
    if pos < 0 || pos >= src.len() {
        pos
    } else if src[pos] == '"' {
        pos + 1
    } else if src[pos] == '\\' {
        if pos + 1 < src.len() {
            string_end(src, pos + 2)
        } else {
            pos + 1
        }
    } else {
        string_end(src, pos + 1)
    }
}

/// The text of the string that starts at `pos`, escapes resolved.
pub open spec fn string_text(src: Seq<char>, pos: int) -> Seq<char>
    decreases src.len() - pos,
{
    if pos < 0 || pos >= src.len() || src[pos] == '"' {
        Seq::empty()
    } else if src[pos] == '\\' {
        if pos + 1 < src.len() {
            seq![unescaped(src[pos + 1])] + string_text(src, pos + 2)
        } else {
            Seq::empty()
        }
    } else {
        seq![src[pos]] + string_text(src, pos + 1)
    }
}

/// The token that a word is: a keyword, a type, a truth value, or else an
/// identifier.
pub open spec fn word_kind(w: Seq<char>) -> TokenKindView {
    if w == "data"@ {
        TokenKindView::Data
    } else if w == "fn"@ {
        TokenKindView::Fn
    } else if w == "parallel"@ {
        TokenKindView::Parallel
    } else if w == "seq"@ {
        TokenKindView::Sequential
    } else if w == "gpu"@ {
        TokenKindView::Gpu
    } else if w == "asm"@ {
        TokenKindView::Asm
    } else if w == "reduce"@ {
        TokenKindView::Reduce
    } else if w == "if"@ {
        TokenKindView::If
    } else if w == "else"@ {
        TokenKindView::Else
    } else if w == "for"@ {
        TokenKindView::For
    } else if w == "return"@ {
        TokenKindView::Return
    } else if w == "i32"@ {
        TokenKindView::I32
    } else if w == "i64"@ {
        TokenKindView::I64
    } else if w == "f32"@ {
        TokenKindView::F32
    } else if w == "f64"@ {
        TokenKindView::F64
    } else if w == "bool"@ {
        TokenKindView::Bool
    } else if w == "true"@ {
        TokenKindView::BoolLit(true)
    } else if w == "false"@ {
        TokenKindView::BoolLit(false)
    } else {
        TokenKindView::Ident(w)
    }
}

/// The character after `pos`, if there is one.
pub open spec fn char_after(src: Seq<char>, pos: int) -> Option<char> {
    if 0 <= pos + 1 < src.len() {
        Some(src[pos + 1])
    } else {
        None
    }
}

/// What stands at a position: a token, or something to pass over, and where
/// it ends.
pub struct Scan {
    pub kind: Option<TokenKindView>,
    pub end: int,
}

/// A token of one character.
pub open spec fn one(pos: int, kind: TokenKindView) -> Scan {
    Scan { kind: Some(kind), end: pos + 1 }
}

/// A token of two characters.
pub open spec fn two(pos: int, kind: TokenKindView) -> Scan {
    Scan { kind: Some(kind), end: pos + 2 }
}

/// What stands at `pos`, a position inside the source that holds no blank.
pub open spec fn scan(src: Seq<char>, pos: int) -> Scan
    recommends
        0 <= pos < src.len(),
{
    let c = src[pos];
    let next = char_after(src, pos);
    if c == '\n' {
        one(pos, TokenKindView::Newline)
    } else if c == '/' && next == Some('/') {
        Scan { kind: None, end: line_end(src, pos + 1) }
    } else if c == '+' {
        one(pos, TokenKindView::Plus)
    } else if c == '-' && next == Some('>') {
        two(pos, TokenKindView::Arrow)
    } else if c == '-' {
        one(pos, TokenKindView::Minus)
    } else if c == '*' {
        one(pos, TokenKindView::Star)
    } else if c == '/' {
        one(pos, TokenKindView::Slash)
    } else if c == '%' {
        one(pos, TokenKindView::Percent)
    } else if c == '=' && next == Some('=') {
        two(pos, TokenKindView::EqEq)
    } else if c == '=' {
        one(pos, TokenKindView::Eq)
    } else if c == '!' && next == Some('=') {
        two(pos, TokenKindView::NotEq)
    } else if c == '!' {
        one(pos, TokenKindView::Not)
    } else if c == '<' && next == Some('=') {
        two(pos, TokenKindView::LtEq)
    } else if c == '<' {
        one(pos, TokenKindView::Lt)
    } else if c == '>' && next == Some('=') {
        two(pos, TokenKindView::GtEq)
    } else if c == '>' {
        one(pos, TokenKindView::Gt)
    } else if c == '&' && next == Some('&') {
        two(pos, TokenKindView::And)
    } else if c == '|' && next == Some('|') {
        two(pos, TokenKindView::Or)
    } else if c == '(' {
        one(pos, TokenKindView::LParen)
    } else if c == ')' {
        one(pos, TokenKindView::RParen)
    } else if c == '{' {
        one(pos, TokenKindView::LBrace)
    } else if c == '}' {
        one(pos, TokenKindView::RBrace)
    } else if c == '[' {
        one(pos, TokenKindView::LBracket)
    } else if c == ']' {
        one(pos, TokenKindView::RBracket)
    } else if c == ',' {
        one(pos, TokenKindView::Comma)
    } else if c == ':' {
        one(pos, TokenKindView::Colon)
    } else if c == ';' {
        one(pos, TokenKindView::Semi)
    } else if c == '"' {
        Scan {
            kind: Some(TokenKindView::StringLit(string_text(src, pos + 1))),
            end: string_end(src, pos + 1),
        }
    } else if is_digit(c) {
        let end = number_end(src, pos + 1, false);
        let lexeme = src.subrange(pos, end);
        if number_has_point(src, pos + 1, false) {
            Scan { kind: Some(TokenKindView::FloatLit(lexeme)), end }
        } else {
            Scan { kind: Some(TokenKindView::IntLit(int_literal(lexeme))), end }
        }
    } else if starts_word(c) {
        let end = word_end(src, pos + 1);
        Scan { kind: Some(word_kind(src.subrange(pos, end))), end }
    } else {
        Scan { kind: None, end: pos + 1 }
    }
}

/// The scans from `pos` on never end before `pos`.
pub proof fn lemma_ends(src: Seq<char>, pos: int)
    requires
        0 <= pos,
    ensures
        pos <= skip_blanks(src, pos),
        pos <= line_end(src, pos),
        pos <= word_end(src, pos),
        pos <= number_end(src, pos, true),
        pos <= number_end(src, pos, false),
        pos <= string_end(src, pos),
        pos <= src.len() ==> skip_blanks(src, pos) <= src.len(),
        pos <= src.len() ==> line_end(src, pos) <= src.len(),
        pos <= src.len() ==> word_end(src, pos) <= src.len(),
        pos <= src.len() ==> number_end(src, pos, true) <= src.len(),
        pos <= src.len() ==> number_end(src, pos, false) <= src.len(),
        pos <= src.len() ==> string_end(src, pos) <= src.len(),
    decreases src.len() - pos,
{
    if pos < src.len() {
        lemma_ends(src, pos + 1);
        if pos + 1 < src.len() {
            lemma_ends(src, pos + 2);
        }
    }
}

/// A number that has a point keeps it.
pub proof fn lemma_point_stays(src: Seq<char>, pos: int)
    ensures
        number_has_point(src, pos, true),
    decreases src.len() - pos,
{
    if 0 <= pos < src.len() && is_digit(src[pos]) {
        lemma_point_stays(src, pos + 1);
    }
}

/// What stands at a position inside the source ends after that position and
/// within the source.
pub proof fn lemma_scan_advances(src: Seq<char>, pos: int)
    requires
        0 <= pos < src.len(),
    ensures
        pos < scan(src, pos).end <= src.len(),
{
    lemma_ends(src, pos + 1);
    let c = src[pos];
    let next = char_after(src, pos);
    if next is Some {
        assert(pos + 2 <= src.len());
    }
}

/// The place of a position as a line and a column.
pub open spec fn placed(src: Seq<char>, pos: int, kind: TokenKindView) -> TokenView {
    TokenView { kind, line: line_of(src, pos) as usize, col: col_of(src, pos) as usize }
}

/// The next token from `pos` on and the position after it. Blanks, comments
/// and characters that start no token are passed over; at the end of the
/// source stands `Eof`.
pub open spec fn next_token(src: Seq<char>, pos: int) -> (TokenView, int)
    decreases src.len() - pos,
{
    let start = skip_blanks(src, pos);
    if pos < 0 || start >= src.len() {
        (placed(src, start, TokenKindView::Eof), start)
    } else {
        proof {
            lemma_ends(src, pos);
            lemma_scan_advances(src, start);
        }
        let found = scan(src, start);
        match found.kind {
            Some(kind) => (placed(src, start, kind), found.end),
            None => next_token(src, found.end),
        }
    }
}

/// A token that is not `Eof` ends after the position it was looked for from.
pub proof fn lemma_next_token_advances(src: Seq<char>, pos: int)
    requires
        0 <= pos <= src.len(),
    ensures
        pos <= next_token(src, pos).1 <= src.len(),
        !(next_token(src, pos).0.kind is Eof) ==> pos < next_token(src, pos).1,
    decreases src.len() - pos,
{
    let start = skip_blanks(src, pos);
    lemma_ends(src, pos);
    if start < src.len() {
        lemma_scan_advances(src, start);
        let found = scan(src, start);
        if found.kind is None {
            lemma_next_token_advances(src, found.end);
        }
    }
}

/// The tokens from `pos` on, up to and including `Eof`.
pub open spec fn tokens_from(src: Seq<char>, pos: int) -> Seq<TokenView>
    decreases src.len() - pos,
{
    let (token, end) = next_token(src, pos);
    if token.kind is Eof || pos < 0 || pos > src.len() {
        seq![token]
    } else {
        proof {
            lemma_next_token_advances(src, pos);
        }
        seq![token] + tokens_from(src, end)
    }
}

/// The tokens of a source text.
pub open spec fn lex(src: Seq<char>) -> Seq<TokenView> {
    tokens_from(src, 0)
}

/// A token sequence ends with `Eof` and holds no other.
pub open spec fn ends_with_one_eof(tokens: Seq<TokenView>) -> bool {
    &&& tokens.len() > 0
    &&& tokens.last().kind is Eof
    &&& forall|i: int| 0 <= i < tokens.len() - 1 ==> !((#[trigger] tokens[i]).kind is Eof)
}

/// The tokens from any position on end with exactly one `Eof`.
pub proof fn lemma_one_eof(src: Seq<char>, pos: int)
    requires
        0 <= pos <= src.len(),
    ensures
        ends_with_one_eof(tokens_from(src, pos)),
    decreases src.len() - pos,
{
    let (token, end) = next_token(src, pos);
    if !(token.kind is Eof) {
        lemma_next_token_advances(src, pos);
        lemma_one_eof(src, end);
        let rest = tokens_from(src, end);
        let all = seq![token] + rest;
        assert(all.last() == rest.last());
        assert forall|i: int| 0 <= i < all.len() - 1 implies !((#[trigger] all[i]).kind is Eof) by {
            if i > 0 {
                assert(all[i] == rest[i - 1]);
            }
        }
    }
}

/// A text of digits around exactly one point, with a digit first.
pub open spec fn is_decimal(t: Seq<char>) -> bool {
    &&& t.len() >= 2
    &&& is_digit(t[0])
    &&& exists|k: int|
        0 < k < t.len() && #[trigger] t[k] == '.' && forall|j: int|
            0 <= j < t.len() && j != k ==> is_digit(#[trigger] t[j])
}

/// A token is well formed: its line and column are at least 1, an integer
/// literal is not negative, and a float literal is digits around exactly
/// one point.
pub open spec fn well_formed(token: TokenView) -> bool {
    &&& token.line >= 1
    &&& token.col >= 1
    &&& match token.kind {
        TokenKindView::IntLit(n) => n >= 0,
        TokenKindView::FloatLit(t) => is_decimal(t),
        _ => true,
    }
}

/// What continues a number is digits, with one point among them if the
/// number has none before and gets one.
pub proof fn lemma_number_shape(src: Seq<char>, pos: int, seen_point: bool)
    requires
        0 <= pos <= src.len(),
    ensures
        pos <= number_end(src, pos, seen_point) <= src.len(),
        seen_point || !number_has_point(src, pos, seen_point) ==> forall|j: int|
            pos <= j < number_end(src, pos, seen_point) ==> is_digit(#[trigger] src[j]),
        !seen_point && number_has_point(src, pos, seen_point) ==> exists|k: int|
            pos <= k < number_end(src, pos, seen_point) && #[trigger] src[k] == '.' && forall|
                j: int,
            |
                pos <= j < number_end(src, pos, seen_point) && j != k ==> is_digit(
                    #[trigger] src[j],
                ),
    decreases src.len() - pos,
{
    if pos < src.len() && is_digit(src[pos]) {
        lemma_number_shape(src, pos + 1, seen_point);
        if !seen_point && number_has_point(src, pos, seen_point) {
            let end = number_end(src, pos, seen_point);
            let k = choose|k: int|
                pos + 1 <= k < end && #[trigger] src[k] == '.' && forall|j: int|
                    pos + 1 <= j < end && j != k ==> is_digit(#[trigger] src[j]);
            assert(pos <= k < end && src[k] == '.');
            assert forall|j: int| pos <= j < end && j != k implies is_digit(
                #[trigger] src[j],
            ) by {}
        }
    } else if pos < src.len() && src[pos] == '.' && !seen_point {
        lemma_number_shape(src, pos + 1, true);
        lemma_point_stays(src, pos + 1);
        let end = number_end(src, pos, seen_point);
        assert(pos <= pos < end && src[pos] == '.');
        assert forall|j: int| pos <= j < end && j != pos implies is_digit(#[trigger] src[j]) by {}
    }
}

/// The next token from any position on is well placed.
pub proof fn lemma_next_token_well_formed(src: Seq<char>, pos: int)
    requires
        0 <= pos <= src.len() < usize::MAX,
    ensures
        well_formed(next_token(src, pos).0),
    decreases src.len() - pos,
{
    let start = skip_blanks(src, pos);
    lemma_ends(src, pos);
    lemma_place_bounds(src, start);
    if start < src.len() {
        lemma_scan_advances(src, start);
        let found = scan(src, start);
        if found.kind is None {
            lemma_next_token_well_formed(src, found.end);
        } else if is_digit(src[start]) && number_has_point(src, start + 1, false) {
            lemma_number_shape(src, start + 1, false);
            let end = number_end(src, start + 1, false);
            let lexeme = src.subrange(start, end);
            let k = choose|k: int|
                start + 1 <= k < end && #[trigger] src[k] == '.' && forall|j: int|
                    start + 1 <= j < end && j != k ==> is_digit(#[trigger] src[j]);
            assert(lexeme[k - start] == '.');
            assert forall|j: int| 0 <= j < lexeme.len() && j != k - start implies is_digit(
                #[trigger] lexeme[j],
            ) by {
                assert(lexeme[j] == src[start + j]);
            }
            assert(is_decimal(lexeme));
        }
    }
}

/// Every token of a source text is well placed.
pub proof fn lemma_tokens_well_formed(src: Seq<char>, pos: int, i: int)
    requires
        0 <= pos <= src.len() < usize::MAX,
        0 <= i < tokens_from(src, pos).len(),
    ensures
        well_formed(tokens_from(src, pos)[i]),
    decreases src.len() - pos,
{
    let (token, end) = next_token(src, pos);
    lemma_next_token_well_formed(src, pos);
    if !(token.kind is Eof) {
        lemma_next_token_advances(src, pos);
        if i > 0 {
            lemma_tokens_well_formed(src, end, i - 1);
            assert(tokens_from(src, pos)[i] == tokens_from(src, end)[i - 1]);
        }
    }
}

/// Lines and columns are at least 1 and at most one more than the position.
pub proof fn lemma_place_bounds(src: Seq<char>, pos: int)
    requires
        0 <= pos,
    ensures
        1 <= line_of(src, pos) <= pos + 1,
        1 <= col_of(src, pos) <= pos + 1,
    decreases pos,
{
    if pos > 0 {
        lemma_place_bounds(src, pos - 1);
    }
}

/// The lexer: a source text and a position in it.
pub struct Lexer {
    chars: Vec<char>,
    pos: usize,
    line: usize,
    col: usize,
}

impl Lexer {
    /// The source text.
    pub closed spec fn source(&self) -> Seq<char> {
        self.chars@
    }

    /// The position of the next character to read.
    pub closed spec fn position(&self) -> int {
        self.pos as int
    }

    /// The position lies in the source, and line and column are those of
    /// the position.
    pub closed spec fn wf(&self) -> bool {
        &&& self.pos <= self.chars.len()
        &&& self.chars.len() < usize::MAX
        &&& self.line == line_of(self.chars@, self.pos as int)
        &&& self.col == col_of(self.chars@, self.pos as int)
    }

    /// A lexer at the start of a source text.
    pub fn new(source: &str) -> (r: Self)
        requires
            source@.len() < usize::MAX,
        ensures
            r.wf(),
            r.source() == source@,
            r.position() == 0,
    {
        Self { chars: to_chars(source), pos: 0, line: 1, col: 1 }
    }

    /// Reads one character, if any is left.
    pub fn advance(&mut self) -> (r: Option<char>)
        requires
            old(self).wf(),
        ensures
            final(self).wf(),
            final(self).source() == old(self).source(),
            match r {
                Some(c) => old(self).position() < old(self).source().len() && c == old(
                    self,
                ).source()[old(self).position()] && final(self).position() == old(
                    self,
                ).position() + 1,
                None => old(self).position() == old(self).source().len() && final(self).position()
                    == old(self).position(),
            },
    {
        if self.pos < self.chars.len() {
            let c = self.chars[self.pos];
            proof {
                lemma_place_bounds(self.chars@, self.pos as int);
            }
            self.pos += 1;
            if c == '\n' {
                self.line += 1;
                self.col = 1;
            } else {
                self.col += 1;
            }
            Some(c)
        } else {
            None
        }
    }

    /// The next character, if any is left.
    pub fn peek(&self) -> (r: Option<char>)
        requires
            self.wf(),
        ensures
            r == if self.position() < self.source().len() {
                Some(self.source()[self.position()])
            } else {
                None
            },
    {
        if self.pos < self.chars.len() {
            Some(self.chars[self.pos])
        } else {
            None
        }
    }

    fn peek_is(&self, c: char) -> (r: bool)
        requires
            self.wf(),
        ensures
            r == (self.position() < self.source().len() && self.source()[self.position()] == c),
    {
        self.pos < self.chars.len() && self.chars[self.pos] == c
    }

    /// Passes over blanks.
    pub fn skip_whitespace(&mut self)
        requires
            old(self).wf(),
        ensures
            final(self).wf(),
            final(self).source() == old(self).source(),
            final(self).position() == skip_blanks(old(self).source(), old(self).position()),
    {
        while self.pos < self.chars.len() && (self.chars[self.pos] == ' ' || self.chars[self.pos]
            == '\t' || self.chars[self.pos] == '\r')
            invariant
                self.wf(),
                self.chars@ == old(self).chars@,
                skip_blanks(self.chars@, self.pos as int) == skip_blanks(
                    old(self).chars@,
                    old(self).pos as int,
                ),
            decreases self.chars.len() - self.pos,
        {
            self.advance();
        }
    }

    /// Passes over the rest of the line, up to its line break.
    pub fn skip_comment(&mut self)
        requires
            old(self).wf(),
        ensures
            final(self).wf(),
            final(self).source() == old(self).source(),
            final(self).position() == line_end(old(self).source(), old(self).position()),
    {
        while self.pos < self.chars.len() && self.chars[self.pos] != '\n'
            invariant
                self.wf(),
                self.chars@ == old(self).chars@,
                line_end(self.chars@, self.pos as int) == line_end(
                    old(self).chars@,
                    old(self).pos as int,
                ),
            decreases self.chars.len() - self.pos,
        {
            self.advance();
        }
    }

    /// The text between two positions.
    fn text_between(&self, from: usize, to: usize) -> (r: String)
        requires
            from <= to <= self.chars.len(),
        ensures
            r@ == self.chars@.subrange(from as int, to as int),
    {
        let mut s = String::new();
        let mut i: usize = from;
        while i < to
            invariant
                from <= i <= to <= self.chars.len(),
                s@ == self.chars@.subrange(from as int, i as int),
            decreases to - i,
        {
            s.push(self.chars[i]);
            i += 1;
            assert(s@ =~= self.chars@.subrange(from as int, i as int));
        }
        assert(s@ =~= self.chars@.subrange(from as int, to as int));
        s
    }

    /// Reads the rest of a word whose first character was just read.
    pub fn read_ident(&mut self, first: char) -> (r: String)
        requires
            old(self).wf(),
            old(self).position() > 0,
            old(self).source()[old(self).position() - 1] == first,
        ensures
            final(self).wf(),
            final(self).source() == old(self).source(),
            final(self).position() == word_end(old(self).source(), old(self).position()),
            r@ == old(self).source().subrange(old(self).position() - 1, final(self).position()),
    {
        let start: usize = self.pos - 1;
        while self.pos < self.chars.len() && (self.chars[self.pos].is_alphanumeric()
            || self.chars[self.pos] == '_')
            invariant
                self.wf(),
                self.chars@ == old(self).chars@,
                start < self.pos,
                word_end(self.chars@, self.pos as int) == word_end(
                    old(self).chars@,
                    old(self).pos as int,
                ),
            decreases self.chars.len() - self.pos,
        {
            self.advance();
        }
        self.text_between(start, self.pos)
    }

    /// The value of the integer literal between two positions.
    fn int_between(&self, from: usize, to: usize) -> (r: i64)
        requires
            from <= to <= self.chars.len(),
            forall|i: int| from <= i < to ==> is_digit(#[trigger] self.chars@[i]),
        ensures
            r == int_literal(self.chars@.subrange(from as int, to as int)),
    {
        let mut value: u64 = 0;
        let mut fits = true;
        let mut i: usize = from;
        assert(self.chars@.subrange(from as int, from as int) =~= Seq::<char>::empty());
        while i < to
            invariant
                from <= i <= to <= self.chars.len(),
                forall|j: int| from <= j < to ==> is_digit(#[trigger] self.chars@[j]),
                fits ==> value == digits_value(self.chars@.subrange(from as int, i as int)),
                fits ==> value <= i64::MAX,
                !fits ==> digits_value(self.chars@.subrange(from as int, i as int)) > i64::MAX,
            decreases to - i,
        {
            let c = self.chars[i];
            let d: u64 = (c as u32 - 48) as u64;
            proof {
                let longer = self.chars@.subrange(from as int, i + 1);
                assert(longer.drop_last() =~= self.chars@.subrange(from as int, i as int));
                assert(longer.last() == c);
            }
            if fits {
                if value > (0x7FFF_FFFF_FFFF_FFFFu64 - d) / 10 {
                    fits = false;
                } else {
                    value = value * 10 + d;
                }
            }
            i += 1;
        }
        if fits {
            value as i64
        } else {
            0
        }
    }

    /// Reads the rest of a number whose first digit was just read.
    pub fn read_number(&mut self, first: char) -> (r: TokenKind)
        requires
            old(self).wf(),
            old(self).position() > 0,
            old(self).source()[old(self).position() - 1] == first,
            is_digit(first),
        ensures
            final(self).wf(),
            final(self).source() == old(self).source(),
            final(self).position() == number_end(old(self).source(), old(self).position(), false),
            r@ == ({
                let lexeme = old(self).source().subrange(
                    old(self).position() - 1,
                    final(self).position(),
                );
                if number_has_point(old(self).source(), old(self).position(), false) {
                    TokenKindView::FloatLit(lexeme)
                } else {
                    TokenKindView::IntLit(int_literal(lexeme))
                }
            }),
    {
        let start: usize = self.pos - 1;
        let mut is_float = false;
        loop
            invariant
                self.wf(),
                self.chars@ == old(self).chars@,
                start < self.pos,
                start == old(self).pos - 1,
                number_end(self.chars@, self.pos as int, is_float) == number_end(
                    old(self).chars@,
                    old(self).pos as int,
                    false,
                ),
                number_has_point(self.chars@, self.pos as int, is_float) == number_has_point(
                    old(self).chars@,
                    old(self).pos as int,
                    false,
                ),
                !is_float ==> forall|j: int|
                    start <= j < self.pos ==> is_digit(#[trigger] self.chars@[j]),
            ensures
                self.pos as int == number_end(old(self).chars@, old(self).pos as int, false),
                is_float == number_has_point(old(self).chars@, old(self).pos as int, false),
            decreases self.chars.len() - self.pos,
        {
            if self.pos >= self.chars.len() {
                break ;
            }
            let c = self.chars[self.pos];
            if c >= '0' && c <= '9' {
                self.advance();
            } else if c == '.' && !is_float {
                is_float = true;
                self.advance();
                proof {
                    lemma_point_stays(self.chars@, self.pos as int);
                }
            } else {
                break ;
            }
        }
        if is_float {
            TokenKind::FloatLit(self.text_between(start, self.pos))
        } else {
            TokenKind::IntLit(self.int_between(start, self.pos))
        }
    }

    /// Reads a string whose opening quote was just read: up to its closing
    /// quote, or the end of the source.
    pub fn read_string(&mut self) -> (r: String)
        requires
            old(self).wf(),
        ensures
            final(self).wf(),
            final(self).source() == old(self).source(),
            final(self).position() == string_end(old(self).source(), old(self).position()),
            r@ == string_text(old(self).source(), old(self).position()),
    {
        let mut s = String::new();
        loop
            invariant_except_break
                string_end(self.chars@, self.pos as int) == string_end(
                    old(self).chars@,
                    old(self).pos as int,
                ),
                s@ + string_text(self.chars@, self.pos as int) == string_text(
                    old(self).chars@,
                    old(self).pos as int,
                ),
            invariant
                self.wf(),
                self.chars@ == old(self).chars@,
            ensures
                self.pos as int == string_end(old(self).chars@, old(self).pos as int),
                s@ == string_text(old(self).chars@, old(self).pos as int),
            decreases self.chars.len() - self.pos,
        {
            let ghost before = s@;
            let ghost at = self.pos as int;
            match self.advance() {
                None => {
                    assert(s@ + Seq::<char>::empty() =~= s@);
                    break ;
                },
                Some(c) => {
                    if c == '"' {
                        assert(s@ + Seq::<char>::empty() =~= s@);
                        break ;
                    }
                    if c == '\\' {
                        match self.advance() {
                            Some(escaped) => {
                                let plain = if escaped == 'n' {
                                    '\n'
                                } else if escaped == 't' {
                                    '\t'
                                } else {
                                    escaped
                                };
                                s.push(plain);
                                assert(before.push(plain) + string_text(self.chars@, at + 2)
                                    =~= before + (seq![plain] + string_text(self.chars@, at + 2)));
                            },
                            None => {
                                assert(s@ + Seq::<char>::empty() =~= s@);
                            },
                        }
                    } else {
                        s.push(c);
                        assert(before.push(c) + string_text(self.chars@, at + 1) =~= before + (
                        seq![c] + string_text(self.chars@, at + 1)));
                    }
                },
            }
        }
        s
    }

    /// The token that a word is.
    pub fn keyword_or_ident(&self, s: String) -> (r: TokenKind)
        ensures
            r@ == word_kind(s@),
    {
        let w = to_chars(s.as_str());
        if chars_are(&w, "data") {
            TokenKind::Data
        } else if chars_are(&w, "fn") {
            TokenKind::Fn
        } else if chars_are(&w, "parallel") {
            TokenKind::Parallel
        } else if chars_are(&w, "seq") {
            TokenKind::Sequential
        } else if chars_are(&w, "gpu") {
            TokenKind::Gpu
        } else if chars_are(&w, "asm") {
            TokenKind::Asm
        } else if chars_are(&w, "reduce") {
            TokenKind::Reduce
        } else if chars_are(&w, "if") {
            TokenKind::If
        } else if chars_are(&w, "else") {
            TokenKind::Else
        } else if chars_are(&w, "for") {
            TokenKind::For
        } else if chars_are(&w, "return") {
            TokenKind::Return
        } else if chars_are(&w, "i32") {
            TokenKind::I32
        } else if chars_are(&w, "i64") {
            TokenKind::I64
        } else if chars_are(&w, "f32") {
            TokenKind::F32
        } else if chars_are(&w, "f64") {
            TokenKind::F64
        } else if chars_are(&w, "bool") {
            TokenKind::Bool
        } else if chars_are(&w, "true") {
            TokenKind::BoolLit(true)
        } else if chars_are(&w, "false") {
            TokenKind::BoolLit(false)
        } else {
            TokenKind::Ident(s)
        }
    }

    /// Reads what stands at the position, which holds the character `c`
    /// that was just read: a token, or nothing where there is none.
    fn scan_after(&mut self, c: char) -> (r: Option<TokenKind>)
        requires
            old(self).wf(),
            old(self).position() > 0,
            old(self).source()[old(self).position() - 1] == c,
        ensures
            final(self).wf(),
            final(self).source() == old(self).source(),
            final(self).position() == scan(old(self).source(), old(self).position() - 1).end,
            match scan(old(self).source(), old(self).position() - 1).kind {
                Some(kind) => r is Some && r->0@ == kind,
                None => r is None,
            },
    {
        if c == '\n' {
            Some(TokenKind::Newline)
        } else if c == '/' && self.peek_is('/') {
            self.skip_comment();
            None
        } else if c == '+' {
            Some(TokenKind::Plus)
        } else if c == '-' && self.peek_is('>') {
            self.advance();
            Some(TokenKind::Arrow)
        } else if c == '-' {
            Some(TokenKind::Minus)
        } else if c == '*' {
            Some(TokenKind::Star)
        } else if c == '/' {
            Some(TokenKind::Slash)
        } else if c == '%' {
            Some(TokenKind::Percent)
        } else if c == '=' && self.peek_is('=') {
            self.advance();
            Some(TokenKind::EqEq)
        } else if c == '=' {
            Some(TokenKind::Eq)
        } else if c == '!' && self.peek_is('=') {
            self.advance();
            Some(TokenKind::NotEq)
        } else if c == '!' {
            Some(TokenKind::Not)
        } else if c == '<' && self.peek_is('=') {
            self.advance();
            Some(TokenKind::LtEq)
        } else if c == '<' {
            Some(TokenKind::Lt)
        } else if c == '>' && self.peek_is('=') {
            self.advance();
            Some(TokenKind::GtEq)
        } else if c == '>' {
            Some(TokenKind::Gt)
        } else if c == '&' && self.peek_is('&') {
            self.advance();
            Some(TokenKind::And)
        } else if c == '|' && self.peek_is('|') {
            self.advance();
            Some(TokenKind::Or)
        } else if c == '(' {
            Some(TokenKind::LParen)
        } else if c == ')' {
            Some(TokenKind::RParen)
        } else if c == '{' {
            Some(TokenKind::LBrace)
        } else if c == '}' {
            Some(TokenKind::RBrace)
        } else if c == '[' {
            Some(TokenKind::LBracket)
        } else if c == ']' {
            Some(TokenKind::RBracket)
        } else if c == ',' {
            Some(TokenKind::Comma)
        } else if c == ':' {
            Some(TokenKind::Colon)
        } else if c == ';' {
            Some(TokenKind::Semi)
        } else if c == '"' {
            Some(TokenKind::StringLit(self.read_string()))
        } else if c >= '0' && c <= '9' {
            Some(self.read_number(c))
        } else if c.is_alphabetic() || c == '_' {
            let s = self.read_ident(c);
            Some(self.keyword_or_ident(s))
        } else {
            None
        }
    }

    /// Reads the next token.
    pub fn next_token(&mut self) -> (r: Token)
        requires
            old(self).wf(),
        ensures
            final(self).wf(),
            final(self).source() == old(self).source(),
            r@ == next_token(old(self).source(), old(self).position()).0,
            final(self).position() == next_token(old(self).source(), old(self).position()).1,
    {
        loop
            invariant
                self.wf(),
                self.chars@ == old(self).chars@,
                next_token(self.chars@, self.pos as int) == next_token(
                    old(self).chars@,
                    old(self).pos as int,
                ),
            decreases self.chars.len() - self.pos,
        {
            let ghost at = self.pos as int;
            self.skip_whitespace();
            let line = self.line;
            let col = self.col;
            let ghost start = self.pos as int;
            proof {
                lemma_ends(self.chars@, at);
                lemma_place_bounds(self.chars@, start);
                if start < self.chars.len() {
                    lemma_scan_advances(self.chars@, start);
                }
            }
            match self.advance() {
                None => {
                    return Token { kind: TokenKind::Eof, line, col };
                },
                Some(c) => {
                    match self.scan_after(c) {
                        Some(kind) => {
                            return Token { kind, line, col };
                        },
                        None => {},
                    }
                },
            }
        }
    }

    /// Reads all tokens from the position on, up to and including `Eof`.
    pub fn tokenize(&mut self) -> (r: Vec<Token>)
        requires
            old(self).wf(),
        ensures
            final(self).wf(),
            final(self).source() == old(self).source(),
            tokens_view(r@) == tokens_from(old(self).source(), old(self).position()),
            ends_with_one_eof(tokens_view(r@)),
            forall|i: int| 0 <= i < r.len() ==> well_formed(#[trigger] tokens_view(r@)[i]),
    {
        let mut tokens: Vec<Token> = Vec::new();
        proof {
            lemma_one_eof(self.chars@, self.pos as int);
            assert forall|i: int|
                0 <= i < tokens_from(self.chars@, self.pos as int).len() implies well_formed(
                #[trigger] tokens_from(self.chars@, self.pos as int)[i],
            ) by {
                lemma_tokens_well_formed(self.chars@, self.pos as int, i);
            }
        }
        loop
            invariant_except_break
                tokens_view(tokens@) + tokens_from(self.chars@, self.pos as int) == tokens_from(
                    old(self).chars@,
                    old(self).pos as int,
                ),
            invariant
                self.wf(),
                self.chars@ == old(self).chars@,
            ensures
                self.wf(),
                self.chars@ == old(self).chars@,
                tokens_view(tokens@) == tokens_from(old(self).chars@, old(self).pos as int),
            decreases self.chars.len() - self.pos,
        {
            let ghost done = tokens_view(tokens@);
            let ghost at = self.pos as int;
            proof {
                lemma_next_token_advances(self.chars@, at);
            }
            let tok = self.next_token();
            let is_eof = match tok.kind {
                TokenKind::Eof => true,
                _ => false,
            };
            let ghost tv = tok@;
            tokens.push(tok);
            assert(tokens_view(tokens@) =~= done.push(tv));
            if is_eof {
                assert(done.push(tv) =~= done + seq![tv]);
                break ;
            }
            assert(done.push(tv) + tokens_from(self.chars@, self.pos as int) =~= done + (seq![tv]
                + tokens_from(self.chars@, self.pos as int)));
        }
        tokens
    }
}

} // verus!
