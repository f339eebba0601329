use superc::lexer::Lexer;
use superc::token::{Token, TokenKind};

fn kinds(source: &str) -> Vec<TokenKind> {
    let mut lexer = Lexer::new(source);
    lexer.tokenize().into_iter().map(|t| t.kind).collect()
}

fn tokens(source: &str) -> Vec<Token> {
    let mut lexer = Lexer::new(source);
    lexer.tokenize()
}

#[test]
fn test_basic_tokens() {
    let mut lexer = Lexer::new("data x: f32[100]");
    let tokens = lexer.tokenize();
    assert!(matches!(tokens[0].kind, TokenKind::Data));
    assert!(matches!(tokens[1].kind, TokenKind::Ident(_)));
}

#[test]
fn data_declaration_tokens() {
    assert_eq!(
        kinds("data x: f32[100]"),
        vec![
            TokenKind::Data,
            TokenKind::Ident("x".to_string()),
            TokenKind::Colon,
            TokenKind::F32,
            TokenKind::LBracket,
            TokenKind::IntLit(100),
            TokenKind::RBracket,
            TokenKind::Eof,
        ]
    );
}

#[test]
fn third_line_starts_at_line_three_column_one() {
    let toks = tokens("a\nb\nc");
    let c = toks
        .iter()
        .find(|t| t.kind == TokenKind::Ident("c".to_string()))
        .unwrap();
    assert_eq!((c.line, c.col), (3, 1));
}

#[test]
fn places_count_from_one_and_follow_the_characters() {
    let toks = tokens("ab  cd\n  ef");
    assert_eq!((toks[0].line, toks[0].col), (1, 1));
    assert_eq!((toks[1].line, toks[1].col), (1, 5));
    assert_eq!(toks[2].kind, TokenKind::Newline);
    assert_eq!((toks[2].line, toks[2].col), (1, 7));
    assert_eq!(toks[3].kind, TokenKind::Ident("ef".to_string()));
    assert_eq!((toks[3].line, toks[3].col), (2, 3));
    assert_eq!(toks[4].kind, TokenKind::Eof);
    assert_eq!((toks[4].line, toks[4].col), (2, 5));
}

#[test]
fn empty_source_is_one_eof() {
    let toks = tokens("");
    assert_eq!(toks.len(), 1);
    assert_eq!(toks[0].kind, TokenKind::Eof);
    assert_eq!((toks[0].line, toks[0].col), (1, 1));
}

#[test]
fn exactly_one_eof_and_it_is_last() {
    for source in ["", "a", "a b\n\n c // x", "\"open", "@#$", "1.2.3"] {
        let ks = kinds(source);
        assert_eq!(ks.last(), Some(&TokenKind::Eof));
        assert_eq!(ks.iter().filter(|k| **k == TokenKind::Eof).count(), 1);
    }
}

#[test]
fn keywords_types_and_truth_values() {
    assert_eq!(
        kinds("data fn parallel seq gpu asm reduce if else for return i32 i64 f32 f64 bool true false"),
        vec![
            TokenKind::Data,
            TokenKind::Fn,
            TokenKind::Parallel,
            TokenKind::Sequential,
            TokenKind::Gpu,
            TokenKind::Asm,
            TokenKind::Reduce,
            TokenKind::If,
            TokenKind::Else,
            TokenKind::For,
            TokenKind::Return,
            TokenKind::I32,
            TokenKind::I64,
            TokenKind::F32,
            TokenKind::F64,
            TokenKind::Bool,
            TokenKind::BoolLit(true),
            TokenKind::BoolLit(false),
            TokenKind::Eof,
        ]
    );
}

#[test]
fn a_keyword_inside_a_word_is_an_identifier() {
    assert_eq!(
        kinds("data1 _if for_"),
        vec![
            TokenKind::Ident("data1".to_string()),
            TokenKind::Ident("_if".to_string()),
            TokenKind::Ident("for_".to_string()),
            TokenKind::Eof,
        ]
    );
}

#[test]
fn words_may_hold_letters_beyond_ascii() {
    assert_eq!(
        kinds("größe = 1"),
        vec![
            TokenKind::Ident("größe".to_string()),
            TokenKind::Eq,
            TokenKind::IntLit(1),
            TokenKind::Eof,
        ]
    );
}

#[test]
fn operators_and_delimiters() {
    assert_eq!(
        kinds("+ - * / % = == != < > <= >= && || ! ( ) { } [ ] , : ; ->"),
        vec![
            TokenKind::Plus,
            TokenKind::Minus,
            TokenKind::Star,
            TokenKind::Slash,
            TokenKind::Percent,
            TokenKind::Eq,
            TokenKind::EqEq,
            TokenKind::NotEq,
            TokenKind::Lt,
            TokenKind::Gt,
            TokenKind::LtEq,
            TokenKind::GtEq,
            TokenKind::And,
            TokenKind::Or,
            TokenKind::Not,
            TokenKind::LParen,
            TokenKind::RParen,
            TokenKind::LBrace,
            TokenKind::RBrace,
            TokenKind::LBracket,
            TokenKind::RBracket,
            TokenKind::Comma,
            TokenKind::Colon,
            TokenKind::Semi,
            TokenKind::Arrow,
            TokenKind::Eof,
        ]
    );
}

#[test]
fn two_character_operators_need_no_blank() {
    assert_eq!(
        kinds("a<=b->c"),
        vec![
            TokenKind::Ident("a".to_string()),
            TokenKind::LtEq,
            TokenKind::Ident("b".to_string()),
            TokenKind::Arrow,
            TokenKind::Ident("c".to_string()),
            TokenKind::Eof,
        ]
    );
}

#[test]
fn a_single_ampersand_or_bar_is_passed_over() {
    assert_eq!(
        kinds("a & b | c"),
        vec![
            TokenKind::Ident("a".to_string()),
            TokenKind::Ident("b".to_string()),
            TokenKind::Ident("c".to_string()),
            TokenKind::Eof,
        ]
    );
}

#[test]
fn unknown_characters_are_passed_over() {
    assert_eq!(
        kinds("a @ # $ ? b"),
        vec![
            TokenKind::Ident("a".to_string()),
            TokenKind::Ident("b".to_string()),
            TokenKind::Eof,
        ]
    );
}

#[test]
fn blanks_are_skipped_and_line_breaks_are_tokens() {
    assert_eq!(
        kinds(" \t\r a \r\n b"),
        vec![
            TokenKind::Ident("a".to_string()),
            TokenKind::Newline,
            TokenKind::Ident("b".to_string()),
            TokenKind::Eof,
        ]
    );
}

#[test]
fn a_comment_runs_up_to_the_line_break() {
    assert_eq!(
        kinds("a // b c\nd // e"),
        vec![
            TokenKind::Ident("a".to_string()),
            TokenKind::Newline,
            TokenKind::Ident("d".to_string()),
            TokenKind::Eof,
        ]
    );
}

#[test]
fn integers_and_floats() {
    assert_eq!(
        kinds("0 42 007 1.5 3. 10.25"),
        vec![
            TokenKind::IntLit(0),
            TokenKind::IntLit(42),
            TokenKind::IntLit(7),
            TokenKind::FloatLit("1.5".to_string()),
            TokenKind::FloatLit("3.".to_string()),
            TokenKind::FloatLit("10.25".to_string()),
            TokenKind::Eof,
        ]
    );
}

#[test]
fn a_second_point_ends_the_number() {
    assert_eq!(
        kinds("1.2.3"),
        vec![
            TokenKind::FloatLit("1.2".to_string()),
            TokenKind::IntLit(3),
            TokenKind::Eof,
        ]
    );
}

#[test]
fn the_largest_integer_and_one_more() {
    assert_eq!(
        kinds("9223372036854775807 9223372036854775808 99999999999999999999999"),
        vec![
            TokenKind::IntLit(i64::MAX),
            TokenKind::IntLit(0),
            TokenKind::IntLit(0),
            TokenKind::Eof,
        ]
    );
}

#[test]
fn strings_and_their_escapes() {
    assert_eq!(
        kinds(r#""plain" "a\nb" "t\tq" "back\\slash" "quo\"te" "oth\er""#),
        vec![
            TokenKind::StringLit("plain".to_string()),
            TokenKind::StringLit("a\nb".to_string()),
            TokenKind::StringLit("t\tq".to_string()),
            TokenKind::StringLit("back\\slash".to_string()),
            TokenKind::StringLit("quo\"te".to_string()),
            TokenKind::StringLit("other".to_string()),
            TokenKind::Eof,
        ]
    );
}

#[test]
fn an_unterminated_string_runs_to_the_end() {
    assert_eq!(
        kinds("x \"abc def\n ghi"),
        vec![
            TokenKind::Ident("x".to_string()),
            TokenKind::StringLit("abc def\n ghi".to_string()),
            TokenKind::Eof,
        ]
    );
    assert_eq!(
        kinds("\"abc\\"),
        vec![TokenKind::StringLit("abc".to_string()), TokenKind::Eof]
    );
}

#[test]
fn a_line_break_inside_a_string_counts_for_the_places_after_it() {
    let toks = tokens("\"a\nb\" c");
    assert_eq!(toks[1].kind, TokenKind::Ident("c".to_string()));
    assert_eq!((toks[1].line, toks[1].col), (2, 4));
}

#[test]
fn next_token_reads_one_token_at_a_time() {
    let mut lexer = Lexer::new("a + 1");
    assert_eq!(lexer.next_token().kind, TokenKind::Ident("a".to_string()));
    assert_eq!(lexer.next_token().kind, TokenKind::Plus);
    assert_eq!(lexer.next_token().kind, TokenKind::IntLit(1));
    assert_eq!(lexer.next_token().kind, TokenKind::Eof);
    assert_eq!(lexer.next_token().kind, TokenKind::Eof);
}

#[test]
fn lexing_twice_gives_the_same_tokens() {
    let source = "data x: f32[4]\nfor i = 0 : 4 { x[i] = i * 2.5 }\n";
    assert_eq!(tokens(source), tokens(source));
}

#[test]
fn the_lexer_step_by_step() {
    let mut lexer = Lexer::new("  ab_1 // note\n\"s\" 12.5x");
    assert_eq!(lexer.peek(), Some(' '));
    lexer.skip_whitespace();
    assert_eq!(lexer.peek(), Some('a'));
    assert_eq!(lexer.advance(), Some('a'));
    assert_eq!(lexer.read_ident('a'), "ab_1");
    assert_eq!(lexer.peek(), Some(' '));
    lexer.skip_whitespace();
    lexer.skip_comment();
    assert_eq!(lexer.advance(), Some('\n'));
    assert_eq!(lexer.advance(), Some('"'));
    assert_eq!(lexer.read_string(), "s");
    lexer.skip_whitespace();
    assert_eq!(lexer.advance(), Some('1'));
    assert_eq!(lexer.read_number('1'), TokenKind::FloatLit("12.5".to_string()));
    assert_eq!(lexer.advance(), Some('x'));
    assert_eq!(lexer.advance(), None);
    assert_eq!(lexer.peek(), None);
    assert_eq!(lexer.keyword_or_ident("for".to_string()), TokenKind::For);
    assert_eq!(
        lexer.keyword_or_ident("fore".to_string()),
        TokenKind::Ident("fore".to_string())
    );
}

#[test]
fn tags_and_their_names() {
    let found = kinds("data x 1 1.5 \"s\" true -> \n");
    let names: Vec<&str> = found.iter().map(|k| k.tag().name()).collect();
    assert_eq!(
        names,
        vec!["Data", "Ident", "IntLit", "FloatLit", "StringLit", "BoolLit", "Arrow", "Newline", "Eof"]
    );
    assert_eq!(kinds("seq")[0].tag().name(), "Seq");
}
