use wotw_header::cursor::{Parser, TokenClass};
use wotw_header::lexer::{lex, tokenize};
use wotw_header::token::{CommentKind, SourceRange, Token, TokenKind};

fn kinds(input: &str) -> Vec<TokenKind> {
    tokenize(input).iter().map(|token| token.kind).collect()
}

fn token(kind: TokenKind, start: usize, end: usize) -> Token {
    Token { kind, range: SourceRange { start, end } }
}

#[test]
fn empty_input_is_one_eof() {
    assert_eq!(tokenize(""), vec![token(TokenKind::Eof, 0, 0)]);
}

#[test]
fn tokens_are_classified() {
    assert_eq!(
        kinds("ab_1 12 -3 - \"s\" | = : # ! $ ( )\n"),
        vec![
            TokenKind::Identifier,
            TokenKind::Whitespace,
            TokenKind::Number,
            TokenKind::Whitespace,
            TokenKind::Number,
            TokenKind::Whitespace,
            TokenKind::Minus,
            TokenKind::Whitespace,
            TokenKind::String { terminated: true },
            TokenKind::Whitespace,
            TokenKind::Separator,
            TokenKind::Whitespace,
            TokenKind::Eq,
            TokenKind::Whitespace,
            TokenKind::Colon,
            TokenKind::Whitespace,
            TokenKind::Pound,
            TokenKind::Whitespace,
            TokenKind::Bang,
            TokenKind::Whitespace,
            TokenKind::Dollar,
            TokenKind::Whitespace,
            TokenKind::OpenParen,
            TokenKind::Whitespace,
            TokenKind::CloseParen,
            TokenKind::Newline,
            TokenKind::Eof,
        ]
    );
}

#[test]
fn token_ranges_tile_the_text() {
    let input = "0|5000 // note\n!x = \"a b\ntail é.";
    let tokens = tokenize(input);
    assert_eq!(tokens[0].range.start, 0);
    for pair in tokens.windows(2) {
        assert_eq!(pair[0].range.end, pair[1].range.start);
        assert!(pair[0].range.start < pair[0].range.end);
        assert_ne!(pair[0].kind, TokenKind::Eof);
    }
    let last = tokens[tokens.len() - 1];
    assert_eq!(last, token(TokenKind::Eof, input.len(), input.len()));
}

#[test]
fn minus_belongs_to_the_number_it_precedes() {
    assert_eq!(
        tokenize("-5000"),
        vec![token(TokenKind::Number, 0, 5), token(TokenKind::Eof, 5, 5)]
    );
    assert_eq!(
        tokenize("-$"),
        vec![
            token(TokenKind::Minus, 0, 1),
            token(TokenKind::Dollar, 1, 2),
            token(TokenKind::Eof, 2, 2),
        ]
    );
    assert_eq!(
        tokenize("5-3"),
        vec![
            token(TokenKind::Number, 0, 1),
            token(TokenKind::Number, 1, 3),
            token(TokenKind::Eof, 3, 3),
        ]
    );
}

#[test]
fn strings_end_at_quote_or_line_end() {
    assert_eq!(
        tokenize("\"a|b\"x"),
        vec![
            token(TokenKind::String { terminated: true }, 0, 5),
            token(TokenKind::Identifier, 5, 6),
            token(TokenKind::Eof, 6, 6),
        ]
    );
    assert_eq!(
        tokenize("\"ab\nc"),
        vec![
            token(TokenKind::String { terminated: false }, 0, 3),
            token(TokenKind::Newline, 3, 4),
            token(TokenKind::Identifier, 4, 5),
            token(TokenKind::Eof, 5, 5),
        ]
    );
    assert_eq!(
        tokenize("\""),
        vec![token(TokenKind::String { terminated: false }, 0, 1), token(TokenKind::Eof, 1, 1)]
    );
    assert_eq!(
        tokenize("\"\""),
        vec![token(TokenKind::String { terminated: true }, 0, 2), token(TokenKind::Eof, 2, 2)]
    );
}

#[test]
fn comments_are_told_apart_by_marker_length() {
    assert_eq!(
        tokenize("// a\n/// b\n//// c\n///// d"),
        vec![
            token(TokenKind::Comment { kind: CommentKind::Note }, 0, 4),
            token(TokenKind::Newline, 4, 5),
            token(TokenKind::Comment { kind: CommentKind::HeaderDoc }, 5, 10),
            token(TokenKind::Newline, 10, 11),
            token(TokenKind::Comment { kind: CommentKind::ConfigDoc }, 11, 17),
            token(TokenKind::Newline, 17, 18),
            token(TokenKind::Comment { kind: CommentKind::ConfigDoc }, 18, 25),
            token(TokenKind::Eof, 25, 25),
        ]
    );
    assert_eq!(
        tokenize("//"),
        vec![token(TokenKind::Comment { kind: CommentKind::Note }, 0, 2), token(TokenKind::Eof, 2, 2)]
    );
}

#[test]
fn unclassified_bytes_become_error_tokens() {
    assert_eq!(
        tokenize("a.%é/b"),
        vec![
            token(TokenKind::Identifier, 0, 1),
            token(TokenKind::Error, 1, 5),
            token(TokenKind::Error, 5, 6),
            token(TokenKind::Identifier, 6, 7),
            token(TokenKind::Eof, 7, 7),
        ]
    );
}

#[test]
fn carriage_return_is_white_space() {
    assert_eq!(
        tokenize("a \r\n\tb"),
        vec![
            token(TokenKind::Identifier, 0, 1),
            token(TokenKind::Whitespace, 1, 3),
            token(TokenKind::Newline, 3, 4),
            token(TokenKind::Whitespace, 4, 5),
            token(TokenKind::Identifier, 5, 6),
            token(TokenKind::Eof, 6, 6),
        ]
    );
}

#[test]
fn lex_reads_one_token_at_an_offset() {
    let text = b"ab|12";
    assert_eq!(lex(text, 0), token(TokenKind::Identifier, 0, 2));
    assert_eq!(lex(text, 2), token(TokenKind::Separator, 2, 3));
    assert_eq!(lex(text, 3), token(TokenKind::Number, 3, 5));
    assert_eq!(lex(text, 4), token(TokenKind::Number, 4, 5));
    assert_eq!(lex(text, 5), token(TokenKind::Eof, 5, 5));
}

#[test]
fn eof_is_returned_again_and_again() {
    let mut parser = Parser::new("a");
    assert_eq!(parser.next_token(), token(TokenKind::Identifier, 0, 1));
    assert_eq!(parser.next_token(), token(TokenKind::Eof, 1, 1));
    assert_eq!(parser.next_token(), token(TokenKind::Eof, 1, 1));
    assert_eq!(parser.current_token(), token(TokenKind::Eof, 1, 1));
}

#[test]
fn eat_consumes_only_on_match() {
    let mut parser = Parser::new("a|");
    let error = parser.eat(TokenKind::Separator).unwrap_err();
    assert_eq!(error.message, "Expected Separator");
    assert_eq!(error.range, SourceRange { start: 0, end: 1 });
    assert_eq!(error.suggestion, None);
    assert_eq!(parser.current_token(), token(TokenKind::Identifier, 0, 1));
    assert_eq!(parser.eat(TokenKind::Identifier), Ok(token(TokenKind::Identifier, 0, 1)));
    assert_eq!(parser.current_token(), token(TokenKind::Separator, 1, 2));
}

#[test]
fn skipping_stops_at_the_first_other_token() {
    let mut parser = Parser::new("  \t // c\n  x");
    parser.skip(TokenKind::Whitespace);
    assert_eq!(parser.current_token().range.start, 4);
    parser.skip(TokenKind::Whitespace);
    assert_eq!(parser.current_token().range.start, 4);
    parser.skip_while(TokenClass::Trivia);
    assert_eq!(parser.current_token(), token(TokenKind::Newline, 8, 9));
    parser.skip_while(TokenClass::Line);
    assert_eq!(parser.current_token(), token(TokenKind::Newline, 8, 9));
    parser.next_token();
    parser.skip_while(TokenClass::Line);
    assert_eq!(parser.current_token(), token(TokenKind::Eof, 12, 12));
    parser.skip_while(TokenClass::Line);
    assert_eq!(parser.current_token(), token(TokenKind::Eof, 12, 12));
}

#[test]
fn reading_gives_the_bytes_of_a_range() {
    let mut parser = Parser::new("abc|-12");
    let word = parser.next_token();
    assert_eq!(parser.read_token(&word), b"abc");
    assert_eq!(parser.read(SourceRange { start: 3, end: 7 }), b"|-12");
    assert_eq!(parser.read(SourceRange { start: 2, end: 2 }), b"");
    assert_eq!(parser.source(), b"abc|-12");
}
