use wotw_header::cursor::Parser;
use wotw_header::decode::{is_keyword, Decode};
use wotw_header::error::{ParseError, Suggestion};
use wotw_header::token::{SourceRange, TokenKind};
use wotw_header::value::{
    parse_ident, parse_number, parse_removable_number, parse_v, parse_v_ident, parse_v_number,
    parse_v_or_kind, parse_v_param, parse_v_removable_number, InterpolationCommand, V,
};

fn error(message: &str, start: usize, end: usize, suggestion: Option<Suggestion>) -> ParseError {
    ParseError { message: message.to_string(), range: SourceRange { start, end }, suggestion }
}

#[test]
fn decimal_numbers_decode_exactly() {
    assert_eq!(u32::from_text(b"0"), Some(0));
    assert_eq!(u32::from_text(b"5000"), Some(5000));
    assert_eq!(u32::from_text(b"007"), Some(7));
    assert_eq!(u32::from_text(b"4294967295"), Some(4294967295));
    assert_eq!(u32::from_text(b"4294967296"), None);
    assert_eq!(u32::from_text(b"99999999999999999999999999"), None);
    assert_eq!(u32::from_text(b""), None);
    assert_eq!(u32::from_text(b"-1"), None);
    assert_eq!(u32::from_text(b"+1"), None);
    assert_eq!(u32::from_text(b"1a"), None);
}

#[test]
fn free_text_decodes_to_itself() {
    assert_eq!(Vec::<u8>::from_text(b"mystery"), Some(b"mystery".to_vec()));
    assert_eq!(Vec::<u8>::from_text(b""), Some(Vec::new()));
}

#[test]
fn keywords_match_whatever_the_case() {
    assert!(is_keyword(b"param", "param"));
    assert!(is_keyword(b"Param", "param"));
    assert!(is_keyword(b"PARAM", "param"));
    assert!(!is_keyword(b"para", "param"));
    assert!(!is_keyword(b"params", "param"));
    assert!(!is_keyword(b"parbm", "param"));
    assert!(!is_keyword(b"", "param"));
    assert_eq!(InterpolationCommand::from_text(b"pArAm"), Some(InterpolationCommand::Param));
    assert_eq!(InterpolationCommand::from_text(b"parameter"), None);
}

#[test]
fn number_literal() {
    let mut parser = Parser::new("12|");
    assert_eq!(parse_number::<u32>(&mut parser, Suggestion::Integer), Ok(12));
    assert_eq!(parser.current_token().kind, TokenKind::Separator);
}

#[test]
fn number_of_another_kind_is_left_in_place() {
    let mut parser = Parser::new("x");
    assert_eq!(
        parse_number::<u32>(&mut parser, Suggestion::Integer),
        Err(error("Expected Number", 0, 1, Some(Suggestion::Integer)))
    );
    assert_eq!(parser.current_token().range.start, 0);
}

#[test]
fn number_that_does_not_decode_is_consumed() {
    let mut parser = Parser::new("-3|");
    assert_eq!(
        parse_number::<u32>(&mut parser, Suggestion::UberGroup),
        Err(error("Invalid UberGroup", 0, 2, Some(Suggestion::UberGroup)))
    );
    assert_eq!(parser.current_token().range.start, 2);

    let mut parser = Parser::new("4294967296");
    assert_eq!(
        parse_number::<u32>(&mut parser, Suggestion::UberId),
        Err(error("Invalid UberId", 0, 10, Some(Suggestion::UberId)))
    );
}

#[test]
fn identifier_spells_a_keyword() {
    let mut parser = Parser::new("Param(");
    assert_eq!(
        parse_ident::<InterpolationCommand>(&mut parser, Suggestion::InterpolationCommand),
        Ok(InterpolationCommand::Param)
    );
    let mut parser = Parser::new("Other(");
    assert_eq!(
        parse_ident::<InterpolationCommand>(&mut parser, Suggestion::InterpolationCommand),
        Err(error("Invalid InterpolationCommand", 0, 5, Some(Suggestion::InterpolationCommand)))
    );
    assert_eq!(parser.current_token().kind, TokenKind::OpenParen);
}

#[test]
fn v_number_is_literal_or_parameter() {
    let mut parser = Parser::new("17");
    assert_eq!(parse_v_number::<u32>(&mut parser, Suggestion::Integer), Ok(V::Literal(17)));

    let mut parser = Parser::new("$PARAM(amount)|");
    assert_eq!(
        parse_v_number::<u32>(&mut parser, Suggestion::Integer),
        Ok(V::Parameter(b"amount".to_vec()))
    );
    assert_eq!(parser.current_token().kind, TokenKind::Separator);

    let mut parser = Parser::new("$Param(amount)");
    assert_eq!(
        parse_v_or_kind::<u32>(&mut parser, Suggestion::Integer, TokenKind::Number),
        Ok(V::Parameter(b"amount".to_vec()))
    );
}

#[test]
fn v_number_fails_with_the_suggestion_of_the_caller() {
    let mut parser = Parser::new("|5");
    assert_eq!(
        parse_v_number::<u32>(&mut parser, Suggestion::Zone),
        Err(error("Expected Zone", 0, 1, Some(Suggestion::Zone)))
    );
    assert_eq!(parser.current_token().range.start, 1);

    let mut parser = Parser::new("abc");
    assert_eq!(
        parse_v::<u32>(&mut parser, Suggestion::Skill),
        Err(error("Expected Skill", 0, 3, Some(Suggestion::Skill)))
    );
}

#[test]
fn v_ident_is_literal_or_parameter() {
    let mut parser = Parser::new("param");
    assert_eq!(
        parse_v_ident::<InterpolationCommand>(&mut parser, Suggestion::Identifier),
        Ok(V::Literal(InterpolationCommand::Param))
    );
    let mut parser = Parser::new("$param(which)");
    assert_eq!(
        parse_v_ident::<InterpolationCommand>(&mut parser, Suggestion::Identifier),
        Ok(V::Parameter(b"which".to_vec()))
    );
    let mut parser = Parser::new("nothing");
    assert_eq!(
        parse_v_ident::<InterpolationCommand>(&mut parser, Suggestion::Identifier),
        Err(error("Invalid Identifier", 0, 7, Some(Suggestion::Identifier)))
    );
}

#[test]
fn parameter_needs_its_parentheses_and_name() {
    let mut parser = Parser::new("(x)");
    assert_eq!(parse_v_param::<u32>(&mut parser), Ok(V::Parameter(b"x".to_vec())));

    let mut parser = Parser::new("x)");
    assert_eq!(
        parse_v_param::<u32>(&mut parser),
        Err(error("Expected OpenParen", 0, 1, Some(Suggestion::InterpolationCommand)))
    );
    let mut parser = Parser::new("(5)");
    assert_eq!(parse_v_param::<u32>(&mut parser), Err(error("Expected Identifier", 1, 2, None)));
    let mut parser = Parser::new("(x");
    assert_eq!(parse_v_param::<u32>(&mut parser), Err(error("Expected CloseParen", 2, 2, None)));

    let mut parser = Parser::new("$(x)");
    assert_eq!(
        parse_v::<u32>(&mut parser, Suggestion::Integer),
        Err(error("Expected Identifier", 1, 2, Some(Suggestion::InterpolationCommand)))
    );
    let mut parser = Parser::new("$value(x)");
    assert_eq!(
        parse_v::<u32>(&mut parser, Suggestion::Integer),
        Err(error("Invalid InterpolationCommand", 1, 6, Some(Suggestion::InterpolationCommand)))
    );
}

#[test]
fn removable_number_strips_the_sign() {
    let mut parser = Parser::new("-5000");
    assert_eq!(parse_removable_number::<u32>(&mut parser, Suggestion::Integer), Ok((5000, true)));
    let mut parser = Parser::new("5000");
    assert_eq!(parse_removable_number::<u32>(&mut parser, Suggestion::Integer), Ok((5000, false)));
    let mut parser = Parser::new("-0");
    assert_eq!(parse_removable_number::<u32>(&mut parser, Suggestion::Integer), Ok((0, true)));
    let mut parser = Parser::new("-4294967296");
    assert_eq!(
        parse_removable_number::<u32>(&mut parser, Suggestion::Integer),
        Err(error("Invalid Integer", 0, 11, Some(Suggestion::Integer)))
    );
    let mut parser = Parser::new("-x");
    assert_eq!(
        parse_removable_number::<u32>(&mut parser, Suggestion::Integer),
        Err(error("Expected Number", 0, 1, Some(Suggestion::Integer)))
    );
    assert_eq!(parser.current_token().kind, TokenKind::Minus);
}

#[test]
fn removal_is_the_same_for_literal_and_parameter() {
    let mut parser = Parser::new("-5000");
    assert_eq!(
        parse_v_removable_number::<u32>(&mut parser, Suggestion::Integer),
        Ok((V::Literal(5000), true))
    );
    let mut parser = Parser::new("-$Param(x)");
    assert_eq!(
        parse_v_removable_number::<u32>(&mut parser, Suggestion::Integer),
        Ok((V::Parameter(b"x".to_vec()), true))
    );
    let mut parser = Parser::new("5000");
    assert_eq!(
        parse_v_removable_number::<u32>(&mut parser, Suggestion::Integer),
        Ok((V::Literal(5000), false))
    );
    let mut parser = Parser::new("$Param(x)");
    assert_eq!(
        parse_v_removable_number::<u32>(&mut parser, Suggestion::Integer),
        Ok((V::Parameter(b"x".to_vec()), false))
    );
    let mut parser = Parser::new("- 5");
    assert_eq!(
        parse_v_removable_number::<u32>(&mut parser, Suggestion::Integer),
        Err(error("Expected Integer", 1, 2, Some(Suggestion::Integer)))
    );
    let mut parser = Parser::new("x");
    assert_eq!(
        parse_v_removable_number::<u32>(&mut parser, Suggestion::Integer),
        Err(error("Expected Integer", 0, 1, Some(Suggestion::Integer)))
    );
}
