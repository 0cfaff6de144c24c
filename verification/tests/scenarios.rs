use wotw_header::document::{
    Fragment, HeaderCommand, HeaderContent, Setup, SetupTimer, UberIdentifier, VItem, VPickup,
    VUberState,
};
use wotw_header::error::{ParseErrorCollection, Suggestion};
use wotw_header::driver::{new, parse_header_contents};
use wotw_header::token::SourceRange;
use wotw_header::value::V;

fn parse(input: &str) -> Result<Vec<HeaderContent>, ParseErrorCollection> {
    let mut parser = new(input);
    parse_header_contents(&mut parser)
}

fn pickup(
    group: u32,
    id: u32,
    start: usize,
    item: &str,
    ignore: bool,
    skip_validation: bool,
) -> HeaderContent {
    HeaderContent::Pickup(VPickup {
        trigger: VUberState {
            identifier: UberIdentifier { uber_group: group, uber_id: id },
            value: V::Literal(Vec::new()),
        },
        item: VItem {
            source: Fragment {
                range: SourceRange { start, end: start + item.len() },
                text: item.as_bytes().to_vec(),
            },
        },
        ignore,
        skip_validation,
    })
}

#[test]
fn pickup_grants_item() {
    assert_eq!(parse("0|5000|0|100\n"), Ok(vec![pickup(0, 5000, 7, "0|100", false, false)]));
}

#[test]
fn pickup_without_item_is_missing_separator() {
    let errors = parse("0|5000\n").unwrap_err().errors;
    assert_eq!(errors.len(), 1);
    assert_eq!(errors[0].message, "Expected Separator");
    assert_eq!(errors[0].range, SourceRange { start: 6, end: 7 });
    assert_eq!(errors[0].suggestion, Some(Suggestion::UberId));
}

#[test]
fn bang_marks_removal() {
    assert_eq!(parse("!0|5000|0|100\n"), Ok(vec![pickup(0, 5000, 8, "0|100", true, false)]));
}

#[test]
fn annotation_then_pickup_in_source_order() {
    assert_eq!(
        parse("#mystery\n0|1|...\n"),
        Ok(vec![
            HeaderContent::Annotation(b"mystery".to_vec()),
            pickup(0, 1, 13, "...", false, false),
        ])
    );
}

#[test]
fn malformed_line_gives_one_error_and_parsing_goes_on() {
    let errors = parse("0 5000|2|3\n0|1|2|3\n").unwrap_err().errors;
    assert_eq!(errors.len(), 1);
    assert_eq!(errors[0].range, SourceRange { start: 1, end: 2 });
    assert_eq!(errors[0].suggestion, Some(Suggestion::UberGroup));

    let errors = parse("0 5000|2|3\n0|1 2|3\n").unwrap_err().errors;
    assert_eq!(errors.len(), 2);
    assert_eq!(errors[0].range, SourceRange { start: 1, end: 2 });
    assert_eq!(errors[1].range, SourceRange { start: 14, end: 15 });
    assert_eq!(errors[1].suggestion, Some(Suggestion::UberId));
}

#[test]
fn setup_timer() {
    let timer = HeaderContent::Setup(Setup::Timer(SetupTimer {
        switch: UberIdentifier { uber_group: 1, uber_id: 2 },
        counter: UberIdentifier { uber_group: 3, uber_id: 4 },
    }));
    assert_eq!(parse("setup Timer|1|2|3|4\n"), Ok(vec![timer]));
    let timer = HeaderContent::Setup(Setup::Timer(SetupTimer {
        switch: UberIdentifier { uber_group: 1, uber_id: 2 },
        counter: UberIdentifier { uber_group: 3, uber_id: 4 },
    }));
    assert_eq!(parse("Setup timer|1|2|3|4"), Ok(vec![timer]));
}

#[test]
fn command_after_two_bangs() {
    assert_eq!(
        parse("!!include other  // why\n"),
        Ok(vec![HeaderContent::Command(HeaderCommand {
            source: Fragment {
                range: SourceRange { start: 2, end: 15 },
                text: b"include other".to_vec(),
            },
        })])
    );
}

#[test]
fn skip_validate_holds_for_one_statement() {
    assert_eq!(
        parse("// skip-validate\n1|2|a\n1|3|b\n"),
        Ok(vec![pickup(1, 2, 21, "a", false, true), pickup(1, 3, 27, "b", false, false)])
    );
}

#[test]
fn documentation_is_kept_in_order() {
    assert_eq!(
        parse("/// About\n//// Config \n#x // note\n"),
        Ok(vec![
            HeaderContent::OuterDocumentation(b"About".to_vec()),
            HeaderContent::InnerDocumentation(b"Config".to_vec()),
            HeaderContent::Annotation(b"x".to_vec()),
        ])
    );
}

#[test]
fn command_keeps_an_open_string_for_its_grammar() {
    let contents = parse("!!icon File:\"icons/a.png\n#next\n").unwrap();
    assert_eq!(
        contents,
        vec![
            HeaderContent::Command(HeaderCommand {
                source: Fragment {
                    range: SourceRange { start: 2, end: 24 },
                    text: b"icon File:\"icons/a.png".to_vec(),
                },
            }),
            HeaderContent::Annotation(b"next".to_vec()),
        ]
    );
}

#[test]
fn empty_header_is_an_empty_document() {
    assert_eq!(parse(""), Ok(Vec::new()));
    assert_eq!(parse("\n\n  \n// note\n"), Ok(Vec::new()));
}

#[test]
fn last_line_needs_no_newline() {
    assert_eq!(parse("#a"), Ok(vec![HeaderContent::Annotation(b"a".to_vec())]));
    assert_eq!(parse("#a  // why"), Ok(vec![HeaderContent::Annotation(b"a".to_vec())]));
}

#[test]
fn statement_must_end_its_line() {
    let errors = parse("#a #b\n#c\n").unwrap_err().errors;
    assert_eq!(errors.len(), 1);
    assert_eq!(errors[0].message, "Expected Newline");
    assert_eq!(errors[0].range, SourceRange { start: 3, end: 4 });
    assert_eq!(errors[0].suggestion, None);
}

#[test]
fn every_bad_line_is_reported_once() {
    let errors = parse("x\n#ok\n?\n1|2\n!!\n! 1\nsetup\n").unwrap_err().errors;
    let found: Vec<(&str, usize, usize)> = errors
        .iter()
        .map(|error| (error.message.as_str(), error.range.start, error.range.end))
        .collect();
    assert_eq!(
        found,
        vec![
            ("Invalid Expression", 0, 1),
            ("expected expression", 6, 7),
            ("Expected Separator", 11, 12),
            ("Expected HeaderCommand", 14, 15),
            ("Expected Number", 16, 17),
            ("Expected Identifier", 24, 25),
        ]
    );
}

#[test]
fn skip_validate_does_not_pass_an_error() {
    assert_eq!(
        parse("// skip-validate\n1|2|a\n").map(|contents| contents.len()),
        Ok(1)
    );
    let errors = parse("// skip-validate\n?\n1|2|a\n").unwrap_err().errors;
    assert_eq!(errors.len(), 1);
    let mut parser = new("// skip-validate\n?\n1|2|a\n#b");
    parser.skip_while(wotw_header::cursor::TokenClass::Line);
    parser.next_token();
    parser.skip_while(wotw_header::cursor::TokenClass::Line);
    parser.next_token();
    assert_eq!(
        parse_header_contents(&mut parser),
        Ok(vec![pickup(1, 2, 23, "a", false, false), HeaderContent::Annotation(b"b".to_vec())])
    );
}

#[test]
fn parsing_ends_at_the_end_of_the_text() {
    for input in ["", "#a\n", "?\n?", "1|2|3  "] {
        let mut parser = new(input);
        let _ = parse_header_contents(&mut parser);
        assert_eq!(parser.current_token().kind, wotw_header::token::TokenKind::Eof);
        assert_eq!(parser.current_token().range.start, input.len());
    }
}

#[test]
fn setup_kind_follows_the_keyword_after_white_space() {
    let errors = parse("setup.Timer|1|2|3|4\n").unwrap_err().errors;
    assert_eq!(errors.len(), 1);
    assert_eq!(errors[0].message, "Expected Identifier");
    assert_eq!(errors[0].range, SourceRange { start: 5, end: 6 });
    assert_eq!(errors[0].suggestion, Some(Suggestion::SetupKind));
}

#[test]
fn fewer_errors_than_tokens() {
    for input in ["?", "?\n", "?\n?\n?\n", "x\n#ok\n?\n1|2\n!!\n! 1\nsetup\n", "1|", "#a #b", "\n\n% % %\n"] {
        let tokens = wotw_header::lexer::tokenize(input).len();
        match parse(input) {
            Ok(_) => panic!("{:?} should not parse", input),
            Err(errors) => {
                assert!(errors.len() > 0);
                assert!(errors.len() < tokens, "{:?}", input);
            }
        }
    }
    assert_eq!(parse("?").unwrap_err().len(), 1);
    assert_eq!(parse("?\n?\n?\n").unwrap_err().len(), 3);
}

#[test]
fn texts_are_cut_at_character_boundaries() {
    let input = "/// Söhne\u{a0}\n//// \u{3000}größe\n#name\n1|2=3|6|f=\"é ü\"|mute\u{2003}ß  // ünused\n!!name Größer ☃ \n3|4=$PARAM(x)|é\n";
    let contents = parse(input).unwrap();
    assert_eq!(contents.len(), 6);
    let mut texts: Vec<&[u8]> = Vec::new();
    for content in &contents {
        match content {
            HeaderContent::OuterDocumentation(text) => texts.push(text),
            HeaderContent::InnerDocumentation(text) => texts.push(text),
            HeaderContent::Annotation(name) => texts.push(name),
            HeaderContent::Setup(_) => {}
            HeaderContent::Pickup(pickup) => {
                match &pickup.trigger.value {
                    V::Literal(text) => texts.push(text),
                    V::Parameter(name) => texts.push(name),
                }
                texts.push(&pickup.item.source.text);
                let range = pickup.item.source.range;
                assert!(input.is_char_boundary(range.start));
                assert!(input.is_char_boundary(range.end));
            }
            HeaderContent::Command(command) => texts.push(&command.source.text),
        }
    }
    let texts: Vec<&str> = texts.iter().map(|text| std::str::from_utf8(text).unwrap()).collect();
    assert_eq!(
        texts,
        vec![
            "Söhne",
            "größe",
            "name",
            "3",
            "6|f=\"é ü\"|mute\u{2003}ß",
            "name Größer ☃",
            "x",
            "é",
        ]
    );
}
