use wotw_header::cursor::Parser;
use wotw_header::document::{
    Fragment, HeaderCommand, HeaderContent, Icon, Setup, SetupTimer, UberIdentifier, VItem, VPickup,
    VUberState,
};
use wotw_header::error::{ParseError, ParseErrorCollection, Suggestion};
use wotw_header::driver::{
    new, parse_expression, parse_pickup, parse_whitespace, recover, ParseContext,
};
use wotw_header::grammar::{
    parse_annotation, parse_command, parse_fragment, parse_icon, parse_setup, parse_string,
    parse_timer, parse_uber_identifier,
};
use wotw_header::token::{SourceRange, TokenKind};
use wotw_header::value::V;

fn error(message: &str, start: usize, end: usize, suggestion: Option<Suggestion>) -> ParseError {
    ParseError { message: message.to_string(), range: SourceRange { start, end }, suggestion }
}

fn fragment(start: usize, text: &str) -> Fragment {
    Fragment { range: SourceRange { start, end: start + text.len() }, text: text.as_bytes().to_vec() }
}

#[test]
fn string_content_stands_between_the_quotes() {
    let mut parser = new("\"icons/a.png\"|");
    assert_eq!(parse_string(&mut parser), Ok(&b"icons/a.png"[..]));
    assert_eq!(parser.current_token().kind, TokenKind::Separator);
    let mut parser = new("\"\"");
    assert_eq!(parse_string(&mut parser), Ok(&b""[..]));
}

#[test]
fn string_errors() {
    let mut parser = new("\"icons\n");
    assert_eq!(parse_string(&mut parser), Err(error("Unterminated string", 0, 6, None)));
    assert_eq!(parser.current_token().kind, TokenKind::Newline);
    let mut parser = new("icons");
    assert_eq!(parse_string(&mut parser), Err(error("Expected string", 0, 5, None)));
    assert_eq!(parser.current_token().kind, TokenKind::Eof);
}

#[test]
fn uber_identifier() {
    let mut parser = new("0|5000|");
    assert_eq!(
        parse_uber_identifier(&mut parser),
        Ok(UberIdentifier { uber_group: 0, uber_id: 5000 })
    );
    assert_eq!(parser.current_token().range.start, 6);
}

#[test]
fn uber_identifier_errors() {
    let mut parser = new("a|1");
    assert_eq!(
        parse_uber_identifier(&mut parser),
        Err(error("Expected Number", 0, 1, Some(Suggestion::UberGroup)))
    );
    let mut parser = new("1,1");
    assert_eq!(
        parse_uber_identifier(&mut parser),
        Err(error("Expected Separator", 1, 2, Some(Suggestion::UberGroup)))
    );
    let mut parser = new("1|");
    assert_eq!(
        parse_uber_identifier(&mut parser),
        Err(error("Expected Number", 2, 2, Some(Suggestion::UberId)))
    );
    let mut parser = new("1|-1");
    assert_eq!(
        parse_uber_identifier(&mut parser),
        Err(error("Invalid UberId", 2, 4, Some(Suggestion::UberId)))
    );
}

#[test]
fn icons_by_index() {
    assert_eq!(parse_icon(&mut new("shard:5")), Ok(Icon::Shard(5)));
    assert_eq!(parse_icon(&mut new("Spell:1002")), Ok(Icon::Spell(1002)));
    assert_eq!(parse_icon(&mut new("opher:0")), Ok(Icon::Opher(0)));
    assert_eq!(parse_icon(&mut new("LUPO:3")), Ok(Icon::Lupo(3)));
    assert_eq!(parse_icon(&mut new("grom:7")), Ok(Icon::Grom(7)));
    assert_eq!(parse_icon(&mut new("tuley:12")), Ok(Icon::Tuley(12)));
}

#[test]
fn icon_from_file() {
    assert_eq!(
        parse_icon(&mut new("file:\"assets/icon.png\"")),
        Ok(Icon::File(b"assets/icon.png".to_vec()))
    );
}

#[test]
fn icon_file_without_closing_quote() {
    let mut parser = new("File:\"assets/icon.png\n1|2|3");
    assert_eq!(parse_icon(&mut parser), Err(error("Unterminated string", 5, 21, None)));
    assert_eq!(parser.current_token().kind, TokenKind::Newline);
}

#[test]
fn icon_errors() {
    assert_eq!(
        parse_icon(&mut new("5:5")),
        Err(error("Expected Identifier", 0, 1, Some(Suggestion::IconKind)))
    );
    assert_eq!(
        parse_icon(&mut new("gem:5")),
        Err(error("Invalid IconKind", 0, 3, Some(Suggestion::IconKind)))
    );
    assert_eq!(
        parse_icon(&mut new("shard 5")),
        Err(error("Expected Colon", 5, 6, Some(Suggestion::IconKind)))
    );
    assert_eq!(
        parse_icon(&mut new("shard:x")),
        Err(error("Expected Number", 6, 7, Some(Suggestion::ShardIcon)))
    );
    assert_eq!(
        parse_icon(&mut new("spell:x")),
        Err(error("Expected Number", 6, 7, Some(Suggestion::SpellIcon)))
    );
    assert_eq!(
        parse_icon(&mut new("opher:x")),
        Err(error("Expected Number", 6, 7, Some(Suggestion::OpherIcon)))
    );
    assert_eq!(
        parse_icon(&mut new("lupo:x")),
        Err(error("Expected Number", 5, 6, Some(Suggestion::LupoIcon)))
    );
    assert_eq!(
        parse_icon(&mut new("grom:x")),
        Err(error("Expected Number", 5, 6, Some(Suggestion::GromIcon)))
    );
    assert_eq!(
        parse_icon(&mut new("tuley:x")),
        Err(error("Expected Number", 6, 7, Some(Suggestion::TuleyIcon)))
    );
    assert_eq!(parse_icon(&mut new("file:5")), Err(error("Expected string", 5, 6, None)));
}

#[test]
fn timer_and_setup() {
    let timer = Setup::Timer(SetupTimer {
        switch: UberIdentifier { uber_group: 1, uber_id: 2 },
        counter: UberIdentifier { uber_group: 3, uber_id: 4 },
    });
    assert_eq!(parse_timer(&mut new("1|2|3|4")), Ok(timer));
    assert_eq!(parse_setup(&mut new("timer|1|2|3|4")), Ok(HeaderContent::Setup(timer)));
    assert_eq!(
        parse_timer(&mut new("1|2 3|4")),
        Err(error("Expected Separator", 3, 4, Some(Suggestion::UberId)))
    );
    assert_eq!(
        parse_setup(&mut new("clock|1|2|3|4")),
        Err(error("Invalid SetupKind", 0, 5, Some(Suggestion::SetupKind)))
    );
    assert_eq!(
        parse_setup(&mut new("timer 1|2|3|4")),
        Err(error("Expected Separator", 5, 6, Some(Suggestion::SetupKind)))
    );
    assert_eq!(
        parse_setup(&mut new("|")),
        Err(error("Expected Identifier", 0, 1, Some(Suggestion::SetupKind)))
    );
}

#[test]
fn annotation_is_one_identifier() {
    assert_eq!(
        parse_annotation(&mut new("Hidden rest")),
        Ok(HeaderContent::Annotation(b"Hidden".to_vec()))
    );
    assert_eq!(
        parse_annotation(&mut new("5")),
        Err(error("Expected Identifier", 0, 1, Some(Suggestion::Annotation)))
    );
}

#[test]
fn fragment_runs_to_the_trailing_content() {
    let mut parser = new("6|f=\"a b\"|mute   // shown\nnext");
    assert_eq!(
        parse_fragment(&mut parser, Suggestion::ItemKind),
        Ok(fragment(0, "6|f=\"a b\"|mute"))
    );
    assert_eq!(parser.current_token().range, SourceRange { start: 17, end: 25 });

    let mut parser = new("a b \t");
    assert_eq!(parse_fragment(&mut parser, Suggestion::ItemKind), Ok(fragment(0, "a b")));
    assert_eq!(parser.current_token().kind, TokenKind::Eof);
}

#[test]
fn fragment_must_hold_something() {
    for input in ["", "\n", " x", "// c"] {
        let mut parser = new(input);
        let first = parser.current_token();
        assert_eq!(
            parse_fragment(&mut parser, Suggestion::ItemKind),
            Err(ParseError {
                message: "Expected ItemKind".to_string(),
                range: first.range,
                suggestion: Some(Suggestion::ItemKind),
            })
        );
        assert_eq!(parser.current_token(), first);
    }
}

#[test]
fn command_keeps_what_is_written() {
    assert_eq!(
        parse_command(&mut new("name Example")),
        Ok(HeaderContent::Command(HeaderCommand { source: fragment(0, "name Example") }))
    );
    assert_eq!(
        parse_command(&mut new("\n")),
        Err(error("Expected HeaderCommand", 0, 1, Some(Suggestion::HeaderCommand)))
    );
}

fn pickup(value: V<Vec<u8>>, item: Fragment, ignore: bool, skip_validation: bool) -> HeaderContent {
    HeaderContent::Pickup(VPickup {
        trigger: VUberState { identifier: UberIdentifier { uber_group: 3, uber_id: 0 }, value },
        item: VItem { source: item },
        ignore,
        skip_validation,
    })
}

#[test]
fn pickup_trigger_values() {
    let mut parser = new("3|0|0|100");
    let mut context = ParseContext::new(&mut parser);
    assert_eq!(
        parse_pickup(&mut context, false),
        Ok(pickup(V::Literal(Vec::new()), fragment(4, "0|100"), false, false))
    );

    let mut parser = new("3|0=1|0|100");
    let mut context = ParseContext::new(&mut parser);
    assert_eq!(
        parse_pickup(&mut context, true),
        Ok(pickup(V::Literal(b"1".to_vec()), fragment(6, "0|100"), true, false))
    );

    let mut parser = new("3|0=-1|0|100");
    let mut context = ParseContext::new(&mut parser);
    context.skip_validation = true;
    assert_eq!(
        parse_pickup(&mut context, false),
        Ok(pickup(V::Literal(b"-1".to_vec()), fragment(7, "0|100"), false, true))
    );
    assert!(context.skip_validation);

    let mut parser = new("3|0=$PARAM(level)|0|100");
    let mut context = ParseContext::new(&mut parser);
    assert_eq!(
        parse_pickup(&mut context, false),
        Ok(pickup(V::Parameter(b"level".to_vec()), fragment(18, "0|100"), false, false))
    );
}

#[test]
fn pickup_errors() {
    let mut parser = new("3|0=x|0|100");
    let mut context = ParseContext::new(&mut parser);
    assert_eq!(
        parse_pickup(&mut context, false),
        Err(error("Expected UberTriggerValue", 4, 5, Some(Suggestion::UberTriggerValue)))
    );
    let mut parser = new("3|0=1 0|100");
    let mut context = ParseContext::new(&mut parser);
    assert_eq!(
        parse_pickup(&mut context, false),
        Err(error("Expected Separator", 5, 6, Some(Suggestion::UberTriggerValue)))
    );
    let mut parser = new("3|0");
    let mut context = ParseContext::new(&mut parser);
    assert_eq!(
        parse_pickup(&mut context, false),
        Err(error("Expected Separator", 3, 3, Some(Suggestion::UberId)))
    );
    let mut parser = new("3|0|\n");
    let mut context = ParseContext::new(&mut parser);
    assert_eq!(
        parse_pickup(&mut context, false),
        Err(error("Expected ItemKind", 4, 5, Some(Suggestion::ItemKind)))
    );
}

#[test]
fn expression_is_chosen_by_the_first_token() {
    let mut parser = new("#tag");
    let mut context = ParseContext::new(&mut parser);
    assert_eq!(parse_expression(&mut context), Ok(HeaderContent::Annotation(b"tag".to_vec())));

    let mut parser = new("!!include x");
    let mut context = ParseContext::new(&mut parser);
    assert_eq!(
        parse_expression(&mut context),
        Ok(HeaderContent::Command(HeaderCommand { source: fragment(2, "include x") }))
    );

    let mut parser = new("$PARAM(group)|0|0|1");
    let mut context = ParseContext::new(&mut parser);
    assert_eq!(
        parse_expression(&mut context),
        Err(error("Expected Number", 0, 1, Some(Suggestion::UberGroup)))
    );

    let mut parser = new("other thing");
    let mut context = ParseContext::new(&mut parser);
    assert_eq!(
        parse_expression(&mut context),
        Err(error("Invalid Expression", 0, 5, Some(Suggestion::Expression)))
    );
}

#[test]
fn expression_that_nothing_opens() {
    for input in ["|", "=1", "(", "\"x\"", ".", "-", ":"] {
        let mut parser = new(input);
        let first = parser.current_token();
        let mut context = ParseContext::new(&mut parser);
        assert_eq!(
            parse_expression(&mut context),
            Err(ParseError {
                message: "expected expression".to_string(),
                range: first.range,
                suggestion: Some(Suggestion::Expression),
            })
        );
        assert_eq!(context.parser.current_token(), first);
    }
}

#[test]
fn whitespace_absorbs_comments() {
    let mut parser = new(" \n// skip-validate\n///  Title \r\n////x\n//skip-validate \n// other\n1");
    let mut context = ParseContext::new(&mut parser);
    parse_whitespace(&mut context);
    assert!(context.skip_validation);
    assert_eq!(
        context.contents,
        vec![
            HeaderContent::OuterDocumentation(b"Title".to_vec()),
            HeaderContent::InnerDocumentation(b"x".to_vec()),
        ]
    );
    assert_eq!(context.parser.current_token().kind, TokenKind::Number);

    let mut parser = new("// skip-validate now\n// Skip-Validate\n1");
    let mut context = ParseContext::new(&mut parser);
    parse_whitespace(&mut context);
    assert!(!context.skip_validation);
    assert!(context.contents.is_empty());
}

#[test]
fn new_context_is_empty() {
    let mut parser = new("1|2|3");
    let context = ParseContext::new(&mut parser);
    assert!(context.contents.is_empty());
    assert!(!context.skip_validation);
    assert_eq!(context.parser.current_token().range, SourceRange { start: 0, end: 1 });
}

#[test]
fn recover_resumes_after_the_newline() {
    let mut errors = ParseErrorCollection::new();
    assert!(errors.is_empty());
    let mut parser: Parser = new("a b c\nd");
    recover(error("first", 0, 1, None), &mut errors, &mut parser);
    assert_eq!(parser.current_token().range, SourceRange { start: 6, end: 7 });
    recover(error("second", 6, 7, Some(Suggestion::Zone)), &mut errors, &mut parser);
    assert_eq!(parser.current_token().kind, TokenKind::Eof);
    recover(error("third", 7, 7, None), &mut errors, &mut parser);
    assert_eq!(parser.current_token().range, SourceRange { start: 7, end: 7 });
    assert_eq!(errors.len(), 3);
    assert!(!errors.is_empty());
    assert_eq!(
        errors.errors,
        vec![
            error("first", 0, 1, None),
            error("second", 6, 7, Some(Suggestion::Zone)),
            error("third", 7, 7, None),
        ]
    );
}

#[test]
fn comment_text_is_trimmed_of_every_white_space() {
    let mut parser = new("///\u{a0}x\u{3000}\n////\u{2003}y \u{a0}\n//\u{a0}skip-validate\u{2028}\n1");
    let mut context = ParseContext::new(&mut parser);
    parse_whitespace(&mut context);
    assert!(context.skip_validation);
    assert_eq!(
        context.contents,
        vec![
            HeaderContent::OuterDocumentation(b"x".to_vec()),
            HeaderContent::InnerDocumentation(b"y".to_vec()),
        ]
    );
}
