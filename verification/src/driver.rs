//! The driver: it parses a header statement by statement, records every
//! failure, and resumes on the line after it.
use vstd::prelude::*;
use vstd::slice::{slice_subrange, slice_to_vec};
use vstd::string::StringSliceAdditionalSpecFns;
use vstd::utf8::valid_utf8;
use crate::cursor::{
    eat_step, lemma_eat_step_bounds, lemma_skip_end, skip_end, yields, Parser, Step, TokenClass,
};
use crate::document::{
    contents_view, push_content, HeaderContent, HeaderContentView, VItem, VPickup, VUberState,
};
use crate::error::{ParseError, ParseErrorCollection, ParseErrorView, Suggestion};
use crate::grammar::{
    annotation_step, command_step, fragment_step, lemma_fragment_step_bounds,
    lemma_pickup_step_bounds, lemma_setup_step_bounds, parse_annotation, parse_command,
    parse_fragment, parse_setup, parse_uber_identifier, pickup_step, setup_step,
    ExpressionIdentKind,
};
use crate::lexer::{
    end_at, kind_at, lemma_reaches_leaves_fewer_tokens, lemma_reaches_next, lemma_reaches_trans,
    lemma_token_bounds, lemma_token_shape, marker_len, reaches, token_at, tokens_from,
};
use crate::text::{bytes_eq, trim, trimmed};
use crate::token::{CommentKind, TokenKind};
use crate::value::{lemma_token_step_bounds, parse_ident, parse_v_number, token_step, V};

verus! {

/// The state that is threaded through the parse of one header.
pub struct ParseContext<'a, 'b> {
    pub parser: &'a mut Parser<'b>,
    pub contents: Vec<HeaderContent>,
    pub skip_validation: bool,
}

/// The mathematical content of a [`ParseContext`]: where the cursor stands,
/// the entries so far, and whether the next statement skips validation.
pub struct ContextView {
    pub pos: int,
    pub contents: Seq<HeaderContentView>,
    pub skip_validation: bool,
}

impl<'a, 'b> View for ParseContext<'a, 'b> {
    type V = ContextView;

    open spec fn view(&self) -> ContextView {
        ContextView {
            pos: self.parser.pos(),
            contents: contents_view(self.contents@),
            skip_validation: self.skip_validation,
        }
    }
}

impl<'a, 'b> ParseContext<'a, 'b> {
    /// A context on `parser` with no entries and validation on.
    pub fn new(parser: &'a mut Parser<'b>) -> (context: ParseContext<'a, 'b>)
        ensures
            *context.parser == *old(parser),
            *final(context.parser) == *final(parser),
            context.contents@ == Seq::<HeaderContent>::empty(),
            !context.skip_validation,
    {
        ParseContext { parser, contents: Vec::new(), skip_validation: false }
    }
}

/// A cursor at the start of `input`.
pub fn new(input: &str) -> (parser: Parser<'_>)
    ensures
        parser.wf(),
        parser.text() == input.spec_bytes(),
        parser.pos() == 0,
        valid_utf8(parser.text()),
{
    Parser::new(input)
}

/// A pickup: trigger, separator, item. The pickup takes the context's
/// `skip_validation` as it stands.
pub fn parse_pickup(context: &mut ParseContext, ignore: bool) -> (result: Result<
    HeaderContent,
    ParseError,
>)
    requires
        old(context).parser.wf(),
    ensures
        final(context).parser.wf(),
        final(context).parser.text() == old(context).parser.text(),
        *final(final(context).parser) == *final(old(context).parser),
        final(context).contents == old(context).contents,
        final(context).skip_validation == old(context).skip_validation,
        old(context).parser.pos() <= final(context).parser.pos(),
        yields(
            result,
            final(context).parser.pos(),
            pickup_step(
                old(context).parser.text(),
                old(context).parser.pos(),
                ignore,
                old(context).skip_validation,
            ),
        ),
{
    let identifier = match parse_uber_identifier(context.parser) {
        Err(error) => { return Err(error); },
        Ok(identifier) => identifier,
    };
    let value: V<Vec<u8>>;
    let suggestion: Suggestion;
    if context.parser.current_token().kind == TokenKind::Eq {
        context.parser.next_token();
        value = match parse_v_number::<Vec<u8>>(context.parser, Suggestion::UberTriggerValue) {
            Err(error) => { return Err(error); },
            Ok(value) => value,
        };
        suggestion = Suggestion::UberTriggerValue;
    } else {
        value = V::Literal(Vec::new());
        suggestion = Suggestion::UberId;
    }
    let trigger = VUberState { identifier, value };

    match context.parser.eat_or_suggest(TokenKind::Separator, suggestion) {
        Err(error) => { return Err(error); },
        Ok(_) => {},
    }

    let item = match parse_fragment(context.parser, Suggestion::ItemKind) {
        Err(error) => { return Err(error); },
        Ok(source) => VItem { source },
    };
    let skip_validation = context.skip_validation;

    let pickup = VPickup { trigger, item, ignore, skip_validation };
    Ok(HeaderContent::Pickup(pickup))
}

/// The error of a token that can open no statement.
pub open spec fn expression_error(text: Seq<u8>, pos: int) -> ParseErrorView {
    ParseErrorView {
        message: "expected expression"@,
        range: token_at(text, pos).range,
        suggestion: Some(Suggestion::Expression),
    }
}

/// One statement, chosen by its first token: a keyword opens a setup, two
/// bangs a command, one bang a pickup that removes, a number or the
/// interpolation sigil a pickup that grants, a pound sign an annotation.
/// Any other token is left in place and reported.
pub open spec fn expression_step(text: Seq<u8>, pos: int, skip_validation: bool) -> Step<
    HeaderContentView,
> {
    match kind_at(text, pos) {
        TokenKind::Identifier => {
            let kind = token_step::<ExpressionIdentKind>(
                text,
                pos,
                TokenKind::Identifier,
                Suggestion::Expression,
            );
            match kind.result {
                Err(error) => Step { result: Err(error), pos: kind.pos },
                Ok(_) => setup_step(
                    text,
                    skip_end(text, kind.pos, TokenClass::Kind(TokenKind::Whitespace)),
                ),
            }
        },
        TokenKind::Bang => {
            if kind_at(text, end_at(text, pos)) == TokenKind::Bang {
                command_step(text, end_at(text, end_at(text, pos)))
            } else {
                pickup_step(text, end_at(text, pos), true, skip_validation)
            }
        },
        TokenKind::Number | TokenKind::Dollar => pickup_step(text, pos, false, skip_validation),
        TokenKind::Pound => annotation_step(text, end_at(text, pos)),
        _ => Step { result: Err(expression_error(text, pos)), pos },
    }
}

/// One statement.
pub fn parse_expression(context: &mut ParseContext) -> (result: Result<HeaderContent, ParseError>)
    requires
        old(context).parser.wf(),
    ensures
        final(context).parser.wf(),
        final(context).parser.text() == old(context).parser.text(),
        *final(final(context).parser) == *final(old(context).parser),
        final(context).contents == old(context).contents,
        final(context).skip_validation == old(context).skip_validation,
        old(context).parser.pos() <= final(context).parser.pos(),
        yields(
            result,
            final(context).parser.pos(),
            expression_step(
                old(context).parser.text(),
                old(context).parser.pos(),
                old(context).skip_validation,
            ),
        ),
{
    let current_token = context.parser.current_token();
    match current_token.kind {
        TokenKind::Identifier => {
            let kind = match parse_ident::<ExpressionIdentKind>(
                context.parser,
                Suggestion::Expression,
            ) {
                Err(error) => { return Err(error); },
                Ok(kind) => kind,
            };
            context.parser.skip(TokenKind::Whitespace);
            match kind {
                ExpressionIdentKind::Setup => parse_setup(context.parser),
            }
        },
        TokenKind::Bang => {
            context.parser.next_token();
            if context.parser.current_token().kind == TokenKind::Bang {
                context.parser.next_token();
                parse_command(context.parser)
            } else {
                parse_pickup(context, true)
            }
        },
        TokenKind::Number | TokenKind::Dollar => parse_pickup(context, false),
        TokenKind::Pound => {
            context.parser.next_token();
            parse_annotation(context.parser)
        },
        _ => Err(
            context.parser.error("expected expression", current_token.range).with_suggestion(
                Suggestion::Expression,
            ),
        ),
    }
}

/// The text of the comment at `pos` after its marker of `marker` slashes,
/// trimmed.
pub open spec fn comment_body(text: Seq<u8>, pos: int, marker: int) -> Seq<u8> {
    trimmed(text.subrange(pos + marker, end_at(text, pos)))
}

/// What a comment between statements leaves behind: a note that says
/// `skip-validate` switches validation off for the next statement, and
/// documentation becomes an entry.
pub open spec fn absorb_comment(text: Seq<u8>, kind: CommentKind, context: ContextView) -> ContextView {
    match kind {
        CommentKind::Note => ContextView {
            skip_validation: context.skip_validation || comment_body(text, context.pos, 2)
                == "skip-validate".spec_bytes(),
            ..context
        },
        CommentKind::HeaderDoc => ContextView {
            contents: context.contents.push(
                HeaderContentView::OuterDocumentation(comment_body(text, context.pos, 3)),
            ),
            ..context
        },
        CommentKind::ConfigDoc => ContextView {
            contents: context.contents.push(
                HeaderContentView::InnerDocumentation(comment_body(text, context.pos, 4)),
            ),
            ..context
        },
    }
}

/// Passing over what stands between statements: white space and newlines
/// are dropped, comments are absorbed, and the cursor stops at the first
/// token of another kind.
pub open spec fn whitespace_step(text: Seq<u8>, context: ContextView) -> ContextView
    decreases text.len() - context.pos,
{
    if 0 <= context.pos < end_at(text, context.pos) <= text.len() {
        match kind_at(text, context.pos) {
            TokenKind::Newline | TokenKind::Whitespace => whitespace_step(
                text,
                ContextView { pos: end_at(text, context.pos), ..context },
            ),
            TokenKind::Comment { kind } => whitespace_step(
                text,
                ContextView {
                    pos: end_at(text, context.pos),
                    ..absorb_comment(text, kind, context)
                },
            ),
            _ => context,
        }
    } else {
        context
    }
}

/// Passes over what stands between statements.
pub fn parse_whitespace(context: &mut ParseContext)
    requires
        old(context).parser.wf(),
    ensures
        final(context).parser.wf(),
        final(context).parser.text() == old(context).parser.text(),
        *final(final(context).parser) == *final(old(context).parser),
        old(context).parser.pos() <= final(context).parser.pos(),
        final(context)@ == whitespace_step(old(context).parser.text(), old(context)@),
{
    loop
        invariant
            context.parser.wf(),
            context.parser.text() == old(context).parser.text(),
            *final(context.parser) == *final(old(context).parser),
            old(context).parser.pos() <= context.parser.pos(),
            whitespace_step(context.parser.text(), context@) == whitespace_step(
                old(context).parser.text(),
                old(context)@,
            ),
        ensures
            context.parser.wf(),
            context.parser.text() == old(context).parser.text(),
            *final(context.parser) == *final(old(context).parser),
            old(context).parser.pos() <= context.parser.pos(),
            context@ == whitespace_step(old(context).parser.text(), old(context)@),
        decreases context.parser.text().len() - context.parser.pos(),
    {
        proof {
            context.parser.lemma_bounds();
            lemma_token_bounds(context.parser.text(), context.parser.pos());
            if context.parser.pos() < context.parser.text().len() {
                lemma_token_shape(context.parser.text(), context.parser.pos());
            }
        }
        let current_token = context.parser.current_token();
        match current_token.kind {
            TokenKind::Newline | TokenKind::Whitespace => {},
            TokenKind::Comment { kind } => {
                let comment = context.parser.read_token(&current_token);
                match kind {
                    CommentKind::Note => {
                        let body = trim(slice_subrange(comment, 2, comment.len()));
                        if bytes_eq(body, "skip-validate".as_bytes()) {
                            context.skip_validation = true;
                        }
                    },
                    CommentKind::HeaderDoc => {
                        let body = trim(slice_subrange(comment, 3, comment.len()));
                        push_content(
                            &mut context.contents,
                            HeaderContent::OuterDocumentation(slice_to_vec(body)),
                        );
                    },
                    CommentKind::ConfigDoc => {
                        let body = trim(slice_subrange(comment, 4, comment.len()));
                        push_content(
                            &mut context.contents,
                            HeaderContent::InnerDocumentation(slice_to_vec(body)),
                        );
                    },
                }
                proof {
                    let text = context.parser.text();
                    let pos = context.parser.pos();
                    assert(comment@.subrange(marker_len(kind), comment@.len() as int)
                        =~= text.subrange(pos + marker_len(kind), end_at(text, pos)));
                }
            },
            _ => {
                break ;
            },
        }
        context.parser.next_token();
    }
}

/// The offset at which parsing resumes after an error at `pos`: past the
/// next newline, or at the end of the text where none follows.
pub open spec fn recover_pos(text: Seq<u8>, pos: int) -> int {
    end_at(text, skip_end(text, pos, TokenClass::Line))
}

/// Recovery ends inside the text, and from any token but `Eof` it moves the
/// cursor forward.
pub proof fn lemma_recover_advances(text: Seq<u8>, pos: int)
    requires
        0 <= pos <= text.len(),
    ensures
        pos <= recover_pos(text, pos) <= text.len(),
        kind_at(text, pos) != TokenKind::Eof ==> pos < recover_pos(text, pos),
{
    lemma_skip_end(text, pos, TokenClass::Line);
    lemma_token_bounds(text, pos);
    lemma_token_bounds(text, skip_end(text, pos, TokenClass::Line));
    if kind_at(text, pos) != TokenKind::Eof && kind_at(text, pos) != TokenKind::Newline {
        lemma_skip_end(text, end_at(text, pos), TokenClass::Line);
    }
}

/// Records `err` and moves the cursor to where parsing can resume: past the
/// rest of the line and its newline.
pub fn recover(err: ParseError, errors: &mut ParseErrorCollection, parser: &mut Parser)
    requires
        old(parser).wf(),
    ensures
        final(errors)@ == old(errors)@.push(err@),
        final(parser).wf(),
        final(parser).text() == old(parser).text(),
        final(parser).pos() == recover_pos(old(parser).text(), old(parser).pos()),
        old(parser).pos() <= final(parser).pos(),
        kind_at(old(parser).text(), old(parser).pos()) != TokenKind::Eof ==> old(parser).pos()
            < final(parser).pos(),
{
    proof {
        parser.lemma_bounds();
        lemma_recover_advances(parser.text(), parser.pos());
    }
    errors.push(err);
    parser.skip_while(TokenClass::Line);
    parser.next_token();
}

/// The state of the driver after one round of its loop.
pub struct Round {
    /// The end of the text was reached: no round follows.
    pub done: bool,
    pub pos: int,
    pub contents: Seq<HeaderContentView>,
    pub errors: Seq<ParseErrorView>,
}

/// One round of the driver, entered with validation on: what stands between
/// statements is passed; at the end of the text the driver is done;
/// otherwise one statement is parsed. A statement that parses is appended,
/// and must be followed, trivia aside, by a newline or the end of the text.
/// Any failure is recorded, and the round ends past the next newline.
pub open spec fn round_step(
    text: Seq<u8>,
    pos: int,
    contents: Seq<HeaderContentView>,
    errors: Seq<ParseErrorView>,
) -> Round {
    let context = whitespace_step(text, ContextView { pos, contents, skip_validation: false });
    if kind_at(text, context.pos) == TokenKind::Eof {
        Round { done: true, pos: context.pos, contents: context.contents, errors }
    } else {
        let statement = expression_step(text, context.pos, context.skip_validation);
        match statement.result {
            Ok(content) => {
                let end = skip_end(text, statement.pos, TokenClass::Trivia);
                let newline = eat_step(text, end, TokenKind::Newline, None);
                if kind_at(text, end) == TokenKind::Eof {
                    Round { done: true, pos: end, contents: context.contents.push(content), errors }
                } else {
                    match newline.result {
                        Ok(_) => Round {
                            done: false,
                            pos: newline.pos,
                            contents: context.contents.push(content),
                            errors,
                        },
                        Err(error) => Round {
                            done: false,
                            pos: recover_pos(text, end),
                            contents: context.contents.push(content),
                            errors: errors.push(error),
                        },
                    }
                }
            },
            Err(error) => Round {
                done: false,
                pos: recover_pos(text, statement.pos),
                contents: context.contents,
                errors: errors.push(error),
            },
        }
    }
}

/// The driver: rounds follow one another from `pos` until one is done.
pub open spec fn drive(
    text: Seq<u8>,
    pos: int,
    contents: Seq<HeaderContentView>,
    errors: Seq<ParseErrorView>,
) -> Round
    decreases text.len() - pos,
{
    let round = round_step(text, pos, contents, errors);
    if !round.done && pos < round.pos <= text.len() {
        drive(text, round.pos, round.contents, round.errors)
    } else {
        round
    }
}

/// What parsing the text from `pos` on comes to: the entries in source
/// order where no error was recorded, else the errors in the order in which
/// they were found.
pub open spec fn header_outcome(text: Seq<u8>, pos: int) -> Result<
    Seq<HeaderContentView>,
    Seq<ParseErrorView>,
> {
    let end = drive(text, pos, Seq::empty(), Seq::empty());
    if end.errors.len() == 0 {
        Ok(end.contents)
    } else {
        Err(end.errors)
    }
}

/// Parses a whole header. Every line is parsed, whatever failed before it;
/// the entries are returned only where nothing failed.
pub fn parse_header_contents(parser: &mut Parser) -> (result: Result<
    Vec<HeaderContent>,
    ParseErrorCollection,
>)
    requires
        old(parser).wf(),
    ensures
        final(parser).wf(),
        final(parser).text() == old(parser).text(),
        final(parser).pos() == old(parser).text().len(),
        match result {
            Ok(contents) => header_outcome(old(parser).text(), old(parser).pos()) == Ok::<
                Seq<HeaderContentView>,
                Seq<ParseErrorView>,
            >(contents_view(contents@)),
            Err(errors) => 0 < errors@.len() < tokens_from(
                old(parser).text(),
                old(parser).pos(),
            ).len() && header_outcome(old(parser).text(), old(parser).pos()) == Err::<
                Seq<HeaderContentView>,
                Seq<ParseErrorView>,
            >(errors@),
        },
{
    let ghost text = parser.text();
    let ghost start = parser.pos();
    proof {
        parser.lemma_bounds();
        lemma_drive_is_bounded_by_tokens(text, start, Seq::empty(), Seq::empty());
    }
    let ghost last = *final(parser);
    let mut context = ParseContext::new(parser);
    let mut errors = ParseErrorCollection::new();
    assert(contents_view(context.contents@) =~= Seq::empty());

    loop
        invariant_except_break
            !context.skip_validation,
            drive(text, start, Seq::empty(), Seq::empty()) == drive(
                text,
                context.parser.pos(),
                contents_view(context.contents@),
                errors@,
            ),
        invariant
            context.parser.wf(),
            context.parser.text() == text,
            *final(context.parser) == last,
        ensures
            context.parser.pos() == text.len(),
            drive(text, start, Seq::empty(), Seq::empty()).contents == contents_view(
                context.contents@,
            ),
            drive(text, start, Seq::empty(), Seq::empty()).errors == errors@,
        decreases text.len() - context.parser.pos(),
    {
        let ghost before = context.parser.pos();
        proof {
            context.parser.lemma_bounds();
        }
        parse_whitespace(&mut context);
        proof {
            context.parser.lemma_bounds();
            lemma_token_bounds(text, context.parser.pos());
        }
        if context.parser.current_token().kind == TokenKind::Eof {
            break ;
        }
        match parse_expression(&mut context) {
            Ok(header_content) => {
                push_content(&mut context.contents, header_content);
                context.parser.skip_while(TokenClass::Trivia);
                proof {
                    context.parser.lemma_bounds();
                    lemma_token_bounds(text, context.parser.pos());
                }
                if context.parser.current_token().kind == TokenKind::Eof {
                    break ;
                }
                if let Err(err) = context.parser.eat(TokenKind::Newline) {
                    recover(err, &mut errors, context.parser);
                }
            },
            Err(err) => recover(err, &mut errors, context.parser),
        }
        context.skip_validation = false;
        proof {
            context.parser.lemma_bounds();
            assert(before < context.parser.pos());
        }
    }

    if errors.is_empty() {
        Ok(context.contents)
    } else {
        Err(errors)
    }
}

/// A statement, parsed or not, leaves the cursor inside the text, at a
/// place reached from where it started.
pub proof fn lemma_expression_step_bounds(text: Seq<u8>, pos: int, skip_validation: bool)
    requires
        0 <= pos <= text.len(),
    ensures
        pos <= expression_step(text, pos, skip_validation).pos <= text.len(),
        reaches(text, pos, expression_step(text, pos, skip_validation).pos),
{
    lemma_token_bounds(text, pos);
    lemma_reaches_next(text, pos);
    let after = end_at(text, pos);
    lemma_token_bounds(text, after);
    lemma_reaches_next(text, after);
    match kind_at(text, pos) {
        TokenKind::Identifier => {
            let kind = token_step::<ExpressionIdentKind>(
                text,
                pos,
                TokenKind::Identifier,
                Suggestion::Expression,
            );
            let kind_end = skip_end(text, kind.pos, TokenClass::Kind(TokenKind::Whitespace));
            lemma_skip_end(text, kind.pos, TokenClass::Kind(TokenKind::Whitespace));
            lemma_setup_step_bounds(text, kind_end);
            lemma_reaches_trans(text, pos, kind.pos, kind_end);
            lemma_reaches_trans(text, pos, kind_end, setup_step(text, kind_end).pos);
        },
        TokenKind::Bang => {
            let second = end_at(text, after);
            lemma_reaches_trans(text, pos, after, second);
            lemma_fragment_step_bounds(text, second, Suggestion::HeaderCommand);
            lemma_reaches_trans(
                text,
                pos,
                second,
                fragment_step(text, second, Suggestion::HeaderCommand).pos,
            );
            lemma_pickup_step_bounds(text, after, true, skip_validation);
            lemma_reaches_trans(
                text,
                pos,
                after,
                pickup_step(text, after, true, skip_validation).pos,
            );
        },
        TokenKind::Number | TokenKind::Dollar => {
            lemma_pickup_step_bounds(text, pos, false, skip_validation);
        },
        TokenKind::Pound => {
            lemma_token_step_bounds::<Vec<u8>>(
                text,
                after,
                TokenKind::Identifier,
                Suggestion::Annotation,
            );
            lemma_reaches_trans(
                text,
                pos,
                after,
                token_step::<Vec<u8>>(
                    text,
                    after,
                    TokenKind::Identifier,
                    Suggestion::Annotation,
                ).pos,
            );
        },
        _ => {},
    }
}

/// Passing over what stands between statements ends inside the text, at a
/// place reached from the start, at a token that is neither white space,
/// nor a newline, nor a comment. The entries before it stay, in their
/// order.
pub proof fn lemma_whitespace_step(text: Seq<u8>, context: ContextView)
    requires
        0 <= context.pos <= text.len(),
    ensures
        context.pos <= whitespace_step(text, context).pos <= text.len(),
        reaches(text, context.pos, whitespace_step(text, context).pos),
        !TokenClass::Trivia.admits(kind_at(text, whitespace_step(text, context).pos)),
        kind_at(text, whitespace_step(text, context).pos) != TokenKind::Newline,
        context.contents.is_prefix_of(whitespace_step(text, context).contents),
    decreases text.len() - context.pos,
{
    lemma_token_bounds(text, context.pos);
    if context.pos < text.len() {
        match kind_at(text, context.pos) {
            TokenKind::Newline | TokenKind::Whitespace => {
                lemma_whitespace_step(
                    text,
                    ContextView { pos: end_at(text, context.pos), ..context },
                );
            },
            TokenKind::Comment { kind } => {
                let next = ContextView {
                    pos: end_at(text, context.pos),
                    ..absorb_comment(text, kind, context)
                };
                lemma_whitespace_step(text, next);
            },
            _ => {},
        }
    }
}

/// Recovery ends at a place reached from where it started.
pub proof fn lemma_recover_reaches(text: Seq<u8>, pos: int)
    requires
        0 <= pos <= text.len(),
    ensures
        reaches(text, pos, recover_pos(text, pos)),
{
    let line_end = skip_end(text, pos, TokenClass::Line);
    lemma_skip_end(text, pos, TokenClass::Line);
    lemma_reaches_next(text, line_end);
    lemma_reaches_trans(text, pos, line_end, end_at(text, line_end));
}

/// A round that is not the last one moves the cursor forward: whatever was
/// recorded, at least one token was consumed before the next round starts.
/// What was found before the round stays: entries and errors are only ever
/// appended, and a round records one error at most.
pub proof fn lemma_round_advances(
    text: Seq<u8>,
    pos: int,
    contents: Seq<HeaderContentView>,
    errors: Seq<ParseErrorView>,
)
    requires
        0 <= pos <= text.len(),
    ensures
        pos <= round_step(text, pos, contents, errors).pos <= text.len(),
        reaches(text, pos, round_step(text, pos, contents, errors).pos),
        !round_step(text, pos, contents, errors).done ==> pos < round_step(
            text,
            pos,
            contents,
            errors,
        ).pos,
        round_step(text, pos, contents, errors).done ==> round_step(text, pos, contents, errors).pos
            == text.len() && round_step(text, pos, contents, errors).errors == errors,
        contents.is_prefix_of(round_step(text, pos, contents, errors).contents),
        errors.is_prefix_of(round_step(text, pos, contents, errors).errors),
        round_step(text, pos, contents, errors).errors.len() <= errors.len() + 1,
{
    let start = ContextView { pos, contents, skip_validation: false };
    let context = whitespace_step(text, start);
    lemma_whitespace_step(text, start);
    lemma_token_bounds(text, context.pos);
    if kind_at(text, context.pos) != TokenKind::Eof {
        let statement = expression_step(text, context.pos, context.skip_validation);
        lemma_expression_step_bounds(text, context.pos, context.skip_validation);
        lemma_reaches_trans(text, pos, context.pos, statement.pos);
        lemma_token_bounds(text, statement.pos);
        lemma_recover_advances(text, statement.pos);
        lemma_recover_reaches(text, statement.pos);
        lemma_reaches_trans(text, pos, statement.pos, recover_pos(text, statement.pos));
        let end = skip_end(text, statement.pos, TokenClass::Trivia);
        lemma_skip_end(text, statement.pos, TokenClass::Trivia);
        lemma_reaches_trans(text, pos, statement.pos, end);
        lemma_token_bounds(text, end);
        lemma_recover_advances(text, end);
        lemma_recover_reaches(text, end);
        lemma_reaches_trans(text, pos, end, recover_pos(text, end));
        lemma_eat_step_bounds(text, end, TokenKind::Newline, None);
        lemma_reaches_trans(text, pos, end, eat_step(text, end, TokenKind::Newline, None).pos);
    }
}

/// The driver always comes to the end of the text, and what it holds then
/// extends what it was started with.
pub proof fn lemma_drive_completes(
    text: Seq<u8>,
    pos: int,
    contents: Seq<HeaderContentView>,
    errors: Seq<ParseErrorView>,
)
    requires
        0 <= pos <= text.len(),
    ensures
        drive(text, pos, contents, errors).done,
        drive(text, pos, contents, errors).pos == text.len(),
        contents.is_prefix_of(drive(text, pos, contents, errors).contents),
        errors.is_prefix_of(drive(text, pos, contents, errors).errors),
    decreases text.len() - pos,
{
    let round = round_step(text, pos, contents, errors);
    lemma_round_advances(text, pos, contents, errors);
    if !round.done {
        lemma_drive_completes(text, round.pos, round.contents, round.errors);
    }
}

/// The number of rounds that the driver makes from `pos` on.
pub open spec fn drive_rounds(
    text: Seq<u8>,
    pos: int,
    contents: Seq<HeaderContentView>,
    errors: Seq<ParseErrorView>,
) -> nat
    decreases text.len() - pos,
{
    let round = round_step(text, pos, contents, errors);
    if !round.done && pos < round.pos <= text.len() {
        1 + drive_rounds(text, round.pos, round.contents, round.errors)
    } else {
        1
    }
}

/// The work of the driver is bounded by the number of tokens: it makes no
/// more rounds than tokens are left to read, `Eof` included, and since
/// every round but the last consumes a token and records one error at
/// most, it records fewer errors than that.
pub proof fn lemma_drive_is_bounded_by_tokens(
    text: Seq<u8>,
    pos: int,
    contents: Seq<HeaderContentView>,
    errors: Seq<ParseErrorView>,
)
    requires
        0 <= pos <= text.len(),
    ensures
        drive_rounds(text, pos, contents, errors) <= tokens_from(text, pos).len(),
        drive(text, pos, contents, errors).errors.len() < errors.len() + drive_rounds(
            text,
            pos,
            contents,
            errors,
        ),
        drive(text, pos, contents, errors).errors.len() < errors.len() + tokens_from(
            text,
            pos,
        ).len(),
    decreases text.len() - pos,
{
    let round = round_step(text, pos, contents, errors);
    lemma_round_advances(text, pos, contents, errors);
    lemma_reaches_leaves_fewer_tokens(text, pos, round.pos);
    if !round.done {
        lemma_drive_is_bounded_by_tokens(text, round.pos, round.contents, round.errors);
    }
}

/// A header parses to entries or to errors, never to both: a document is
/// the outcome exactly where no round recorded an error, and the errors of
/// a failed parse are never empty.
pub proof fn lemma_outcome_is_exclusive(text: Seq<u8>, pos: int)
    ensures
        header_outcome(text, pos) is Ok <==> drive(text, pos, Seq::empty(), Seq::empty()).errors.len()
            == 0,
        header_outcome(text, pos) matches Err(errors) ==> errors.len() > 0,
{
}

/// The switch that a `skip-validate` note sets holds for the statement of
/// that round and no further: a statement that a round meets at once,
/// with nothing but white space and newlines before it, is parsed with
/// validation on; after a note that says `skip-validate`, the statement of
/// the same round is parsed with validation off.
pub proof fn lemma_skip_validate_scope(
    text: Seq<u8>,
    pos: int,
    contents: Seq<HeaderContentView>,
    errors: Seq<ParseErrorView>,
)
    requires
        0 <= pos <= text.len(),
    ensures
        !(kind_at(text, pos) is Comment) && kind_at(text, pos) != TokenKind::Whitespace && kind_at(
            text,
            pos,
        ) != TokenKind::Newline ==> whitespace_step(
            text,
            ContextView { pos, contents, skip_validation: false },
        ) == (ContextView { pos, contents, skip_validation: false }),
        kind_at(text, pos) == (TokenKind::Comment { kind: CommentKind::Note }) && comment_body(
            text,
            pos,
            2,
        ) == "skip-validate".spec_bytes() ==> whitespace_step(
            text,
            ContextView { pos, contents, skip_validation: false },
        ) == whitespace_step(
            text,
            ContextView { pos: end_at(text, pos), contents, skip_validation: true },
        ),
        forall|context: ContextView|
            0 <= context.pos <= text.len() && context.skip_validation ==> (#[trigger] whitespace_step(
                text,
                context,
            )).skip_validation,
{
    lemma_token_bounds(text, pos);
    assert forall|context: ContextView|
        0 <= context.pos <= text.len() && context.skip_validation implies (#[trigger] whitespace_step(
        text,
        context,
    )).skip_validation by {
        lemma_skip_validation_stays(text, context);
    }
}

/// Once switched off, validation stays off until the statement is reached.
pub proof fn lemma_skip_validation_stays(text: Seq<u8>, context: ContextView)
    requires
        0 <= context.pos <= text.len(),
        context.skip_validation,
    ensures
        whitespace_step(text, context).skip_validation,
    decreases text.len() - context.pos,
{
    lemma_token_bounds(text, context.pos);
    if context.pos < text.len() {
        match kind_at(text, context.pos) {
            TokenKind::Newline | TokenKind::Whitespace => {
                lemma_skip_validation_stays(
                    text,
                    ContextView { pos: end_at(text, context.pos), ..context },
                );
            },
            TokenKind::Comment { kind } => {
                lemma_skip_validation_stays(
                    text,
                    ContextView {
                        pos: end_at(text, context.pos),
                        ..absorb_comment(text, kind, context)
                    },
                );
            },
            _ => {},
        }
    }
}

} // verus!
