//! The statement grammar: uber identifiers, icons, setups, annotations,
//! commands and pickups.
use vstd::prelude::*;
use vstd::slice::slice_to_vec;
use vstd::string::StringSliceAdditionalSpecFns;
use crate::cursor::{
    eat_step, lemma_eat_step_bounds, lemma_skip_end, skip_end, yields, Parser, Step, TokenClass,
};
use crate::decode::{is_keyword, spells, Decode};
use crate::document::{
    Fragment, FragmentView, HeaderCommand, HeaderContent, HeaderContentView, Icon, IconView, Setup,
    SetupTimer, UberIdentifier, VPickupView, VUberStateView,
};
use crate::error::{ParseError, ParseErrorView, Suggestion};
use crate::lexer::{
    end_at, is_blank, kind_at, lemma_reaches_next, lemma_reaches_trans, lemma_run_start,
    lemma_token_bounds, lemma_token_shape, reaches, run_start, scan_back, token_at, ByteClass,
};
use crate::token::{SourceRange, TokenKind};
use crate::value::{
    expected_error, lemma_token_step_bounds, lemma_v_or_kind_step_bounds, parse_ident,
    parse_number, token_step, v_or_kind_step, VView,
};

verus! {

/// The kinds of icon that the grammar knows.
#[derive(Clone, Copy, Debug, PartialEq, Eq, Structural)]
pub enum IconKind {
    Shard,
    Spell,
    Opher,
    Lupo,
    Grom,
    Tuley,
    File,
}

impl View for IconKind {
    type V = IconKind;

    open spec fn view(&self) -> IconKind {
        *self
    }
}

impl Decode for IconKind {
    open spec fn decode(text: Seq<u8>) -> Option<IconKind> {
        if spells(text, "shard".spec_bytes()) {
            Some(IconKind::Shard)
        } else if spells(text, "spell".spec_bytes()) {
            Some(IconKind::Spell)
        } else if spells(text, "opher".spec_bytes()) {
            Some(IconKind::Opher)
        } else if spells(text, "lupo".spec_bytes()) {
            Some(IconKind::Lupo)
        } else if spells(text, "grom".spec_bytes()) {
            Some(IconKind::Grom)
        } else if spells(text, "tuley".spec_bytes()) {
            Some(IconKind::Tuley)
        } else if spells(text, "file".spec_bytes()) {
            Some(IconKind::File)
        } else {
            None
        }
    }

    fn from_text(text: &[u8]) -> (value: Option<IconKind>) {
        if is_keyword(text, "shard") {
            Some(IconKind::Shard)
        } else if is_keyword(text, "spell") {
            Some(IconKind::Spell)
        } else if is_keyword(text, "opher") {
            Some(IconKind::Opher)
        } else if is_keyword(text, "lupo") {
            Some(IconKind::Lupo)
        } else if is_keyword(text, "grom") {
            Some(IconKind::Grom)
        } else if is_keyword(text, "tuley") {
            Some(IconKind::Tuley)
        } else if is_keyword(text, "file") {
            Some(IconKind::File)
        } else {
            None
        }
    }
}

/// The keywords that can open a statement.
#[derive(Clone, Copy, Debug, PartialEq, Eq, Structural)]
pub enum ExpressionIdentKind {
    Setup,
}

impl View for ExpressionIdentKind {
    type V = ExpressionIdentKind;

    open spec fn view(&self) -> ExpressionIdentKind {
        *self
    }
}

impl Decode for ExpressionIdentKind {
    open spec fn decode(text: Seq<u8>) -> Option<ExpressionIdentKind> {
        if spells(text, "setup".spec_bytes()) {
            Some(ExpressionIdentKind::Setup)
        } else {
            None
        }
    }

    fn from_text(text: &[u8]) -> (value: Option<ExpressionIdentKind>) {
        if is_keyword(text, "setup") {
            Some(ExpressionIdentKind::Setup)
        } else {
            None
        }
    }
}

/// The kinds of setup.
#[derive(Clone, Copy, Debug, PartialEq, Eq, Structural)]
pub enum SetupKind {
    Timer,
}

impl View for SetupKind {
    type V = SetupKind;

    open spec fn view(&self) -> SetupKind {
        *self
    }
}

impl Decode for SetupKind {
    open spec fn decode(text: Seq<u8>) -> Option<SetupKind> {
        if spells(text, "timer".spec_bytes()) {
            Some(SetupKind::Timer)
        } else {
            None
        }
    }

    fn from_text(text: &[u8]) -> (value: Option<SetupKind>) {
        if is_keyword(text, "timer") {
            Some(SetupKind::Timer)
        } else {
            None
        }
    }
}

/// An error with a fixed message at the token that starts at `pos`.
pub open spec fn error_at(text: Seq<u8>, pos: int, message: Seq<char>) -> ParseErrorView {
    ParseErrorView { message, range: token_at(text, pos).range, suggestion: None }
}

/// A quoted string: the token at `pos` is consumed; it must be a string
/// with its closing quote, and the result is what stands between the quotes.
pub open spec fn string_step(text: Seq<u8>, pos: int) -> Step<Seq<u8>> {
    Step {
        result: match kind_at(text, pos) {
            TokenKind::String { terminated: true } => Ok(
                text.subrange(pos + 1, end_at(text, pos) - 1),
            ),
            TokenKind::String { terminated: false } => Err(
                error_at(text, pos, "Unterminated string"@),
            ),
            _ => Err(error_at(text, pos, "Expected string"@)),
        },
        pos: end_at(text, pos),
    }
}

/// An uber identifier: group, separator, id.
pub open spec fn uber_identifier_step(text: Seq<u8>, pos: int) -> Step<UberIdentifier> {
    let group = token_step::<u32>(text, pos, TokenKind::Number, Suggestion::UberGroup);
    match group.result {
        Err(error) => Step { result: Err(error), pos: group.pos },
        Ok(uber_group) => {
            let separator = eat_step(
                text,
                group.pos,
                TokenKind::Separator,
                Some(Suggestion::UberGroup),
            );
            match separator.result {
                Err(error) => Step { result: Err(error), pos: separator.pos },
                Ok(_) => {
                    let id = token_step::<u32>(
                        text,
                        separator.pos,
                        TokenKind::Number,
                        Suggestion::UberId,
                    );
                    match id.result {
                        Err(error) => Step { result: Err(error), pos: id.pos },
                        Ok(uber_id) => Step {
                            result: Ok(UberIdentifier { uber_group, uber_id }),
                            pos: id.pos,
                        },
                    }
                },
            }
        },
    }
}

/// The suggestion that goes with the index of an icon of `kind`.
pub open spec fn icon_suggestion(kind: IconKind) -> Suggestion {
    match kind {
        IconKind::Shard => Suggestion::ShardIcon,
        IconKind::Spell => Suggestion::SpellIcon,
        IconKind::Opher => Suggestion::OpherIcon,
        IconKind::Lupo => Suggestion::LupoIcon,
        IconKind::Grom => Suggestion::GromIcon,
        IconKind::Tuley => Suggestion::TuleyIcon,
        IconKind::File => Suggestion::IconKind,
    }
}

/// The icon of `kind` with the given index; `File` has no index.
pub open spec fn indexed_icon(kind: IconKind, index: u32) -> IconView {
    match kind {
        IconKind::Shard => IconView::Shard(index),
        IconKind::Spell => IconView::Spell(index),
        IconKind::Opher => IconView::Opher(index),
        IconKind::Lupo => IconView::Lupo(index),
        IconKind::Grom => IconView::Grom(index),
        IconKind::Tuley => IconView::Tuley(index),
        IconKind::File => IconView::File(Seq::empty()),
    }
}

/// What follows the colon of an icon of `kind`: a path in quotes for a
/// file, an index for the others.
pub open spec fn icon_body_step(text: Seq<u8>, pos: int, kind: IconKind) -> Step<IconView> {
    if kind == IconKind::File {
        string_step(text, pos).map(|path: Seq<u8>| IconView::File(path))
    } else {
        token_step::<u32>(text, pos, TokenKind::Number, icon_suggestion(kind)).map(
            |index: u32| indexed_icon(kind, index),
        )
    }
}

/// An icon: its kind, a colon, and its index or path.
pub open spec fn icon_step(text: Seq<u8>, pos: int) -> Step<IconView> {
    let kind = token_step::<IconKind>(text, pos, TokenKind::Identifier, Suggestion::IconKind);
    match kind.result {
        Err(error) => Step { result: Err(error), pos: kind.pos },
        Ok(icon_kind) => {
            let colon = eat_step(text, kind.pos, TokenKind::Colon, Some(Suggestion::IconKind));
            match colon.result {
                Err(error) => Step { result: Err(error), pos: colon.pos },
                Ok(_) => icon_body_step(text, colon.pos, icon_kind),
            }
        },
    }
}

/// A timer: two uber identifiers with a separator between them.
pub open spec fn timer_step(text: Seq<u8>, pos: int) -> Step<Setup> {
    let switch = uber_identifier_step(text, pos);
    match switch.result {
        Err(error) => Step { result: Err(error), pos: switch.pos },
        Ok(switch_id) => {
            let separator = eat_step(
                text,
                switch.pos,
                TokenKind::Separator,
                Some(Suggestion::UberId),
            );
            match separator.result {
                Err(error) => Step { result: Err(error), pos: separator.pos },
                Ok(_) => {
                    let counter = uber_identifier_step(text, separator.pos);
                    match counter.result {
                        Err(error) => Step { result: Err(error), pos: counter.pos },
                        Ok(counter_id) => Step {
                            result: Ok(
                                Setup::Timer(SetupTimer { switch: switch_id, counter: counter_id }),
                            ),
                            pos: counter.pos,
                        },
                    }
                },
            }
        },
    }
}

/// A setup: its kind, a separator, and what the kind asks for.
pub open spec fn setup_step(text: Seq<u8>, pos: int) -> Step<HeaderContentView> {
    let kind = token_step::<SetupKind>(text, pos, TokenKind::Identifier, Suggestion::SetupKind);
    match kind.result {
        Err(error) => Step { result: Err(error), pos: kind.pos },
        Ok(_) => {
            let separator = eat_step(
                text,
                kind.pos,
                TokenKind::Separator,
                Some(Suggestion::SetupKind),
            );
            match separator.result {
                Err(error) => Step { result: Err(error), pos: separator.pos },
                Ok(_) => timer_step(text, separator.pos).map(
                    |setup: Setup| HeaderContentView::Setup(setup),
                ),
            }
        },
    }
}

/// An annotation: one identifier, taken as it is written.
pub open spec fn annotation_step(text: Seq<u8>, pos: int) -> Step<HeaderContentView> {
    token_step::<Vec<u8>>(text, pos, TokenKind::Identifier, Suggestion::Annotation).map(
        |name: Seq<u8>| HeaderContentView::Annotation(name),
    )
}

/// A token of this kind can open a fragment: anything that is neither
/// trivia nor the end of the line.
pub open spec fn opens_fragment(kind: TokenKind) -> bool {
    kind != TokenKind::Whitespace && !(kind is Comment) && kind != TokenKind::Newline && kind
        != TokenKind::Eof
}

/// The offset at which the fragment that starts at `pos` ends: where the
/// line's comment, newline or the text's end is found, less the blanks
/// before it.
pub open spec fn fragment_end(text: Seq<u8>, pos: int) -> int {
    run_start(text, skip_end(text, pos, TokenClass::Content), ByteClass::Blank)
}

/// The rest of a statement, kept as it is written for a grammar outside
/// this crate. The cursor passes to the line's comment, newline or the end
/// of the text. Where nothing stands to be kept, the cursor stays.
pub open spec fn fragment_step(text: Seq<u8>, pos: int, expected: Suggestion) -> Step<
    FragmentView,
> {
    if opens_fragment(kind_at(text, pos)) {
        Step {
            result: Ok(
                FragmentView {
                    range: SourceRange {
                        start: pos as usize,
                        end: fragment_end(text, pos) as usize,
                    },
                    text: text.subrange(pos, fragment_end(text, pos)),
                },
            ),
            pos: skip_end(text, pos, TokenClass::Content),
        }
    } else {
        Step { result: Err(expected_error(expected, token_at(text, pos).range)), pos }
    }
}

/// A command: what follows the two bangs.
pub open spec fn command_step(text: Seq<u8>, pos: int) -> Step<HeaderContentView> {
    fragment_step(text, pos, Suggestion::HeaderCommand).map(
        |source: FragmentView| HeaderContentView::Command(source),
    )
}

/// The value that a trigger compares with, and the suggestion for the
/// separator after it: the value follows an equals sign, and without one it
/// is the empty literal.
pub open spec fn trigger_value_step(text: Seq<u8>, pos: int) -> Step<
    (VView<Seq<u8>>, Suggestion),
> {
    if kind_at(text, pos) == TokenKind::Eq {
        v_or_kind_step::<Vec<u8>>(
            text,
            end_at(text, pos),
            Suggestion::UberTriggerValue,
            TokenKind::Number,
        ).map(|value: VView<Seq<u8>>| (value, Suggestion::UberTriggerValue))
    } else {
        Step { result: Ok((VView::Literal(Seq::empty()), Suggestion::UberId)), pos }
    }
}

/// A pickup: trigger, separator, item.
pub open spec fn pickup_step(text: Seq<u8>, pos: int, ignore: bool, skip_validation: bool) -> Step<
    HeaderContentView,
> {
    let identifier = uber_identifier_step(text, pos);
    match identifier.result {
        Err(error) => Step { result: Err(error), pos: identifier.pos },
        Ok(id) => {
            let value = trigger_value_step(text, identifier.pos);
            match value.result {
                Err(error) => Step { result: Err(error), pos: value.pos },
                Ok((trigger_value, suggestion)) => {
                    let separator = eat_step(
                        text,
                        value.pos,
                        TokenKind::Separator,
                        Some(suggestion),
                    );
                    match separator.result {
                        Err(error) => Step { result: Err(error), pos: separator.pos },
                        Ok(_) => fragment_step(text, separator.pos, Suggestion::ItemKind).map(
                            |item: FragmentView|
                                HeaderContentView::Pickup(
                                    VPickupView {
                                        trigger: VUberStateView {
                                            identifier: id,
                                            value: trigger_value,
                                        },
                                        item,
                                        ignore,
                                        skip_validation,
                                    },
                                ),
                        ),
                    }
                },
            }
        },
    }
}

/// A quoted string.
pub fn parse_string<'a>(parser: &mut Parser<'a>) -> (result: Result<&'a [u8], ParseError>)
    requires
        old(parser).wf(),
    ensures
        final(parser).wf(),
        final(parser).text() == old(parser).text(),
        old(parser).pos() <= final(parser).pos(),
        yields(result, final(parser).pos(), string_step(old(parser).text(), old(parser).pos())),
{
    proof {
        parser.lemma_bounds();
        if parser.pos() < parser.text().len() {
            lemma_token_shape(parser.text(), parser.pos());
        }
        lemma_token_bounds(parser.text(), parser.pos());
    }
    let token = parser.next_token();
    match token.kind {
        TokenKind::String { terminated } => {
            if !terminated {
                return Err(parser.error("Unterminated string", token.range));
            }
        },
        _ => {
            return Err(parser.error("Expected string", token.range));
        },
    }
    let content_range = SourceRange { start: token.range.start + 1, end: token.range.end - 1 };
    Ok(parser.read(content_range))
}

/// An uber identifier: group, separator, id.
pub fn parse_uber_identifier(parser: &mut Parser) -> (result: Result<UberIdentifier, ParseError>)
    requires
        old(parser).wf(),
    ensures
        final(parser).wf(),
        final(parser).text() == old(parser).text(),
        old(parser).pos() <= final(parser).pos(),
        yields(
            result,
            final(parser).pos(),
            uber_identifier_step(old(parser).text(), old(parser).pos()),
        ),
{
    let uber_group = match parse_number::<u32>(parser, Suggestion::UberGroup) {
        Err(error) => { return Err(error); },
        Ok(value) => value,
    };
    match parser.eat_or_suggest(TokenKind::Separator, Suggestion::UberGroup) {
        Err(error) => { return Err(error); },
        Ok(_) => {},
    }
    let uber_id = match parse_number::<u32>(parser, Suggestion::UberId) {
        Err(error) => { return Err(error); },
        Ok(value) => value,
    };
    Ok(UberIdentifier { uber_group, uber_id })
}

/// An icon: its kind, a colon, and its index or path.
pub fn parse_icon(parser: &mut Parser) -> (result: Result<Icon, ParseError>)
    requires
        old(parser).wf(),
    ensures
        final(parser).wf(),
        final(parser).text() == old(parser).text(),
        old(parser).pos() <= final(parser).pos(),
        yields(result, final(parser).pos(), icon_step(old(parser).text(), old(parser).pos())),
{
    let kind = match parse_ident::<IconKind>(parser, Suggestion::IconKind) {
        Err(error) => { return Err(error); },
        Ok(kind) => kind,
    };
    match parser.eat_or_suggest(TokenKind::Colon, Suggestion::IconKind) {
        Err(error) => { return Err(error); },
        Ok(_) => {},
    }
    match kind {
        IconKind::Shard => match parse_number::<u32>(parser, Suggestion::ShardIcon) {
            Err(error) => Err(error),
            Ok(index) => Ok(Icon::Shard(index)),
        },
        IconKind::Spell => match parse_number::<u32>(parser, Suggestion::SpellIcon) {
            Err(error) => Err(error),
            Ok(index) => Ok(Icon::Spell(index)),
        },
        IconKind::Opher => match parse_number::<u32>(parser, Suggestion::OpherIcon) {
            Err(error) => Err(error),
            Ok(index) => Ok(Icon::Opher(index)),
        },
        IconKind::Lupo => match parse_number::<u32>(parser, Suggestion::LupoIcon) {
            Err(error) => Err(error),
            Ok(index) => Ok(Icon::Lupo(index)),
        },
        IconKind::Grom => match parse_number::<u32>(parser, Suggestion::GromIcon) {
            Err(error) => Err(error),
            Ok(index) => Ok(Icon::Grom(index)),
        },
        IconKind::Tuley => match parse_number::<u32>(parser, Suggestion::TuleyIcon) {
            Err(error) => Err(error),
            Ok(index) => Ok(Icon::Tuley(index)),
        },
        IconKind::File => match parse_string(parser) {
            Err(error) => Err(error),
            Ok(path) => Ok(Icon::File(slice_to_vec(path))),
        },
    }
}

/// A timer: two uber identifiers with a separator between them.
pub fn parse_timer(parser: &mut Parser) -> (result: Result<Setup, ParseError>)
    requires
        old(parser).wf(),
    ensures
        final(parser).wf(),
        final(parser).text() == old(parser).text(),
        old(parser).pos() <= final(parser).pos(),
        yields(result, final(parser).pos(), timer_step(old(parser).text(), old(parser).pos())),
{
    let switch = match parse_uber_identifier(parser) {
        Err(error) => { return Err(error); },
        Ok(value) => value,
    };
    match parser.eat_or_suggest(TokenKind::Separator, Suggestion::UberId) {
        Err(error) => { return Err(error); },
        Ok(_) => {},
    }
    let counter = match parse_uber_identifier(parser) {
        Err(error) => { return Err(error); },
        Ok(value) => value,
    };
    let timer = SetupTimer { switch, counter };
    Ok(Setup::Timer(timer))
}

/// A setup: its kind, a separator, and what the kind asks for.
pub fn parse_setup(parser: &mut Parser) -> (result: Result<HeaderContent, ParseError>)
    requires
        old(parser).wf(),
    ensures
        final(parser).wf(),
        final(parser).text() == old(parser).text(),
        old(parser).pos() <= final(parser).pos(),
        yields(result, final(parser).pos(), setup_step(old(parser).text(), old(parser).pos())),
{
    let kind = match parse_ident::<SetupKind>(parser, Suggestion::SetupKind) {
        Err(error) => { return Err(error); },
        Ok(kind) => kind,
    };
    match parser.eat_or_suggest(TokenKind::Separator, Suggestion::SetupKind) {
        Err(error) => { return Err(error); },
        Ok(_) => {},
    }
    let setup = match kind {
        SetupKind::Timer => parse_timer(parser),
    };
    match setup {
        Err(error) => Err(error),
        Ok(setup) => Ok(HeaderContent::Setup(setup)),
    }
}

/// An annotation: one identifier, taken as it is written.
pub fn parse_annotation(parser: &mut Parser) -> (result: Result<HeaderContent, ParseError>)
    requires
        old(parser).wf(),
    ensures
        final(parser).wf(),
        final(parser).text() == old(parser).text(),
        old(parser).pos() <= final(parser).pos(),
        yields(
            result,
            final(parser).pos(),
            annotation_step(old(parser).text(), old(parser).pos()),
        ),
{
    match parse_ident::<Vec<u8>>(parser, Suggestion::Annotation) {
        Err(error) => Err(error),
        Ok(annotation) => Ok(HeaderContent::Annotation(annotation)),
    }
}

/// The rest of a statement, kept as it is written.
pub fn parse_fragment(parser: &mut Parser, expected: Suggestion) -> (result: Result<
    Fragment,
    ParseError,
>)
    requires
        old(parser).wf(),
    ensures
        final(parser).wf(),
        final(parser).text() == old(parser).text(),
        old(parser).pos() <= final(parser).pos(),
        yields(
            result,
            final(parser).pos(),
            fragment_step(old(parser).text(), old(parser).pos(), expected),
        ),
{
    let first = parser.current_token();
    match first.kind {
        TokenKind::Whitespace | TokenKind::Comment { .. } | TokenKind::Newline | TokenKind::Eof => {
            return Err(ParseError::expected(expected.label(), first.range).with_suggestion(expected));
        },
        _ => {},
    }
    parser.skip_while(TokenClass::Content);
    let stop = parser.current_token().range.start;
    let end = scan_back(parser.source(), stop, ByteClass::Blank);
    proof {
        parser.lemma_bounds();
        let text = parser.text();
        let pos = old(parser).pos();
        lemma_token_bounds(text, pos);
        lemma_token_shape(text, pos);
        lemma_run_start(text, stop as int, ByteClass::Blank);
        lemma_skip_end(text, end_at(text, pos), TokenClass::Content);
        assert(pos < skip_end(text, pos, TokenClass::Content));
        if end <= pos {
            assert(ByteClass::Blank.holds(text[pos]));
        }
    }
    let range = SourceRange { start: first.range.start, end };
    Ok(Fragment { range, text: slice_to_vec(parser.read(range)) })
}

/// A command: what follows the two bangs.
pub fn parse_command(parser: &mut Parser) -> (result: Result<HeaderContent, ParseError>)
    requires
        old(parser).wf(),
    ensures
        final(parser).wf(),
        final(parser).text() == old(parser).text(),
        old(parser).pos() <= final(parser).pos(),
        yields(result, final(parser).pos(), command_step(old(parser).text(), old(parser).pos())),
{
    match parse_fragment(parser, Suggestion::HeaderCommand) {
        Err(error) => Err(error),
        Ok(source) => Ok(HeaderContent::Command(HeaderCommand { source })),
    }
}

/// What a statement may hold lies on one line: no byte that the cursor
/// passes on its way to the comment, the newline or the end of the text is
/// a line feed.
pub proof fn lemma_content_stays_on_line(text: Seq<u8>, pos: int)
    requires
        0 <= pos <= text.len(),
    ensures
        forall|i: int|
            pos <= i < skip_end(text, pos, TokenClass::Content) ==> #[trigger] text[i] != 0x0a,
    decreases text.len() - pos,
{
    lemma_token_bounds(text, pos);
    if pos < text.len() && TokenClass::Content.admits(kind_at(text, pos)) {
        lemma_token_shape(text, pos);
        lemma_content_stays_on_line(text, end_at(text, pos));
    }
}

/// A fragment is never empty and never spans lines: it starts at the cursor
/// with a byte that is no blank, ends after a byte that is no blank, holds
/// no line feed, and only blanks stand between it and the comment, the
/// newline or the end of the text at which the cursor is left.
pub proof fn lemma_fragment_shape(text: Seq<u8>, pos: int)
    requires
        0 <= pos <= text.len(),
        opens_fragment(kind_at(text, pos)),
    ensures
        pos < fragment_end(text, pos) <= skip_end(text, pos, TokenClass::Content) <= text.len(),
        !is_blank(text[pos]),
        !is_blank(text[fragment_end(text, pos) - 1]),
        forall|i: int|
            fragment_end(text, pos) <= i < skip_end(text, pos, TokenClass::Content) ==> is_blank(
                #[trigger] text[i],
            ),
        forall|i: int| pos <= i < fragment_end(text, pos) ==> #[trigger] text[i] != 0x0a,
        skip_end(text, pos, TokenClass::Content) == text.len() || kind_at(
            text,
            skip_end(text, pos, TokenClass::Content),
        ) == TokenKind::Newline || kind_at(text, skip_end(text, pos, TokenClass::Content))
            is Comment,
{
    let stop = skip_end(text, pos, TokenClass::Content);
    lemma_token_bounds(text, pos);
    lemma_token_shape(text, pos);
    lemma_skip_end(text, pos, TokenClass::Content);
    lemma_skip_end(text, end_at(text, pos), TokenClass::Content);
    lemma_run_start(text, stop, ByteClass::Blank);
    lemma_content_stays_on_line(text, pos);
    if fragment_end(text, pos) <= pos {
        assert(ByteClass::Blank.holds(text[pos]));
    }
}

/// Every rule of the statement grammar leaves the cursor inside the text,
/// at a place reached from where it started: it moves forward by whole
/// tokens or not at all.
pub proof fn lemma_uber_identifier_step_bounds(text: Seq<u8>, pos: int)
    requires
        0 <= pos <= text.len(),
    ensures
        pos <= uber_identifier_step(text, pos).pos <= text.len(),
        reaches(text, pos, uber_identifier_step(text, pos).pos),
{
    let group = token_step::<u32>(text, pos, TokenKind::Number, Suggestion::UberGroup);
    lemma_token_step_bounds::<u32>(text, pos, TokenKind::Number, Suggestion::UberGroup);
    let separator = eat_step(text, group.pos, TokenKind::Separator, Some(Suggestion::UberGroup));
    lemma_eat_step_bounds(text, group.pos, TokenKind::Separator, Some(Suggestion::UberGroup));
    let id = token_step::<u32>(text, separator.pos, TokenKind::Number, Suggestion::UberId);
    lemma_token_step_bounds::<u32>(text, separator.pos, TokenKind::Number, Suggestion::UberId);
    lemma_reaches_trans(text, pos, group.pos, separator.pos);
    lemma_reaches_trans(text, pos, separator.pos, id.pos);
}

/// A fragment, kept or not, leaves the cursor inside the text, at a place
/// reached from where it started.
pub proof fn lemma_fragment_step_bounds(text: Seq<u8>, pos: int, expected: Suggestion)
    requires
        0 <= pos <= text.len(),
    ensures
        pos <= fragment_step(text, pos, expected).pos <= text.len(),
        reaches(text, pos, fragment_step(text, pos, expected).pos),
{
    lemma_skip_end(text, pos, TokenClass::Content);
}

/// The value of a trigger, parsed or not, leaves the cursor inside the
/// text, at a place reached from where it started.
pub proof fn lemma_trigger_value_step_bounds(text: Seq<u8>, pos: int)
    requires
        0 <= pos <= text.len(),
    ensures
        pos <= trigger_value_step(text, pos).pos <= text.len(),
        reaches(text, pos, trigger_value_step(text, pos).pos),
{
    lemma_token_bounds(text, pos);
    lemma_reaches_next(text, pos);
    lemma_v_or_kind_step_bounds::<Vec<u8>>(
        text,
        end_at(text, pos),
        Suggestion::UberTriggerValue,
        TokenKind::Number,
    );
    lemma_reaches_trans(
        text,
        pos,
        end_at(text, pos),
        v_or_kind_step::<Vec<u8>>(
            text,
            end_at(text, pos),
            Suggestion::UberTriggerValue,
            TokenKind::Number,
        ).pos,
    );
}

/// A pickup, parsed or not, leaves the cursor inside the text, at a place
/// reached from where it started.
pub proof fn lemma_pickup_step_bounds(text: Seq<u8>, pos: int, ignore: bool, skip_validation: bool)
    requires
        0 <= pos <= text.len(),
    ensures
        pos <= pickup_step(text, pos, ignore, skip_validation).pos <= text.len(),
        reaches(text, pos, pickup_step(text, pos, ignore, skip_validation).pos),
{
    let identifier = uber_identifier_step(text, pos);
    lemma_uber_identifier_step_bounds(text, pos);
    let value = trigger_value_step(text, identifier.pos);
    lemma_trigger_value_step_bounds(text, identifier.pos);
    let separator = eat_step(text, value.pos, TokenKind::Separator, None);
    lemma_eat_step_bounds(text, value.pos, TokenKind::Separator, None);
    let item = fragment_step(text, separator.pos, Suggestion::ItemKind);
    lemma_fragment_step_bounds(text, separator.pos, Suggestion::ItemKind);
    lemma_reaches_trans(text, pos, identifier.pos, value.pos);
    lemma_reaches_trans(text, pos, value.pos, separator.pos);
    lemma_reaches_trans(text, pos, separator.pos, item.pos);
}

/// A timer, parsed or not, leaves the cursor inside the text, at a place
/// reached from where it started.
pub proof fn lemma_timer_step_bounds(text: Seq<u8>, pos: int)
    requires
        0 <= pos <= text.len(),
    ensures
        pos <= timer_step(text, pos).pos <= text.len(),
        reaches(text, pos, timer_step(text, pos).pos),
{
    let switch = uber_identifier_step(text, pos);
    lemma_uber_identifier_step_bounds(text, pos);
    let separator = eat_step(text, switch.pos, TokenKind::Separator, Some(Suggestion::UberId));
    lemma_eat_step_bounds(text, switch.pos, TokenKind::Separator, Some(Suggestion::UberId));
    let counter = uber_identifier_step(text, separator.pos);
    lemma_uber_identifier_step_bounds(text, separator.pos);
    lemma_reaches_trans(text, pos, switch.pos, separator.pos);
    lemma_reaches_trans(text, pos, separator.pos, counter.pos);
}

/// A setup, parsed or not, leaves the cursor inside the text, at a place
/// reached from where it started.
pub proof fn lemma_setup_step_bounds(text: Seq<u8>, pos: int)
    requires
        0 <= pos <= text.len(),
    ensures
        pos <= setup_step(text, pos).pos <= text.len(),
        reaches(text, pos, setup_step(text, pos).pos),
{
    let kind = token_step::<SetupKind>(text, pos, TokenKind::Identifier, Suggestion::SetupKind);
    lemma_token_step_bounds::<SetupKind>(text, pos, TokenKind::Identifier, Suggestion::SetupKind);
    let separator = eat_step(text, kind.pos, TokenKind::Separator, Some(Suggestion::SetupKind));
    lemma_eat_step_bounds(text, kind.pos, TokenKind::Separator, Some(Suggestion::SetupKind));
    let timer = timer_step(text, separator.pos);
    lemma_timer_step_bounds(text, separator.pos);
    lemma_reaches_trans(text, pos, kind.pos, separator.pos);
    lemma_reaches_trans(text, pos, separator.pos, timer.pos);
}

} // verus!
