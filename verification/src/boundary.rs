//! Texts and character boundaries: where the source is valid UTF-8, every
//! text that the parser hands out is cut at the boundaries of characters,
//! and so is valid UTF-8 itself.
use vstd::prelude::*;
use vstd::utf8::{
    is_char_boundary, is_char_boundary_iff_not_is_continuation_byte,
    is_char_boundary_start_end_of_seq, is_continuation_byte, length_of_first_scalar,
    pop_first_scalar, valid_utf8, valid_utf8_split,
};
use crate::cursor::{
    eat_step, lemma_eat_step_bounds, lemma_skip_end, skip_end, word_at, TokenClass,
};
use crate::document::{HeaderContentView, IconView};
use crate::driver::{
    absorb_comment, drive, expression_step, header_outcome, lemma_round_advances,
    lemma_whitespace_step, round_step, whitespace_step, ContextView,
};
use crate::error::{ParseErrorView, Suggestion};
use crate::grammar::{
    fragment_end, fragment_step, icon_step, lemma_fragment_shape, lemma_trigger_value_step_bounds,
    lemma_uber_identifier_step_bounds, opens_fragment, pickup_step, trigger_value_step,
    uber_identifier_step, IconKind,
};
use crate::lexer::{
    end_at, kind_at, lemma_reaches_bounds, lemma_run_start, lemma_token_bounds, lemma_token_edges,
    marker_len, reaches, run_start, ByteClass,
};
use crate::text::{
    comment_start, lemma_comment_start, lemma_spaces_end, lemma_spaces_start, space_width_at,
    space_width_before, spaces_end, spaces_start, trim_end_at, trim_start_at, trimmed, trimmed_end,
    without_comment,
};
use crate::token::TokenKind;
use crate::value::{
    interpolation_step, lemma_token_step_bounds, param_name_step, token_step, v_or_kind_step,
    VView,
};

verus! {

/// The number of bytes of the encoding that a leading byte opens.
pub open spec fn encoding_width(lead: u8) -> int {
    if lead <= 0x7f {
        1
    } else if lead <= 0xdf {
        2
    } else if lead <= 0xef {
        3
    } else {
        4
    }
}

/// The end of the text, and every byte that continues no character, is a
/// character boundary.
pub proof fn lemma_boundary_at(text: Seq<u8>, pos: int)
    requires
        valid_utf8(text),
        0 <= pos <= text.len(),
        pos == text.len() || !is_continuation_byte(text[pos]),
    ensures
        is_char_boundary(text, pos),
{
    is_char_boundary_start_end_of_seq(text);
    if pos < text.len() {
        is_char_boundary_iff_not_is_continuation_byte(text, pos);
    }
}

/// A character that starts at a boundary ends at one: after as many bytes
/// as its leading byte opens.
pub proof fn lemma_boundary_after_char(text: Seq<u8>, pos: int)
    requires
        valid_utf8(text),
        0 <= pos < text.len(),
        is_char_boundary(text, pos),
    ensures
        pos + encoding_width(text[pos]) <= text.len(),
        is_char_boundary(text, pos + encoding_width(text[pos])),
    decreases text.len(),
{
    reveal_with_fuel(is_char_boundary, 2);
    reveal_with_fuel(valid_utf8, 2);
    let first = length_of_first_scalar(text);
    let rest = pop_first_scalar(text);
    if pos == 0 {
        is_char_boundary_start_end_of_seq(rest);
    } else {
        assert(is_char_boundary(rest, pos - first));
        lemma_boundary_after_char(rest, pos - first);
        assert(rest[pos - first] == text[pos]);
    }
}

/// The offset after an ASCII byte is a character boundary.
pub proof fn lemma_boundary_after_ascii(text: Seq<u8>, pos: int)
    requires
        valid_utf8(text),
        0 <= pos < text.len(),
        text[pos] <= 0x7f,
    ensures
        is_char_boundary(text, pos + 1),
{
    lemma_boundary_at(text, pos);
    lemma_boundary_after_char(text, pos);
}

/// What is cut out of valid UTF-8 at two character boundaries is valid
/// UTF-8.
pub proof fn lemma_cut_is_utf8(text: Seq<u8>, from: int, to: int)
    requires
        valid_utf8(text),
        0 <= from <= to <= text.len(),
        is_char_boundary(text, from),
        is_char_boundary(text, to),
    ensures
        valid_utf8(text.subrange(from, to)),
{
    let head = text.subrange(0, to);
    valid_utf8_split(text, to);
    if from < to {
        is_char_boundary_iff_not_is_continuation_byte(text, from);
        assert(head[from] == text[from]);
    }
    lemma_boundary_at(head, from);
    valid_utf8_split(head, from);
    assert(head.subrange(from, head.len() as int) =~= text.subrange(from, to));
}

/// Every token ends at a character boundary.
pub proof fn lemma_token_ends_at_boundary(text: Seq<u8>, pos: int)
    requires
        valid_utf8(text),
        0 <= pos <= text.len(),
    ensures
        is_char_boundary(text, end_at(text, pos)),
{
    lemma_token_bounds(text, pos);
    let end = end_at(text, pos);
    if pos < text.len() {
        lemma_token_edges(text, pos);
        if end == text.len() || text[end] <= 0x7f {
            lemma_boundary_at(text, end);
        } else {
            lemma_boundary_after_ascii(text, end - 1);
        }
    } else {
        lemma_boundary_at(text, end);
    }
}

/// Wherever the cursor can stand is a character boundary.
pub proof fn lemma_cursor_stands_at_boundary(text: Seq<u8>, from: int, to: int)
    requires
        valid_utf8(text),
        0 <= from <= text.len(),
        is_char_boundary(text, from),
        reaches(text, from, to),
    ensures
        is_char_boundary(text, to),
    decreases text.len() - from,
{
    if from != to {
        lemma_token_ends_at_boundary(text, from);
        lemma_cursor_stands_at_boundary(text, end_at(text, from), to);
    }
}

/// The text of a token is valid UTF-8.
pub proof fn lemma_word_is_utf8(text: Seq<u8>, pos: int)
    requires
        valid_utf8(text),
        0 <= pos <= text.len(),
        is_char_boundary(text, pos),
    ensures
        valid_utf8(word_at(text, pos)),
{
    lemma_token_bounds(text, pos);
    lemma_token_ends_at_boundary(text, pos);
    lemma_cut_is_utf8(text, pos, end_at(text, pos));
}

/// What stands between the quotes of a string is cut at character
/// boundaries, and is valid UTF-8.
pub proof fn lemma_string_content_is_utf8(text: Seq<u8>, pos: int)
    requires
        valid_utf8(text),
        0 <= pos <= text.len(),
        kind_at(text, pos) == (TokenKind::String { terminated: true }),
    ensures
        is_char_boundary(text, pos + 1),
        is_char_boundary(text, end_at(text, pos) - 1),
        valid_utf8(text.subrange(pos + 1, end_at(text, pos) - 1)),
{
    lemma_token_bounds(text, pos);
    lemma_token_edges(text, pos);
    lemma_boundary_after_ascii(text, pos);
    lemma_boundary_at(text, end_at(text, pos) - 1);
    lemma_cut_is_utf8(text, pos + 1, end_at(text, pos) - 1);
}

/// Passing over white space from a character boundary ends at one.
pub proof fn lemma_spaces_end_at_boundary(text: Seq<u8>, pos: int)
    requires
        valid_utf8(text),
        0 <= pos <= text.len(),
        is_char_boundary(text, pos),
    ensures
        is_char_boundary(text, spaces_end(text, pos)),
    decreases text.len() - pos,
{
    if space_width_at(text, pos) > 0 {
        lemma_boundary_after_char(text, pos);
        lemma_spaces_end_at_boundary(text, pos + space_width_at(text, pos));
    }
}

/// Passing back over white space from a character boundary ends at one.
pub proof fn lemma_spaces_start_at_boundary(text: Seq<u8>, pos: int)
    requires
        valid_utf8(text),
        0 <= pos <= text.len(),
        is_char_boundary(text, pos),
    ensures
        is_char_boundary(text, spaces_start(text, pos)),
    decreases pos,
{
    let width = space_width_before(text, pos);
    if width > 0 {
        lemma_boundary_at(text, pos - width);
        lemma_spaces_start_at_boundary(text, pos - width);
    }
}

/// Trimming cuts at character boundaries: what is left of valid UTF-8 is
/// valid UTF-8.
pub proof fn lemma_trimmed_is_utf8(text: Seq<u8>)
    requires
        valid_utf8(text),
    ensures
        is_char_boundary(text, trim_start_at(text)),
        is_char_boundary(text, trim_end_at(text)),
        valid_utf8(trimmed(text)),
        is_char_boundary(text, spaces_start(text, text.len() as int)),
        valid_utf8(trimmed_end(text)),
{
    is_char_boundary_start_end_of_seq(text);
    lemma_spaces_end(text, 0);
    lemma_spaces_start(text, text.len() as int);
    lemma_spaces_end_at_boundary(text, 0);
    lemma_spaces_start_at_boundary(text, text.len() as int);
    lemma_cut_is_utf8(text, trim_start_at(text), trim_end_at(text));
    lemma_cut_is_utf8(text, 0, spaces_start(text, text.len() as int));
}

/// What is left of a line of valid UTF-8 without its comment is valid
/// UTF-8.
pub proof fn lemma_without_comment_is_utf8(text: Seq<u8>)
    requires
        valid_utf8(text),
    ensures
        valid_utf8(without_comment(text)),
{
    let cut = comment_start(text, 0);
    lemma_comment_start(text, 0);
    lemma_boundary_at(text, cut);
    is_char_boundary_start_end_of_seq(text);
    lemma_cut_is_utf8(text, 0, cut);
    lemma_trimmed_is_utf8(text.take(cut));
}

/// The text of a comment after its marker is cut at character boundaries:
/// trimmed, it is valid UTF-8.
pub proof fn lemma_comment_text_is_utf8(text: Seq<u8>, pos: int)
    requires
        valid_utf8(text),
        0 <= pos <= text.len(),
        kind_at(text, pos) is Comment,
    ensures
        is_char_boundary(text, pos + marker_len(kind_at(text, pos)->Comment_kind)),
        valid_utf8(
            trimmed(
                text.subrange(pos + marker_len(kind_at(text, pos)->Comment_kind), end_at(text, pos)),
            ),
        ),
{
    let marker = marker_len(kind_at(text, pos)->Comment_kind);
    lemma_token_bounds(text, pos);
    lemma_token_edges(text, pos);
    assert(text[pos + marker - 1] == 0x2f);
    lemma_boundary_after_ascii(text, pos + marker - 1);
    lemma_token_ends_at_boundary(text, pos);
    lemma_cut_is_utf8(text, pos + marker, end_at(text, pos));
    lemma_trimmed_is_utf8(text.subrange(pos + marker, end_at(text, pos)));
}

/// A fragment that starts at a character boundary ends at one.
pub proof fn lemma_fragment_ends_at_boundary(text: Seq<u8>, pos: int)
    requires
        valid_utf8(text),
        0 <= pos <= text.len(),
        is_char_boundary(text, pos),
    ensures
        is_char_boundary(
            text,
            run_start(text, skip_end(text, pos, TokenClass::Content), ByteClass::Blank),
        ),
{
    let stop = skip_end(text, pos, TokenClass::Content);
    let end = run_start(text, stop, ByteClass::Blank);
    lemma_skip_end(text, pos, TokenClass::Content);
    lemma_reaches_bounds(text, pos, stop);
    lemma_cursor_stands_at_boundary(text, pos, stop);
    lemma_run_start(text, stop, ByteClass::Blank);
    if end < stop {
        assert(ByteClass::Blank.holds(text[end]));
        lemma_boundary_at(text, end);
    }
}

/// A literal or a parameter name is valid UTF-8.
pub open spec fn value_is_utf8(value: VView<Seq<u8>>) -> bool {
    match value {
        VView::Literal(text) => valid_utf8(text),
        VView::Parameter(name) => valid_utf8(name),
    }
}

/// Every text that an entry holds is valid UTF-8.
pub open spec fn content_is_utf8(content: HeaderContentView) -> bool {
    match content {
        HeaderContentView::OuterDocumentation(text) => valid_utf8(text),
        HeaderContentView::InnerDocumentation(text) => valid_utf8(text),
        HeaderContentView::Annotation(name) => valid_utf8(name),
        HeaderContentView::Setup(_) => true,
        HeaderContentView::Pickup(pickup) => value_is_utf8(pickup.trigger.value) && valid_utf8(
            pickup.item.text,
        ),
        HeaderContentView::Command(source) => valid_utf8(source.text),
    }
}

/// Every text that the entries hold is valid UTF-8.
pub open spec fn contents_are_utf8(contents: Seq<HeaderContentView>) -> bool {
    forall|i: int| 0 <= i < contents.len() ==> content_is_utf8(#[trigger] contents[i])
}

/// A fragment kept from a character boundary on is cut at character
/// boundaries, and is valid UTF-8.
pub proof fn lemma_fragment_is_utf8(text: Seq<u8>, pos: int, expected: Suggestion)
    requires
        valid_utf8(text),
        0 <= pos <= text.len(),
        is_char_boundary(text, pos),
    ensures
        fragment_step(text, pos, expected).result matches Ok(source) ==> is_char_boundary(
            text,
            fragment_end(text, pos),
        ) && valid_utf8(source.text),
{
    if opens_fragment(kind_at(text, pos)) {
        lemma_fragment_shape(text, pos);
        lemma_fragment_ends_at_boundary(text, pos);
        lemma_cut_is_utf8(text, pos, fragment_end(text, pos));
    }
}

/// The name of a parameter is valid UTF-8.
pub proof fn lemma_parameter_is_utf8(text: Seq<u8>, pos: int)
    requires
        valid_utf8(text),
        0 <= pos <= text.len(),
    ensures
        param_name_step(text, pos).result matches Ok(name) ==> valid_utf8(name),
        interpolation_step(text, pos).result matches Ok(name) ==> valid_utf8(name),
{
    lemma_token_bounds(text, pos);
    lemma_token_ends_at_boundary(text, pos);
    lemma_word_is_utf8(text, end_at(text, pos));
    let after = end_at(text, pos);
    lemma_token_bounds(text, after);
    lemma_token_ends_at_boundary(text, after);
    lemma_word_is_utf8(text, end_at(text, after));
}

/// A value written as text, literal or parameter, is valid UTF-8.
pub proof fn lemma_value_is_utf8(text: Seq<u8>, pos: int, expected: Suggestion, kind: TokenKind)
    requires
        valid_utf8(text),
        0 <= pos <= text.len(),
        is_char_boundary(text, pos),
    ensures
        v_or_kind_step::<Vec<u8>>(text, pos, expected, kind).result matches Ok(value)
            ==> value_is_utf8(value),
{
    lemma_token_bounds(text, pos);
    lemma_word_is_utf8(text, pos);
    lemma_parameter_is_utf8(text, end_at(text, pos));
}

/// The path of an icon that is read from a file is valid UTF-8.
pub proof fn lemma_icon_is_utf8(text: Seq<u8>, pos: int)
    requires
        valid_utf8(text),
        0 <= pos <= text.len(),
    ensures
        icon_step(text, pos).result matches Ok(IconView::File(path)) ==> valid_utf8(path),
{
    let kind = token_step::<IconKind>(text, pos, TokenKind::Identifier, Suggestion::IconKind);
    lemma_token_step_bounds::<IconKind>(text, pos, TokenKind::Identifier, Suggestion::IconKind);
    let colon = eat_step(text, kind.pos, TokenKind::Colon, Some(Suggestion::IconKind));
    lemma_eat_step_bounds(text, kind.pos, TokenKind::Colon, Some(Suggestion::IconKind));
    if kind_at(text, colon.pos) == (TokenKind::String { terminated: true }) {
        lemma_string_content_is_utf8(text, colon.pos);
    }
}

/// Every text of a pickup that is parsed from a character boundary on is
/// valid UTF-8.
pub proof fn lemma_pickup_is_utf8(text: Seq<u8>, pos: int, ignore: bool, skip_validation: bool)
    requires
        valid_utf8(text),
        0 <= pos <= text.len(),
        is_char_boundary(text, pos),
    ensures
        pickup_step(text, pos, ignore, skip_validation).result matches Ok(content)
            ==> content_is_utf8(content),
{
    let identifier = uber_identifier_step(text, pos);
    lemma_uber_identifier_step_bounds(text, pos);
    lemma_cursor_stands_at_boundary(text, pos, identifier.pos);
    let value = trigger_value_step(text, identifier.pos);
    lemma_trigger_value_step_bounds(text, identifier.pos);
    lemma_cursor_stands_at_boundary(text, identifier.pos, value.pos);
    lemma_token_bounds(text, identifier.pos);
    lemma_token_ends_at_boundary(text, identifier.pos);
    lemma_value_is_utf8(
        text,
        end_at(text, identifier.pos),
        Suggestion::UberTriggerValue,
        TokenKind::Number,
    );
    assert(valid_utf8(Seq::<u8>::empty()));
    let separator = eat_step(text, value.pos, TokenKind::Separator, None);
    lemma_eat_step_bounds(text, value.pos, TokenKind::Separator, None);
    lemma_cursor_stands_at_boundary(text, value.pos, separator.pos);
    lemma_fragment_is_utf8(text, separator.pos, Suggestion::ItemKind);
}

/// Every text of a statement that is parsed from a character boundary on
/// is valid UTF-8.
pub proof fn lemma_expression_is_utf8(text: Seq<u8>, pos: int, skip_validation: bool)
    requires
        valid_utf8(text),
        0 <= pos <= text.len(),
        is_char_boundary(text, pos),
    ensures
        expression_step(text, pos, skip_validation).result matches Ok(content) ==> content_is_utf8(
            content,
        ),
{
    lemma_token_bounds(text, pos);
    lemma_token_ends_at_boundary(text, pos);
    let after = end_at(text, pos);
    lemma_token_bounds(text, after);
    lemma_token_ends_at_boundary(text, after);
    match kind_at(text, pos) {
        TokenKind::Bang => {
            lemma_fragment_is_utf8(text, end_at(text, after), Suggestion::HeaderCommand);
            lemma_pickup_is_utf8(text, after, true, skip_validation);
        },
        TokenKind::Number | TokenKind::Dollar => {
            lemma_pickup_is_utf8(text, pos, false, skip_validation);
        },
        TokenKind::Pound => {
            lemma_word_is_utf8(text, after);
        },
        _ => {},
    }
}

/// What passing between statements appends is valid UTF-8.
pub proof fn lemma_whitespace_is_utf8(text: Seq<u8>, context: ContextView)
    requires
        valid_utf8(text),
        0 <= context.pos <= text.len(),
        contents_are_utf8(context.contents),
    ensures
        contents_are_utf8(whitespace_step(text, context).contents),
    decreases text.len() - context.pos,
{
    lemma_token_bounds(text, context.pos);
    if context.pos < text.len() {
        match kind_at(text, context.pos) {
            TokenKind::Newline | TokenKind::Whitespace => {
                lemma_whitespace_is_utf8(
                    text,
                    ContextView { pos: end_at(text, context.pos), ..context },
                );
            },
            TokenKind::Comment { kind } => {
                lemma_comment_text_is_utf8(text, context.pos);
                lemma_whitespace_is_utf8(
                    text,
                    ContextView {
                        pos: end_at(text, context.pos),
                        ..absorb_comment(text, kind, context)
                    },
                );
            },
            _ => {},
        }
    }
}

/// The driver keeps the entries valid UTF-8, round after round.
pub proof fn lemma_drive_is_utf8(
    text: Seq<u8>,
    pos: int,
    contents: Seq<HeaderContentView>,
    errors: Seq<ParseErrorView>,
)
    requires
        valid_utf8(text),
        0 <= pos <= text.len(),
        is_char_boundary(text, pos),
        contents_are_utf8(contents),
    ensures
        contents_are_utf8(round_step(text, pos, contents, errors).contents),
        is_char_boundary(text, round_step(text, pos, contents, errors).pos),
        contents_are_utf8(drive(text, pos, contents, errors).contents),
    decreases text.len() - pos,
{
    let start = ContextView { pos, contents, skip_validation: false };
    let context = whitespace_step(text, start);
    lemma_whitespace_step(text, start);
    lemma_whitespace_is_utf8(text, start);
    lemma_cursor_stands_at_boundary(text, pos, context.pos);
    lemma_expression_is_utf8(text, context.pos, context.skip_validation);
    let round = round_step(text, pos, contents, errors);
    lemma_round_advances(text, pos, contents, errors);
    lemma_cursor_stands_at_boundary(text, pos, round.pos);
    if !round.done {
        lemma_drive_is_utf8(text, round.pos, round.contents, round.errors);
    }
}

/// Every text of a document that is parsed from valid UTF-8 is valid UTF-8:
/// names, documentation, trigger values, items and commands are cut at the
/// boundaries of characters.
pub proof fn lemma_document_is_utf8(text: Seq<u8>, pos: int)
    requires
        valid_utf8(text),
        0 <= pos <= text.len(),
        is_char_boundary(text, pos),
    ensures
        header_outcome(text, pos) matches Ok(contents) ==> contents_are_utf8(contents),
{
    lemma_drive_is_utf8(text, pos, Seq::empty(), Seq::empty());
}

} // verus!
