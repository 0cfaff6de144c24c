//! The value grammar: a field is written as a literal, or as a parameter
//! that is bound later, and a number may carry a removal sign.
use vstd::prelude::*;
use vstd::slice::{slice_subrange, slice_to_vec};
use vstd::string::StringSliceAdditionalSpecFns;
use crate::cursor::{eat_step, lemma_eat_step_bounds, mismatch, word_at, yields, Parser, Step};
use crate::decode::{is_keyword, spells, Decode};
use crate::error::{expected_text, invalid_text, ParseError, ParseErrorView, Suggestion};
use crate::lexer::{
    end_at, kind_at, lemma_reaches_next, lemma_reaches_trans, lemma_token_bounds, reaches,
    token_at,
};
use crate::token::{SourceRange, TokenKind};

verus! {

/// A value that is written out, or a named parameter that stands for one.
#[derive(Debug, PartialEq, Eq)]
pub enum V<T> {
    Literal(T),
    Parameter(Vec<u8>),
}

/// The mathematical content of a [`V`].
pub enum VView<T> {
    Literal(T),
    Parameter(Seq<u8>),
}

impl<T: View> View for V<T> {
    type V = VView<T::V>;

    open spec fn view(&self) -> VView<T::V> {
        match self {
            V::Literal(value) => VView::Literal(value@),
            V::Parameter(name) => VView::Parameter(name@),
        }
    }
}

/// The commands that may follow the interpolation sigil.
#[derive(Clone, Copy, Debug, PartialEq, Eq, Structural)]
pub enum InterpolationCommand {
    Param,
}

impl View for InterpolationCommand {
    type V = InterpolationCommand;

    open spec fn view(&self) -> InterpolationCommand {
        *self
    }
}

impl Decode for InterpolationCommand {
    open spec fn decode(text: Seq<u8>) -> Option<InterpolationCommand> {
        if spells(text, "param".spec_bytes()) {
            Some(InterpolationCommand::Param)
        } else {
            None
        }
    }

    fn from_text(text: &[u8]) -> (value: Option<InterpolationCommand>) {
        if is_keyword(text, "param") {
            Some(InterpolationCommand::Param)
        } else {
            None
        }
    }
}

/// The error of a token that is none of what `expected` names.
pub open spec fn expected_error(expected: Suggestion, range: SourceRange) -> ParseErrorView {
    ParseErrorView {
        message: expected_text(expected.label_text()),
        range,
        suggestion: Some(expected),
    }
}

/// The error of a token of the right kind whose text does not decode.
pub open spec fn invalid_error(expected: Suggestion, range: SourceRange) -> ParseErrorView {
    ParseErrorView {
        message: invalid_text(expected.label_text()),
        range,
        suggestion: Some(expected),
    }
}

/// Decoding the token at `pos`, which is consumed whether or not its text
/// decodes.
pub open spec fn literal_step<T: Decode>(text: Seq<u8>, pos: int, expected: Suggestion) -> Step<
    T::V,
> {
    Step {
        result: match T::decode(word_at(text, pos)) {
            Some(value) => Ok(value),
            None => Err(invalid_error(expected, token_at(text, pos).range)),
        },
        pos: end_at(text, pos),
    }
}

/// A token of `kind`, decoded. A token of another kind is left in place.
pub open spec fn token_step<T: Decode>(
    text: Seq<u8>,
    pos: int,
    kind: TokenKind,
    expected: Suggestion,
) -> Step<T::V> {
    if kind_at(text, pos) == kind {
        literal_step::<T>(text, pos, expected)
    } else {
        Step { result: Err(mismatch(text, pos, kind, Some(expected))), pos }
    }
}

/// The parenthesized name of a parameter.
pub open spec fn param_name_step(text: Seq<u8>, pos: int) -> Step<Seq<u8>> {
    let open = eat_step(text, pos, TokenKind::OpenParen, Some(Suggestion::InterpolationCommand));
    match open.result {
        Err(error) => Step { result: Err(error), pos: open.pos },
        Ok(_) => {
            let name = eat_step(text, open.pos, TokenKind::Identifier, None);
            match name.result {
                Err(error) => Step { result: Err(error), pos: name.pos },
                Ok(_) => {
                    let close = eat_step(text, name.pos, TokenKind::CloseParen, None);
                    match close.result {
                        Err(error) => Step { result: Err(error), pos: close.pos },
                        Ok(_) => Step { result: Ok(word_at(text, open.pos)), pos: close.pos },
                    }
                },
            }
        },
    }
}

/// What follows the interpolation sigil: a command keyword and its argument.
pub open spec fn interpolation_step(text: Seq<u8>, pos: int) -> Step<Seq<u8>> {
    let command = token_step::<InterpolationCommand>(
        text,
        pos,
        TokenKind::Identifier,
        Suggestion::InterpolationCommand,
    );
    match command.result {
        Err(error) => Step { result: Err(error), pos: command.pos },
        Ok(_) => param_name_step(text, command.pos),
    }
}

/// A value that is not a literal: the token at `pos` is consumed; it must be
/// the interpolation sigil, and a parameter must follow.
pub open spec fn v_step<T>(text: Seq<u8>, pos: int, expected: Suggestion) -> Step<VView<T>> {
    if kind_at(text, pos) == TokenKind::Dollar {
        interpolation_step(text, end_at(text, pos)).map(|name: Seq<u8>| VView::Parameter(name))
    } else {
        Step {
            result: Err(expected_error(expected, token_at(text, pos).range)),
            pos: end_at(text, pos),
        }
    }
}

/// A literal held in a token of `kind`, or a parameter.
pub open spec fn v_or_kind_step<T: Decode>(
    text: Seq<u8>,
    pos: int,
    expected: Suggestion,
    kind: TokenKind,
) -> Step<VView<T::V>> {
    if kind_at(text, pos) == kind {
        literal_step::<T>(text, pos, expected).map(|value: T::V| VView::Literal(value))
    } else {
        v_step::<T::V>(text, pos, expected)
    }
}

/// Splits a leading minus sign off the text of a number.
pub open spec fn strip_minus(word: Seq<u8>) -> (Seq<u8>, bool) {
    if word.len() > 0 && word[0] == 0x2d {
        (word.subrange(1, word.len() as int), true)
    } else {
        (word, false)
    }
}

/// Decoding the number token at `pos` as a magnitude and a removal flag: a
/// leading minus sign sets the flag and is no part of the magnitude.
pub open spec fn removable_literal_step<T: Decode>(
    text: Seq<u8>,
    pos: int,
    expected: Suggestion,
) -> Step<(T::V, bool)> {
    let (digits, remove) = strip_minus(word_at(text, pos));
    Step {
        result: match T::decode(digits) {
            Some(value) => Ok((value, remove)),
            None => Err(invalid_error(expected, token_at(text, pos).range)),
        },
        pos: end_at(text, pos),
    }
}

/// A number token with an optional removal sign.
pub open spec fn removable_number_step<T: Decode>(
    text: Seq<u8>,
    pos: int,
    expected: Suggestion,
) -> Step<(T::V, bool)> {
    if kind_at(text, pos) == TokenKind::Number {
        removable_literal_step::<T>(text, pos, expected)
    } else {
        Step { result: Err(mismatch(text, pos, TokenKind::Number, Some(expected))), pos }
    }
}

/// A removable number, or a parameter that a minus token may precede.
pub open spec fn v_removable_number_step<T: Decode>(
    text: Seq<u8>,
    pos: int,
    expected: Suggestion,
) -> Step<(VView<T::V>, bool)> {
    if kind_at(text, pos) == TokenKind::Number {
        removable_literal_step::<T>(text, pos, expected).map(
            |pair: (T::V, bool)| (VView::Literal(pair.0), pair.1),
        )
    } else if kind_at(text, pos) == TokenKind::Minus {
        v_or_kind_step::<T>(text, end_at(text, pos), expected, TokenKind::Number).map(
            |value: VView<T::V>| (value, true),
        )
    } else {
        v_step::<T::V>(text, pos, expected).map(|value: VView<T::V>| (value, false))
    }
}

/// Every rule of the value grammar leaves the cursor inside the text, at a
/// place reached from where it started: it moves forward by whole tokens or
/// not at all.
pub proof fn lemma_token_step_bounds<T: Decode>(
    text: Seq<u8>,
    pos: int,
    kind: TokenKind,
    expected: Suggestion,
)
    requires
        0 <= pos <= text.len(),
    ensures
        pos <= token_step::<T>(text, pos, kind, expected).pos <= text.len(),
        reaches(text, pos, token_step::<T>(text, pos, kind, expected).pos),
{
    lemma_token_bounds(text, pos);
    lemma_reaches_next(text, pos);
}

/// The parenthesized name of a parameter, parsed or not, leaves the cursor
/// inside the text, at a place reached from where it started.
pub proof fn lemma_param_name_step_bounds(text: Seq<u8>, pos: int)
    requires
        0 <= pos <= text.len(),
    ensures
        pos <= param_name_step(text, pos).pos <= text.len(),
        reaches(text, pos, param_name_step(text, pos).pos),
{
    let open = eat_step(text, pos, TokenKind::OpenParen, Some(Suggestion::InterpolationCommand));
    lemma_eat_step_bounds(text, pos, TokenKind::OpenParen, Some(Suggestion::InterpolationCommand));
    let name = eat_step(text, open.pos, TokenKind::Identifier, None);
    lemma_eat_step_bounds(text, open.pos, TokenKind::Identifier, None);
    let close = eat_step(text, name.pos, TokenKind::CloseParen, None);
    lemma_eat_step_bounds(text, name.pos, TokenKind::CloseParen, None);
    lemma_reaches_trans(text, pos, open.pos, name.pos);
    lemma_reaches_trans(text, pos, name.pos, close.pos);
}

/// What follows the interpolation sigil, parsed or not, leaves the cursor
/// inside the text, at a place reached from where it started.
pub proof fn lemma_interpolation_step_bounds(text: Seq<u8>, pos: int)
    requires
        0 <= pos <= text.len(),
    ensures
        pos <= interpolation_step(text, pos).pos <= text.len(),
        reaches(text, pos, interpolation_step(text, pos).pos),
{
    let command = token_step::<InterpolationCommand>(
        text,
        pos,
        TokenKind::Identifier,
        Suggestion::InterpolationCommand,
    );
    lemma_token_step_bounds::<InterpolationCommand>(
        text,
        pos,
        TokenKind::Identifier,
        Suggestion::InterpolationCommand,
    );
    lemma_param_name_step_bounds(text, command.pos);
    lemma_reaches_trans(text, pos, command.pos, param_name_step(text, command.pos).pos);
}

/// A value, literal or parameter, parsed or not, leaves the cursor inside
/// the text, at a place reached from where it started.
pub proof fn lemma_v_or_kind_step_bounds<T: Decode>(
    text: Seq<u8>,
    pos: int,
    expected: Suggestion,
    kind: TokenKind,
)
    requires
        0 <= pos <= text.len(),
    ensures
        pos <= v_or_kind_step::<T>(text, pos, expected, kind).pos <= text.len(),
        pos <= v_step::<T::V>(text, pos, expected).pos <= text.len(),
        reaches(text, pos, v_or_kind_step::<T>(text, pos, expected, kind).pos),
        reaches(text, pos, v_step::<T::V>(text, pos, expected).pos),
{
    lemma_token_bounds(text, pos);
    lemma_reaches_next(text, pos);
    lemma_interpolation_step_bounds(text, end_at(text, pos));
    lemma_reaches_trans(
        text,
        pos,
        end_at(text, pos),
        interpolation_step(text, end_at(text, pos)).pos,
    );
}

/// A removable number, parsed or not, leaves the cursor inside the text, at
/// a place reached from where it started.
pub proof fn lemma_v_removable_number_step_bounds<T: Decode>(
    text: Seq<u8>,
    pos: int,
    expected: Suggestion,
)
    requires
        0 <= pos <= text.len(),
    ensures
        pos <= removable_number_step::<T>(text, pos, expected).pos <= text.len(),
        pos <= v_removable_number_step::<T>(text, pos, expected).pos <= text.len(),
        reaches(text, pos, removable_number_step::<T>(text, pos, expected).pos),
        reaches(text, pos, v_removable_number_step::<T>(text, pos, expected).pos),
{
    lemma_token_bounds(text, pos);
    lemma_reaches_next(text, pos);
    lemma_v_or_kind_step_bounds::<T>(text, pos, expected, TokenKind::Number);
    lemma_v_or_kind_step_bounds::<T>(text, end_at(text, pos), expected, TokenKind::Number);
    lemma_reaches_trans(
        text,
        pos,
        end_at(text, pos),
        v_or_kind_step::<T>(text, end_at(text, pos), expected, TokenKind::Number).pos,
    );
}

/// A minus sign marks a removal in both forms of a number: written into a
/// literal, it is stripped before the magnitude is decoded; written before
/// a parameter, it is a token of its own. Either way the flag is set.
pub proof fn lemma_removal_is_normalized<T: Decode>(text: Seq<u8>, pos: int, expected: Suggestion)
    requires
        0 <= pos <= text.len(),
    ensures
        kind_at(text, pos) == TokenKind::Number && word_at(text, pos).len() > 0 && word_at(
            text,
            pos,
        )[0] == 0x2d ==> (match T::decode(
            word_at(text, pos).subrange(1, word_at(text, pos).len() as int),
        ) {
            Some(magnitude) => v_removable_number_step::<T>(text, pos, expected).result == Ok::<
                (VView<T::V>, bool),
                ParseErrorView,
            >((VView::Literal(magnitude), true)),
            None => v_removable_number_step::<T>(text, pos, expected).result is Err,
        }),
        kind_at(text, pos) == TokenKind::Minus && kind_at(text, end_at(text, pos))
            == TokenKind::Dollar ==> (match interpolation_step(
            text,
            end_at(text, end_at(text, pos)),
        ).result {
            Ok(name) => v_removable_number_step::<T>(text, pos, expected).result == Ok::<
                (VView<T::V>, bool),
                ParseErrorView,
            >((VView::Parameter(name), true)),
            Err(error) => v_removable_number_step::<T>(text, pos, expected).result == Err::<
                (VView<T::V>, bool),
                ParseErrorView,
            >(error),
        }),
        kind_at(text, pos) == TokenKind::Number && !(word_at(text, pos).len() > 0 && word_at(
            text,
            pos,
        )[0] == 0x2d) ==> (match T::decode(word_at(text, pos)) {
            Some(magnitude) => v_removable_number_step::<T>(text, pos, expected).result == Ok::<
                (VView<T::V>, bool),
                ParseErrorView,
            >((VView::Literal(magnitude), false)),
            None => v_removable_number_step::<T>(text, pos, expected).result is Err,
        }),
{
}

/// Consumes the current token and decodes its text.
pub fn parse_literal<T: Decode>(parser: &mut Parser, expected: Suggestion) -> (result: Result<
    T,
    ParseError,
>)
    requires
        old(parser).wf(),
    ensures
        final(parser).wf(),
        final(parser).text() == old(parser).text(),
        old(parser).pos() <= final(parser).pos(),
        yields(
            result,
            final(parser).pos(),
            literal_step::<T>(old(parser).text(), old(parser).pos(), expected),
        ),
{
    let token = parser.next_token();
    match T::from_text(parser.read_token(&token)) {
        Some(value) => Ok(value),
        None => Err(ParseError::invalid(expected, token.range)),
    }
}

/// A token of `kind`, decoded.
pub fn parse_token<T: Decode>(parser: &mut Parser, kind: TokenKind, expected: Suggestion) -> (result:
    Result<T, ParseError>)
    requires
        old(parser).wf(),
    ensures
        final(parser).wf(),
        final(parser).text() == old(parser).text(),
        old(parser).pos() <= final(parser).pos(),
        yields(
            result,
            final(parser).pos(),
            token_step::<T>(old(parser).text(), old(parser).pos(), kind, expected),
        ),
{
    if parser.current_token().kind == kind {
        parse_literal(parser, expected)
    } else {
        Err(
            ParseError::expected(kind.label(), parser.current_token().range).with_suggestion(
                expected,
            ),
        )
    }
}

/// A number.
pub fn parse_number<T: Decode>(parser: &mut Parser, expected: Suggestion) -> (result: Result<
    T,
    ParseError,
>)
    requires
        old(parser).wf(),
    ensures
        final(parser).wf(),
        final(parser).text() == old(parser).text(),
        old(parser).pos() <= final(parser).pos(),
        yields(
            result,
            final(parser).pos(),
            token_step::<T>(old(parser).text(), old(parser).pos(), TokenKind::Number, expected),
        ),
{
    parse_token(parser, TokenKind::Number, expected)
}

/// An identifier that spells a value of `T`.
pub fn parse_ident<T: Decode>(parser: &mut Parser, expected: Suggestion) -> (result: Result<
    T,
    ParseError,
>)
    requires
        old(parser).wf(),
    ensures
        final(parser).wf(),
        final(parser).text() == old(parser).text(),
        old(parser).pos() <= final(parser).pos(),
        yields(
            result,
            final(parser).pos(),
            token_step::<T>(
                old(parser).text(),
                old(parser).pos(),
                TokenKind::Identifier,
                expected,
            ),
        ),
{
    parse_token(parser, TokenKind::Identifier, expected)
}

/// The argument of the `Param` command: a name in parentheses.
pub fn parse_v_param<T: View>(parser: &mut Parser) -> (result: Result<V<T>, ParseError>)
    requires
        old(parser).wf(),
    ensures
        final(parser).wf(),
        final(parser).text() == old(parser).text(),
        old(parser).pos() <= final(parser).pos(),
        yields(
            result,
            final(parser).pos(),
            param_name_step(old(parser).text(), old(parser).pos()).map(
                |name: Seq<u8>| VView::<T::V>::Parameter(name),
            ),
        ),
{
    match parser.eat_or_suggest(TokenKind::OpenParen, Suggestion::InterpolationCommand) {
        Err(error) => { return Err(error); },
        Ok(_) => {},
    }
    let token = match parser.eat(TokenKind::Identifier) {
        Err(error) => { return Err(error); },
        Ok(token) => token,
    };
    let param = slice_to_vec(parser.read_token(&token));
    match parser.eat(TokenKind::CloseParen) {
        Err(error) => { return Err(error); },
        Ok(_) => {},
    }
    Ok(V::Parameter(param))
}

/// A value that is not a literal: consumes the current token, which must be
/// the interpolation sigil, and the parameter that follows it.
pub fn parse_v<T: View>(parser: &mut Parser, expected: Suggestion) -> (result: Result<
    V<T>,
    ParseError,
>)
    requires
        old(parser).wf(),
    ensures
        final(parser).wf(),
        final(parser).text() == old(parser).text(),
        old(parser).pos() <= final(parser).pos(),
        yields(
            result,
            final(parser).pos(),
            v_step::<T::V>(old(parser).text(), old(parser).pos(), expected),
        ),
{
    let token = parser.next_token();
    match token.kind {
        TokenKind::Dollar => {
            match parse_ident::<InterpolationCommand>(parser, Suggestion::InterpolationCommand) {
                Err(error) => Err(error),
                Ok(InterpolationCommand::Param) => parse_v_param(parser),
            }
        },
        _ => Err(ParseError::expected(expected.label(), token.range).with_suggestion(expected)),
    }
}

/// A literal held in a token of `kind`, or a parameter.
pub fn parse_v_or_kind<T: Decode>(parser: &mut Parser, expected: Suggestion, kind: TokenKind) -> (result:
    Result<V<T>, ParseError>)
    requires
        old(parser).wf(),
    ensures
        final(parser).wf(),
        final(parser).text() == old(parser).text(),
        old(parser).pos() <= final(parser).pos(),
        yields(
            result,
            final(parser).pos(),
            v_or_kind_step::<T>(old(parser).text(), old(parser).pos(), expected, kind),
        ),
{
    if parser.current_token().kind == kind {
        match parse_literal::<T>(parser, expected) {
            Ok(value) => Ok(V::Literal(value)),
            Err(error) => Err(error),
        }
    } else {
        parse_v(parser, expected)
    }
}

/// An identifier that spells a value of `T`, or a parameter.
pub fn parse_v_ident<T: Decode>(parser: &mut Parser, expected: Suggestion) -> (result: Result<
    V<T>,
    ParseError,
>)
    requires
        old(parser).wf(),
    ensures
        final(parser).wf(),
        final(parser).text() == old(parser).text(),
        old(parser).pos() <= final(parser).pos(),
        yields(
            result,
            final(parser).pos(),
            v_or_kind_step::<T>(
                old(parser).text(),
                old(parser).pos(),
                expected,
                TokenKind::Identifier,
            ),
        ),
{
    parse_v_or_kind(parser, expected, TokenKind::Identifier)
}

/// A number, or a parameter.
pub fn parse_v_number<T: Decode>(parser: &mut Parser, expected: Suggestion) -> (result: Result<
    V<T>,
    ParseError,
>)
    requires
        old(parser).wf(),
    ensures
        final(parser).wf(),
        final(parser).text() == old(parser).text(),
        old(parser).pos() <= final(parser).pos(),
        yields(
            result,
            final(parser).pos(),
            v_or_kind_step::<T>(old(parser).text(), old(parser).pos(), expected, TokenKind::Number),
        ),
{
    parse_v_or_kind(parser, expected, TokenKind::Number)
}

/// Consumes the current token, a number, and decodes it as a magnitude and
/// a removal flag.
pub fn parse_removable_literal<T: Decode>(parser: &mut Parser, expected: Suggestion) -> (result:
    Result<(T, bool), ParseError>)
    requires
        old(parser).wf(),
    ensures
        final(parser).wf(),
        final(parser).text() == old(parser).text(),
        old(parser).pos() <= final(parser).pos(),
        yields(
            result,
            final(parser).pos(),
            removable_literal_step::<T>(old(parser).text(), old(parser).pos(), expected),
        ),
{
    let token = parser.next_token();
    let word = parser.read_token(&token);
    let remove = word.len() > 0 && word[0] == 0x2d;
    let digits = if remove {
        slice_subrange(word, 1, word.len())
    } else {
        word
    };
    match T::from_text(digits) {
        Some(value) => Ok((value, remove)),
        None => Err(ParseError::invalid(expected, token.range)),
    }
}

/// A number that a minus sign may mark as a removal.
pub fn parse_removable_number<T: Decode>(parser: &mut Parser, expected: Suggestion) -> (result:
    Result<(T, bool), ParseError>)
    requires
        old(parser).wf(),
    ensures
        final(parser).wf(),
        final(parser).text() == old(parser).text(),
        old(parser).pos() <= final(parser).pos(),
        yields(
            result,
            final(parser).pos(),
            removable_number_step::<T>(old(parser).text(), old(parser).pos(), expected),
        ),
{
    if parser.current_token().kind == TokenKind::Number {
        parse_removable_literal(parser, expected)
    } else {
        Err(
            ParseError::expected(TokenKind::Number.label(), parser.current_token().range)
                .with_suggestion(expected),
        )
    }
}

/// A removable number, or a parameter that a minus token may precede.
pub fn parse_v_removable_number<T: Decode>(parser: &mut Parser, expected: Suggestion) -> (result:
    Result<(V<T>, bool), ParseError>)
    requires
        old(parser).wf(),
    ensures
        final(parser).wf(),
        final(parser).text() == old(parser).text(),
        old(parser).pos() <= final(parser).pos(),
        yields(
            result,
            final(parser).pos(),
            v_removable_number_step::<T>(old(parser).text(), old(parser).pos(), expected),
        ),
{
    match parser.current_token().kind {
        TokenKind::Number => {
            match parse_removable_literal::<T>(parser, expected) {
                Ok((value, remove)) => Ok((V::Literal(value), remove)),
                Err(error) => Err(error),
            }
        },
        TokenKind::Minus => {
            parser.next_token();
            match parse_v_number::<T>(parser, expected) {
                Ok(value) => Ok((value, true)),
                Err(error) => Err(error),
            }
        },
        _ => {
            match parse_v::<T>(parser, expected) {
                Ok(value) => Ok((value, false)),
                Err(error) => Err(error),
            }
        },
    }
}

} // verus!
