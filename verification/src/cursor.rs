//! The parser cursor: a position in the text with one token of lookahead.
use vstd::prelude::*;
use vstd::slice::slice_subrange;
use vstd::string::StringSliceAdditionalSpecFns;
use vstd::utf8::{encode_utf8_valid_utf8, valid_utf8};
use crate::error::{expected_text, ParseError, ParseErrorView, Suggestion};
use crate::lexer::{
    end_at, kind_at, lemma_reaches_next, lemma_token_bounds, lex, reaches, token_at,
};
use crate::token::{SourceRange, Token, TokenKind};

verus! {

impl View for Token {
    type V = Token;

    open spec fn view(&self) -> Token {
        *self
    }
}

/// The outcome of one grammar rule: its result and the offset at which the
/// cursor then stands.
pub struct Step<T> {
    pub result: Result<T, ParseErrorView>,
    pub pos: int,
}

/// An executable result and cursor offset agree with a specified step.
pub open spec fn yields<T: View>(result: Result<T, ParseError>, pos: int, step: Step<T::V>) -> bool {
    &&& pos == step.pos
    &&& match result {
        Ok(value) => step.result == Ok::<T::V, ParseErrorView>(value@),
        Err(error) => step.result == Err::<T::V, ParseErrorView>(error@),
    }
}

impl<T> Step<T> {
    /// The same step with `f` applied to a successful result.
    pub open spec fn map<U>(self, f: spec_fn(T) -> U) -> Step<U> {
        Step {
            result: match self.result {
                Ok(value) => Ok(f(value)),
                Err(error) => Err(error),
            },
            pos: self.pos,
        }
    }
}

/// The bytes of the token that starts at `pos`.
pub open spec fn word_at(text: Seq<u8>, pos: int) -> Seq<u8> {
    text.subrange(pos, end_at(text, pos))
}

/// Sets of token kinds that the cursor can skip over.
#[derive(Clone, Copy, Debug, PartialEq, Eq, Structural)]
pub enum TokenClass {
    /// Tokens of exactly this kind.
    Kind(TokenKind),
    /// Whitespace and comments of any kind.
    Trivia,
    /// Everything but a newline.
    Line,
    /// Everything but a newline or a comment: what may belong to a statement.
    Content,
}

impl TokenClass {
    /// Whether a token of `kind` belongs to the class.
    pub open spec fn admits(self, kind: TokenKind) -> bool {
        match self {
            TokenClass::Kind(k) => kind == k,
            TokenClass::Trivia => kind == TokenKind::Whitespace || kind is Comment,
            TokenClass::Line => kind != TokenKind::Newline,
            TokenClass::Content => kind != TokenKind::Newline && !(kind is Comment),
        }
    }

    /// Tells whether a token of `kind` belongs to the class.
    pub fn matches(&self, kind: TokenKind) -> (r: bool)
        ensures
            r == self.admits(kind),
    {
        match self {
            TokenClass::Kind(k) => kind == *k,
            TokenClass::Trivia => match kind {
                TokenKind::Whitespace => true,
                TokenKind::Comment { .. } => true,
                _ => false,
            },
            TokenClass::Line => kind != TokenKind::Newline,
            TokenClass::Content => match kind {
                TokenKind::Newline => false,
                TokenKind::Comment { .. } => false,
                _ => true,
            },
        }
    }
}

/// The offset reached from `pos` by passing over tokens of `class`; `Eof` is
/// never passed.
pub open spec fn skip_end(text: Seq<u8>, pos: int, class: TokenClass) -> int
    decreases text.len() - pos,
{
    if 0 <= pos < end_at(text, pos) <= text.len() && class.admits(kind_at(text, pos)) {
        skip_end(text, end_at(text, pos), class)
    } else {
        pos
    }
}

/// Skipping stops inside the text, at `Eof` or at the first token outside
/// the class.
pub proof fn lemma_skip_end(text: Seq<u8>, pos: int, class: TokenClass)
    requires
        0 <= pos <= text.len(),
    ensures
        pos <= skip_end(text, pos, class) <= text.len(),
        skip_end(text, pos, class) == text.len() || !class.admits(
            kind_at(text, skip_end(text, pos, class)),
        ),
        !class.admits(kind_at(text, pos)) ==> skip_end(text, pos, class) == pos,
        reaches(text, pos, skip_end(text, pos, class)),
    decreases text.len() - pos,
{
    lemma_token_bounds(text, pos);
    if pos < text.len() && class.admits(kind_at(text, pos)) {
        lemma_skip_end(text, end_at(text, pos), class);
    }
}

/// The error of a token that is not of the kind asked for.
pub open spec fn mismatch(
    text: Seq<u8>,
    pos: int,
    kind: TokenKind,
    suggestion: Option<Suggestion>,
) -> ParseErrorView {
    ParseErrorView {
        message: expected_text(kind.label_text()),
        range: token_at(text, pos).range,
        suggestion,
    }
}

/// Consuming a token of `kind`: on a match the token is returned and passed,
/// otherwise the cursor stays and the mismatch is reported.
pub open spec fn eat_step(
    text: Seq<u8>,
    pos: int,
    kind: TokenKind,
    suggestion: Option<Suggestion>,
) -> Step<Token> {
    if kind_at(text, pos) == kind {
        Step { result: Ok(token_at(text, pos)), pos: end_at(text, pos) }
    } else {
        Step { result: Err(mismatch(text, pos, kind, suggestion)), pos }
    }
}

/// Eating moves the cursor forward or not at all, and never past the text.
pub proof fn lemma_eat_step_bounds(
    text: Seq<u8>,
    pos: int,
    kind: TokenKind,
    suggestion: Option<Suggestion>,
)
    requires
        0 <= pos <= text.len(),
    ensures
        pos <= eat_step(text, pos, kind, suggestion).pos <= text.len(),
        eat_step(text, pos, kind, suggestion).result is Ok && kind != TokenKind::Eof ==> pos
            < eat_step(text, pos, kind, suggestion).pos,
        reaches(text, pos, eat_step(text, pos, kind, suggestion).pos),
{
    lemma_token_bounds(text, pos);
    lemma_reaches_next(text, pos);
}

/// A cursor over the tokens of a text.
pub struct Parser<'a> {
    text: &'a [u8],
    current: Token,
}

impl<'a> Parser<'a> {
    /// The bytes of the text under the cursor.
    pub closed spec fn text(&self) -> Seq<u8> {
        self.text@
    }

    /// The offset at which the current token starts.
    pub closed spec fn pos(&self) -> int {
        self.current.range.start as int
    }

    /// The cursor stands inside the text and holds the token that starts at
    /// its offset.
    pub closed spec fn wf(&self) -> bool {
        &&& self.current.range.start <= self.text@.len() <= usize::MAX
        &&& self.current == token_at(self.text@, self.current.range.start as int)
    }

    /// A well-formed cursor stands inside a text whose offsets fit the machine.
    pub proof fn lemma_bounds(&self)
        requires
            self.wf(),
        ensures
            0 <= self.pos() <= self.text().len() <= usize::MAX,
    {
    }

    /// A cursor at the start of `input`.
    pub fn new(input: &'a str) -> (parser: Parser<'a>)
        ensures
            parser.wf(),
            parser.text() == input.spec_bytes(),
            parser.pos() == 0,
            valid_utf8(parser.text()),
    {
        proof {
            encode_utf8_valid_utf8(input@);
        }
        let text = input.as_bytes();
        Parser { text, current: lex(text, 0) }
    }

    /// The token under the cursor, which stays where it is.
    pub fn current_token(&self) -> (token: Token)
        requires
            self.wf(),
        ensures
            token == token_at(self.text(), self.pos()),
            token.range.start == self.pos(),
            token.range.end == end_at(self.text(), self.pos()),
    {
        proof {
            lemma_token_bounds(self.text@, self.current.range.start as int);
        }
        self.current
    }

    /// Returns the token under the cursor and moves past it. At `Eof` the
    /// cursor stays: the end of input can be read again and again.
    pub fn next_token(&mut self) -> (token: Token)
        requires
            old(self).wf(),
        ensures
            final(self).wf(),
            final(self).text() == old(self).text(),
            token == token_at(old(self).text(), old(self).pos()),
            final(self).pos() == end_at(old(self).text(), old(self).pos()),
            final(self).pos() >= old(self).pos(),
            token.kind != TokenKind::Eof ==> final(self).pos() > old(self).pos(),
            token.kind == TokenKind::Eof ==> *final(self) == *old(self),
            token.range.start == old(self).pos(),
            token.range.end == final(self).pos(),
            final(self).pos() <= final(self).text().len(),
    {
        proof {
            lemma_token_bounds(self.text@, self.current.range.start as int);
        }
        let token = self.current;
        self.current = lex(self.text, token.range.end);
        token
    }

    /// Consumes the current token if it is of `kind`.
    pub fn eat(&mut self, kind: TokenKind) -> (result: Result<Token, ParseError>)
        requires
            old(self).wf(),
        ensures
            final(self).wf(),
            final(self).text() == old(self).text(),
            yields(
                result,
                final(self).pos(),
                eat_step(old(self).text(), old(self).pos(), kind, None),
            ),
            result matches Ok(token) ==> token.range.start == old(self).pos() && token.range.end
                == final(self).pos() <= final(self).text().len(),
            old(self).pos() <= final(self).pos(),
    {
        if self.current.kind == kind {
            Ok(self.next_token())
        } else {
            Err(ParseError::expected(kind.label(), self.current.range))
        }
    }

    /// Consumes the current token if it is of `kind`; a failure carries the
    /// suggestion.
    pub fn eat_or_suggest(&mut self, kind: TokenKind, suggestion: Suggestion) -> (result: Result<
        Token,
        ParseError,
    >)
        requires
            old(self).wf(),
        ensures
            final(self).wf(),
            final(self).text() == old(self).text(),
            yields(
                result,
                final(self).pos(),
                eat_step(old(self).text(), old(self).pos(), kind, Some(suggestion)),
            ),
            result matches Ok(token) ==> token.range.start == old(self).pos() && token.range.end
                == final(self).pos() <= final(self).text().len(),
            old(self).pos() <= final(self).pos(),
    {
        if self.current.kind == kind {
            Ok(self.next_token())
        } else {
            Err(ParseError::expected(kind.label(), self.current.range).with_suggestion(suggestion))
        }
    }

    /// Passes over the tokens of `class` that follow one another from the
    /// cursor on.
    pub fn skip_while(&mut self, class: TokenClass)
        requires
            old(self).wf(),
        ensures
            final(self).wf(),
            final(self).text() == old(self).text(),
            final(self).pos() == skip_end(old(self).text(), old(self).pos(), class),
            old(self).pos() <= final(self).pos() <= final(self).text().len(),
    {
        proof {
            lemma_token_bounds(self.text@, self.current.range.start as int);
        }
        while self.current.kind != TokenKind::Eof && class.matches(self.current.kind)
            invariant
                self.wf(),
                self.text() == old(self).text(),
                skip_end(old(self).text(), old(self).pos(), class) == skip_end(
                    self.text(),
                    self.pos(),
                    class,
                ),
                old(self).pos() <= self.pos(),
            decreases self.text().len() - self.pos(),
        {
            proof {
                lemma_token_bounds(self.text@, self.current.range.start as int);
            }
            self.next_token();
        }
        proof {
            lemma_token_bounds(self.text@, self.current.range.start as int);
        }
    }

    /// Passes over zero or more tokens of `kind`.
    pub fn skip(&mut self, kind: TokenKind)
        requires
            old(self).wf(),
        ensures
            final(self).wf(),
            final(self).text() == old(self).text(),
            final(self).pos() == skip_end(
                old(self).text(),
                old(self).pos(),
                TokenClass::Kind(kind),
            ),
            old(self).pos() <= final(self).pos() <= final(self).text().len(),
    {
        self.skip_while(TokenClass::Kind(kind))
    }

    /// The whole text under the cursor.
    pub fn source(&self) -> (bytes: &'a [u8])
        ensures
            bytes@ == self.text(),
    {
        self.text
    }

    /// The bytes of the text in `range`.
    pub fn read(&self, range: SourceRange) -> (bytes: &'a [u8])
        requires
            range.start <= range.end <= self.text().len(),
        ensures
            bytes@ == self.text().subrange(range.start as int, range.end as int),
    {
        slice_subrange(self.text, range.start, range.end)
    }

    /// The bytes that `token` covers.
    pub fn read_token(&self, token: &Token) -> (bytes: &'a [u8])
        requires
            token.range.start <= token.range.end <= self.text().len(),
        ensures
            bytes@ == self.text().subrange(token.range.start as int, token.range.end as int),
    {
        self.read(token.range)
    }

    /// An error with `message` at `range`.
    pub fn error(&self, message: &str, range: SourceRange) -> (e: ParseError)
        ensures
            e@ == (ParseErrorView { message: message@, range, suggestion: None }),
    {
        ParseError::new(message, range)
    }
}

} // verus!
