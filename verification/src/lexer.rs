//! The tokenizer: a total function from a text and an offset to the token
//! that starts there.
use vstd::prelude::*;
use vstd::string::StringSliceAdditionalSpecFns;
use crate::token::{CommentKind, SourceRange, Token, TokenKind};

verus! {

/// Classes of bytes that make up the runs inside tokens.
#[derive(Clone, Copy, Debug, PartialEq, Eq, Structural)]
pub enum ByteClass {
    /// Letters, digits and the underscore.
    Word,
    /// Decimal digits.
    Digit,
    /// Spaces, tabs and carriage returns.
    Blank,
    /// Anything but a double quote or a line feed.
    StringBody,
    /// Anything but a line feed.
    LineBody,
    /// Bytes that can start no token of another kind.
    Stray,
}

/// An ASCII letter or the underscore: what an identifier starts with.
pub open spec fn is_letter(b: u8) -> bool {
    (0x41 <= b <= 0x5a) || (0x61 <= b <= 0x7a) || b == 0x5f
}

/// A decimal digit.
pub open spec fn is_digit(b: u8) -> bool {
    0x30 <= b <= 0x39
}

/// A space, a tab or a carriage return: what white space tokens are made of.
pub open spec fn is_blank(b: u8) -> bool {
    b == 0x20 || b == 0x09 || b == 0x0d
}

/// The punctuation token that a single reserved byte stands for.
pub open spec fn punctuation(b: u8) -> Option<TokenKind> {
    if b == 0x7c {
        Some(TokenKind::Separator)
    } else if b == 0x3d {
        Some(TokenKind::Eq)
    } else if b == 0x3a {
        Some(TokenKind::Colon)
    } else if b == 0x23 {
        Some(TokenKind::Pound)
    } else if b == 0x21 {
        Some(TokenKind::Bang)
    } else if b == 0x24 {
        Some(TokenKind::Dollar)
    } else if b == 0x28 {
        Some(TokenKind::OpenParen)
    } else if b == 0x29 {
        Some(TokenKind::CloseParen)
    } else {
        None
    }
}

/// A byte with which no token but an `Error` token can continue.
pub open spec fn is_stray(b: u8) -> bool {
    !is_letter(b) && !is_digit(b) && !is_blank(b) && punctuation(b).is_none() && b != 0x0a
        && b != 0x22 && b != 0x2d && b != 0x2f
}

impl ByteClass {
    /// Whether the byte belongs to the class.
    pub open spec fn holds(self, b: u8) -> bool {
        match self {
            ByteClass::Word => is_letter(b) || is_digit(b),
            ByteClass::Digit => is_digit(b),
            ByteClass::Blank => is_blank(b),
            ByteClass::StringBody => b != 0x22 && b != 0x0a,
            ByteClass::LineBody => b != 0x0a,
            ByteClass::Stray => is_stray(b),
        }
    }

    /// Tells whether the byte belongs to the class.
    pub fn contains(&self, b: u8) -> (r: bool)
        ensures
            r == self.holds(b),
    {
        match self {
            ByteClass::Word => letter(b) || digit(b),
            ByteClass::Digit => digit(b),
            ByteClass::Blank => blank(b),
            ByteClass::StringBody => b != 0x22 && b != 0x0a,
            ByteClass::LineBody => b != 0x0a,
            ByteClass::Stray => !letter(b) && !digit(b) && !blank(b) && punctuation_kind(
                b,
            ).is_none() && b != 0x0a && b != 0x22 && b != 0x2d && b != 0x2f,
        }
    }
}

/// Tells whether the byte is an ASCII letter or the underscore.
pub fn letter(b: u8) -> (r: bool)
    ensures
        r == is_letter(b),
{
    (0x41 <= b && b <= 0x5a) || (0x61 <= b && b <= 0x7a) || b == 0x5f
}

/// Tells whether the byte is a decimal digit.
pub fn digit(b: u8) -> (r: bool)
    ensures
        r == is_digit(b),
{
    0x30 <= b && b <= 0x39
}

/// Tells whether the byte is a space, a tab or a carriage return.
pub fn blank(b: u8) -> (r: bool)
    ensures
        r == is_blank(b),
{
    b == 0x20 || b == 0x09 || b == 0x0d
}

/// The punctuation token that a single reserved byte stands for.
pub fn punctuation_kind(b: u8) -> (r: Option<TokenKind>)
    ensures
        r == punctuation(b),
{
    if b == 0x7c {
        Some(TokenKind::Separator)
    } else if b == 0x3d {
        Some(TokenKind::Eq)
    } else if b == 0x3a {
        Some(TokenKind::Colon)
    } else if b == 0x23 {
        Some(TokenKind::Pound)
    } else if b == 0x21 {
        Some(TokenKind::Bang)
    } else if b == 0x24 {
        Some(TokenKind::Dollar)
    } else if b == 0x28 {
        Some(TokenKind::OpenParen)
    } else if b == 0x29 {
        Some(TokenKind::CloseParen)
    } else {
        None
    }
}

/// The end of the longest run of bytes of `class` that starts at `pos`.
pub open spec fn run_end(text: Seq<u8>, pos: int, class: ByteClass) -> int
    decreases text.len() - pos,
{
    if 0 <= pos < text.len() && class.holds(text[pos]) {
        run_end(text, pos + 1, class)
    } else {
        pos
    }
}

/// `run_end` is the first offset from `pos` on at which the class fails or
/// the text ends.
pub proof fn lemma_run_end(text: Seq<u8>, pos: int, class: ByteClass)
    requires
        0 <= pos <= text.len(),
    ensures
        pos <= run_end(text, pos, class) <= text.len(),
        forall|i: int| pos <= i < run_end(text, pos, class) ==> class.holds(#[trigger] text[i]),
        run_end(text, pos, class) < text.len() ==> !class.holds(
            text[run_end(text, pos, class)],
        ),
    decreases text.len() - pos,
{
    if pos < text.len() && class.holds(text[pos]) {
        lemma_run_end(text, pos + 1, class);
    }
}

/// Finds the end of the longest run of bytes of `class` that starts at `pos`.
pub fn scan_run(text: &[u8], pos: usize, class: ByteClass) -> (end: usize)
    requires
        pos <= text@.len(),
    ensures
        end == run_end(text@, pos as int, class),
        pos <= end <= text@.len(),
{
    let mut i: usize = pos;
    while i < text.len() && class.contains(text[i])
        invariant
            pos <= i <= text@.len(),
            run_end(text@, pos as int, class) == run_end(text@, i as int, class),
        decreases text@.len() - i,
    {
        i += 1;
    }
    i
}

/// The start of the longest run of bytes of `class` that ends at `pos`.
pub open spec fn run_start(text: Seq<u8>, pos: int, class: ByteClass) -> int
    decreases pos,
{
    if 0 < pos <= text.len() && class.holds(text[pos - 1]) {
        run_start(text, pos - 1, class)
    } else {
        pos
    }
}

/// `run_start` is the least offset from which the class holds up to `pos`.
pub proof fn lemma_run_start(text: Seq<u8>, pos: int, class: ByteClass)
    requires
        0 <= pos <= text.len(),
    ensures
        0 <= run_start(text, pos, class) <= pos,
        forall|i: int| run_start(text, pos, class) <= i < pos ==> class.holds(#[trigger] text[i]),
        run_start(text, pos, class) > 0 ==> !class.holds(text[run_start(text, pos, class) - 1]),
    decreases pos,
{
    if 0 < pos && class.holds(text[pos - 1]) {
        lemma_run_start(text, pos - 1, class);
    }
}

/// Finds the start of the longest run of bytes of `class` that ends at `pos`.
pub fn scan_back(text: &[u8], pos: usize, class: ByteClass) -> (start: usize)
    requires
        pos <= text@.len(),
    ensures
        start == run_start(text@, pos as int, class),
        start <= pos,
{
    let mut i: usize = pos;
    while i > 0 && class.contains(text[i - 1])
        invariant
            i <= pos <= text@.len(),
            run_start(text@, pos as int, class) == run_start(text@, i as int, class),
        decreases i,
    {
        i -= 1;
    }
    i
}

/// The kind of the comment whose two leading slashes stand at `pos`.
pub open spec fn comment_kind_at(text: Seq<u8>, pos: int) -> CommentKind {
    if pos + 2 < text.len() && text[pos + 2] == 0x2f {
        if pos + 3 < text.len() && text[pos + 3] == 0x2f {
            CommentKind::ConfigDoc
        } else {
            CommentKind::HeaderDoc
        }
    } else {
        CommentKind::Note
    }
}

/// The kind of the token that starts at `pos` and the offset at which it ends.
///
/// Past the end of the text the token is `Eof`, of width zero.
#[verifier::opaque]
pub open spec fn shape_at(text: Seq<u8>, pos: int) -> (TokenKind, int) {
    if !(0 <= pos < text.len()) {
        (TokenKind::Eof, pos)
    } else if is_letter(text[pos]) {
        (TokenKind::Identifier, run_end(text, pos + 1, ByteClass::Word))
    } else if is_digit(text[pos]) {
        (TokenKind::Number, run_end(text, pos + 1, ByteClass::Digit))
    } else if text[pos] == 0x2d {
        if pos + 1 < text.len() && is_digit(text[pos + 1]) {
            (TokenKind::Number, run_end(text, pos + 1, ByteClass::Digit))
        } else {
            (TokenKind::Minus, pos + 1)
        }
    } else if text[pos] == 0x22 {
        let stop = run_end(text, pos + 1, ByteClass::StringBody);
        if stop < text.len() && text[stop] == 0x22 {
            (TokenKind::String { terminated: true }, stop + 1)
        } else {
            (TokenKind::String { terminated: false }, stop)
        }
    } else if text[pos] == 0x2f && pos + 1 < text.len() && text[pos + 1] == 0x2f {
        (
            TokenKind::Comment { kind: comment_kind_at(text, pos) },
            run_end(text, pos + 2, ByteClass::LineBody),
        )
    } else if is_blank(text[pos]) {
        (TokenKind::Whitespace, run_end(text, pos + 1, ByteClass::Blank))
    } else if text[pos] == 0x0a {
        (TokenKind::Newline, pos + 1)
    } else if punctuation(text[pos]) is Some {
        (punctuation(text[pos])->0, pos + 1)
    } else {
        (TokenKind::Error, run_end(text, pos + 1, ByteClass::Stray))
    }
}

/// The kind of the token that starts at `pos`.
pub open spec fn kind_at(text: Seq<u8>, pos: int) -> TokenKind {
    shape_at(text, pos).0
}

/// The offset at which the token that starts at `pos` ends.
pub open spec fn end_at(text: Seq<u8>, pos: int) -> int {
    shape_at(text, pos).1
}

/// The token that starts at `pos`.
pub open spec fn token_at(text: Seq<u8>, pos: int) -> Token {
    Token {
        kind: kind_at(text, pos),
        range: SourceRange { start: pos as usize, end: end_at(text, pos) as usize },
    }
}

/// Every token inside the text is non-empty and ends inside the text; the
/// token at the end of the text is `Eof`, and no other token is.
pub proof fn lemma_token_bounds(text: Seq<u8>, pos: int)
    requires
        0 <= pos <= text.len(),
    ensures
        pos <= end_at(text, pos) <= text.len(),
        pos < text.len() ==> pos < end_at(text, pos),
        (kind_at(text, pos) == TokenKind::Eof) <==> pos == text.len(),
        pos == text.len() ==> end_at(text, pos) == pos,
{
    reveal(shape_at);
    if pos < text.len() {
        lemma_run_end(text, pos + 1, ByteClass::Word);
        lemma_run_end(text, pos + 1, ByteClass::Digit);
        lemma_run_end(text, pos + 1, ByteClass::StringBody);
        lemma_run_end(text, pos + 1, ByteClass::Blank);
        lemma_run_end(text, pos + 1, ByteClass::Stray);
        if pos + 1 < text.len() {
            lemma_run_end(text, pos + 2, ByteClass::LineBody);
        }
    }
}

/// The length of the slash marker that opens a comment of `kind`.
pub open spec fn marker_len(kind: CommentKind) -> int {
    match kind {
        CommentKind::Note => 2,
        CommentKind::HeaderDoc => 3,
        CommentKind::ConfigDoc => 4,
    }
}

/// What the kind of a token says of its bytes: a comment holds its marker,
/// a string its opening quote, a terminated string both quotes and no line
/// feed, and only white space starts with a blank.
pub proof fn lemma_token_shape(text: Seq<u8>, pos: int)
    requires
        0 <= pos < text.len(),
    ensures
        kind_at(text, pos) matches TokenKind::Comment { kind } ==> pos + marker_len(kind)
            <= end_at(text, pos),
        kind_at(text, pos) is String ==> pos + 1 <= end_at(text, pos),
        kind_at(text, pos) == (TokenKind::String { terminated: true }) ==> pos + 2 <= end_at(
            text,
            pos,
        ),
        kind_at(text, pos) != TokenKind::Whitespace ==> !is_blank(text[pos]),
        kind_at(text, pos) == TokenKind::Newline <==> text[pos] == 0x0a,
        kind_at(text, pos) != TokenKind::Newline ==> forall|i: int|
            pos <= i < end_at(text, pos) ==> #[trigger] text[i] != 0x0a,
{
    reveal(shape_at);
    lemma_token_bounds(text, pos);
    lemma_run_end(text, pos + 1, ByteClass::Word);
    lemma_run_end(text, pos + 1, ByteClass::Digit);
    lemma_run_end(text, pos + 1, ByteClass::StringBody);
    lemma_run_end(text, pos + 1, ByteClass::Blank);
    lemma_run_end(text, pos + 1, ByteClass::Stray);
    if pos + 1 < text.len() {
        lemma_run_end(text, pos + 2, ByteClass::LineBody);
        if text[pos] == 0x2f && text[pos + 1] == 0x2f {
            if pos + 2 < text.len() && text[pos + 2] == 0x2f {
                lemma_run_end(text, pos + 3, ByteClass::LineBody);
                assert(run_end(text, pos + 2, ByteClass::LineBody) == run_end(
                    text,
                    pos + 3,
                    ByteClass::LineBody,
                ));
                if pos + 3 < text.len() && text[pos + 3] == 0x2f {
                    lemma_run_end(text, pos + 4, ByteClass::LineBody);
                    assert(run_end(text, pos + 3, ByteClass::LineBody) == run_end(
                        text,
                        pos + 4,
                        ByteClass::LineBody,
                    ));
                }
            }
        }
    }
}

/// The bytes at the edges of a token: a token ends with the text, before
/// an ASCII byte or after one; a string opens with a quote, and closes with
/// one where it is terminated; a comment opens with its marker of slashes.
pub proof fn lemma_token_edges(text: Seq<u8>, pos: int)
    requires
        0 <= pos < text.len(),
    ensures
        pos < end_at(text, pos) <= text.len(),
        end_at(text, pos) == text.len() || text[end_at(text, pos)] <= 0x7f || text[end_at(
            text,
            pos,
        ) - 1] <= 0x7f,
        kind_at(text, pos) is String ==> text[pos] == 0x22,
        kind_at(text, pos) == (TokenKind::String { terminated: true }) ==> pos + 2 <= end_at(
            text,
            pos,
        ) && text[end_at(text, pos) - 1] == 0x22,
        kind_at(text, pos) matches TokenKind::Comment { kind } ==> pos + marker_len(kind)
            <= end_at(text, pos) && forall|i: int|
            pos <= i < pos + marker_len(kind) ==> #[trigger] text[i] == 0x2f,
{
    reveal(shape_at);
    lemma_token_bounds(text, pos);
    lemma_token_shape(text, pos);
    lemma_run_end(text, pos + 1, ByteClass::Word);
    lemma_run_end(text, pos + 1, ByteClass::Digit);
    lemma_run_end(text, pos + 1, ByteClass::StringBody);
    lemma_run_end(text, pos + 1, ByteClass::Blank);
    lemma_run_end(text, pos + 1, ByteClass::Stray);
    if pos + 1 < text.len() {
        lemma_run_end(text, pos + 2, ByteClass::LineBody);
    }
    let end = end_at(text, pos);
    if is_letter(text[pos]) || is_digit(text[pos]) || is_blank(text[pos]) {
        if end > pos + 1 {
            assert(text[end - 1] <= 0x7f);
        }
    } else if text[pos] == 0x2d && pos + 1 < text.len() && is_digit(text[pos + 1]) {
        assert(end >= pos + 2);
        assert(text[end - 1] <= 0x7f);
    }
}

/// Reads the token that starts at `pos`.
pub fn lex(text: &[u8], pos: usize) -> (token: Token)
    requires
        pos <= text@.len(),
    ensures
        token == token_at(text@, pos as int),
        token.range.start == pos,
        pos <= token.range.end <= text@.len() <= usize::MAX,
{
    proof {
        reveal(shape_at);
        lemma_token_bounds(text@, pos as int);
    }
    let len = text.len();
    if pos >= len {
        return Token { kind: TokenKind::Eof, range: SourceRange { start: pos, end: pos } };
    }
    let b = text[pos];
    let kind: TokenKind;
    let end: usize;
    if letter(b) {
        kind = TokenKind::Identifier;
        end = scan_run(text, pos + 1, ByteClass::Word);
    } else if digit(b) {
        kind = TokenKind::Number;
        end = scan_run(text, pos + 1, ByteClass::Digit);
    } else if b == 0x2d {
        if pos + 1 < len && digit(text[pos + 1]) {
            kind = TokenKind::Number;
            end = scan_run(text, pos + 1, ByteClass::Digit);
        } else {
            kind = TokenKind::Minus;
            end = pos + 1;
        }
    } else if b == 0x22 {
        let stop = scan_run(text, pos + 1, ByteClass::StringBody);
        if stop < len && text[stop] == 0x22 {
            kind = TokenKind::String { terminated: true };
            end = stop + 1;
        } else {
            kind = TokenKind::String { terminated: false };
            end = stop;
        }
    } else if b == 0x2f && pos + 1 < len && text[pos + 1] == 0x2f {
        let comment = if pos + 2 < len && text[pos + 2] == 0x2f {
            if pos + 3 < len && text[pos + 3] == 0x2f {
                CommentKind::ConfigDoc
            } else {
                CommentKind::HeaderDoc
            }
        } else {
            CommentKind::Note
        };
        kind = TokenKind::Comment { kind: comment };
        end = scan_run(text, pos + 2, ByteClass::LineBody);
    } else if blank(b) {
        kind = TokenKind::Whitespace;
        end = scan_run(text, pos + 1, ByteClass::Blank);
    } else if b == 0x0a {
        kind = TokenKind::Newline;
        end = pos + 1;
    } else {
        match punctuation_kind(b) {
            Some(k) => {
                kind = k;
                end = pos + 1;
            },
            None => {
                kind = TokenKind::Error;
                end = scan_run(text, pos + 1, ByteClass::Stray);
            },
        }
    }
    Token { kind, range: SourceRange { start: pos, end } }
}

/// The tokens of the text from `pos` on, up to and including `Eof`.
pub open spec fn tokens_from(text: Seq<u8>, pos: int) -> Seq<Token>
    decreases text.len() - pos,
{
    if 0 <= pos < end_at(text, pos) <= text.len() {
        seq![token_at(text, pos)] + tokens_from(text, end_at(text, pos))
    } else {
        seq![token_at(text, pos)]
    }
}

/// Tokenization is total: the sequence is never empty, its last token is
/// `Eof` at the end of the text, and no earlier token is `Eof` or empty.
pub proof fn lemma_tokens_end_in_eof(text: Seq<u8>, pos: int)
    requires
        0 <= pos <= text.len() <= usize::MAX,
    ensures
        tokens_from(text, pos).len() >= 1,
        tokens_from(text, pos).last() == token_at(text, text.len() as int),
        tokens_from(text, pos).last().kind == TokenKind::Eof,
        forall|i: int|
            0 <= i < tokens_from(text, pos).len() - 1 ==> {
                &&& (#[trigger] tokens_from(text, pos)[i]).kind != TokenKind::Eof
                &&& tokens_from(text, pos)[i].range.start < tokens_from(text, pos)[i].range.end
            },
    decreases text.len() - pos,
{
    lemma_token_bounds(text, pos);
    lemma_token_bounds(text, text.len() as int);
    if pos < text.len() {
        let next = end_at(text, pos);
        lemma_tokens_end_in_eof(text, next);
        let rest = tokens_from(text, next);
        let all = tokens_from(text, pos);
        assert(all =~= seq![token_at(text, pos)] + rest);
        assert(all.last() == rest.last());
        assert forall|i: int| 0 <= i < all.len() - 1 implies {
            &&& (#[trigger] all[i]).kind != TokenKind::Eof
            &&& all[i].range.start < all[i].range.end
        } by {
            if i > 0 {
                assert(all[i] == rest[i - 1]);
            }
        }
    }
}

/// Token ranges tile the text: the first token starts at `pos`, each token
/// starts where the one before it ends, and the last ends with the text.
pub proof fn lemma_tokens_contiguous(text: Seq<u8>, pos: int)
    requires
        0 <= pos <= text.len() <= usize::MAX,
    ensures
        tokens_from(text, pos)[0].range.start == pos,
        tokens_from(text, pos).last().range.end == text.len(),
        forall|i: int, j: int|
            0 <= i && j == i + 1 && j < tokens_from(text, pos).len() ==> (#[trigger] tokens_from(
                text,
                pos,
            )[i]).range.end == (#[trigger] tokens_from(text, pos)[j]).range.start,
    decreases text.len() - pos,
{
    lemma_token_bounds(text, pos);
    lemma_token_bounds(text, text.len() as int);
    lemma_tokens_end_in_eof(text, pos);
    if pos < text.len() {
        let next = end_at(text, pos);
        lemma_tokens_contiguous(text, next);
        let rest = tokens_from(text, next);
        let all = tokens_from(text, pos);
        assert(all =~= seq![token_at(text, pos)] + rest);
        assert(all.last() == rest.last());
        assert forall|i: int, j: int| 0 <= i && j == i + 1 && j < all.len() implies (
        #[trigger] all[i]).range.end == (#[trigger] all[j]).range.start by {
            assert(all[j] == rest[j - 1]);
            if i > 0 {
                assert(all[i] == rest[i - 1]);
            }
        }
    }
}

/// Reading tokens from `from` on, one after another, comes to `to`: the
/// cursor can stand there.
pub open spec fn reaches(text: Seq<u8>, from: int, to: int) -> bool
    decreases text.len() - from,
{
    from == to || (0 <= from < end_at(text, from) <= text.len() && from < to && reaches(
        text,
        end_at(text, from),
        to,
    ))
}

/// What is reached lies at or after the start, inside the text.
pub proof fn lemma_reaches_bounds(text: Seq<u8>, from: int, to: int)
    requires
        0 <= from <= text.len(),
        reaches(text, from, to),
    ensures
        from <= to <= text.len(),
    decreases text.len() - from,
{
    if from != to {
        lemma_reaches_bounds(text, end_at(text, from), to);
    }
}

/// The end of a token is reached from its start.
pub proof fn lemma_reaches_next(text: Seq<u8>, pos: int)
    requires
        0 <= pos <= text.len(),
    ensures
        reaches(text, pos, end_at(text, pos)),
{
    lemma_token_bounds(text, pos);
    assert(reaches(text, end_at(text, pos), end_at(text, pos)));
}

/// What is reached from what is reached is reached.
pub proof fn lemma_reaches_trans(text: Seq<u8>, from: int, via: int, to: int)
    requires
        0 <= from <= text.len(),
        reaches(text, from, via),
        reaches(text, via, to),
    ensures
        reaches(text, from, to),
    decreases text.len() - from,
{
    if from != via {
        lemma_reaches_bounds(text, from, via);
        lemma_reaches_bounds(text, via, to);
        lemma_reaches_trans(text, end_at(text, from), via, to);
    }
}

/// Each token between two places that the cursor can stand at is one token
/// less to read: fewer tokens are left at the later place.
pub proof fn lemma_reaches_leaves_fewer_tokens(text: Seq<u8>, from: int, to: int)
    requires
        0 <= from <= text.len(),
        reaches(text, from, to),
    ensures
        tokens_from(text, to).len() <= tokens_from(text, from).len(),
        from < to ==> tokens_from(text, to).len() < tokens_from(text, from).len(),
    decreases text.len() - from,
{
    if from != to {
        lemma_reaches_leaves_fewer_tokens(text, end_at(text, from), to);
    }
}

/// Splits the whole text into its tokens, `Eof` last.
pub fn tokenize(input: &str) -> (tokens: Vec<Token>)
    ensures
        tokens@ == tokens_from(input.spec_bytes(), 0),
        tokens@.len() >= 1,
        tokens@.last().kind == TokenKind::Eof,
{
    let text = input.as_bytes();
    let mut tokens: Vec<Token> = Vec::new();
    let mut pos: usize = 0;
    let len = text.len();
    proof {
        lemma_tokens_end_in_eof(text@, 0);
    }
    while pos < len
        invariant
            pos <= text@.len() == len,
            tokens_from(text@, 0) == tokens@ + tokens_from(text@, pos as int),
        decreases text@.len() - pos,
    {
        let token = lex(text, pos);
        proof {
            lemma_token_bounds(text@, pos as int);
            assert(tokens@.push(token) + tokens_from(text@, token.range.end as int) =~= tokens@
                + tokens_from(text@, pos as int));
        }
        tokens.push(token);
        pos = token.range.end;
    }
    let eof = lex(text, pos);
    proof {
        assert(tokens@.push(eof) =~= tokens@ + tokens_from(text@, pos as int));
    }
    tokens.push(eof);
    tokens
}

} // verus!
