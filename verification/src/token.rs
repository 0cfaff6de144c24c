//! Tokens and the source ranges they cover.
use vstd::prelude::*;

verus! {

/// The three comment forms, told apart by the length of their slash marker.
#[derive(Clone, Copy, Debug, PartialEq, Eq, Structural)]
pub enum CommentKind {
    /// `//`: a plain note.
    Note,
    /// `///`: documentation of the header itself.
    HeaderDoc,
    /// `////`: documentation of the header's configuration.
    ConfigDoc,
}

/// The classification of a token.
#[derive(Clone, Copy, Debug, PartialEq, Eq, Structural)]
pub enum TokenKind {
    Identifier,
    Number,
    String { terminated: bool },
    Whitespace,
    Newline,
    Comment { kind: CommentKind },
    Eof,
    Separator,
    Eq,
    Colon,
    Pound,
    Bang,
    Dollar,
    OpenParen,
    CloseParen,
    Minus,
    /// A run of bytes that starts no other token.
    Error,
}

/// A half-open range of byte offsets into the source text.
#[derive(Clone, Copy, Debug, PartialEq, Eq, Structural)]
pub struct SourceRange {
    pub start: usize,
    pub end: usize,
}

/// A classified stretch of the source text.
#[derive(Clone, Copy, Debug, PartialEq, Eq, Structural)]
pub struct Token {
    pub kind: TokenKind,
    pub range: SourceRange,
}

impl TokenKind {
    /// The name under which a token kind appears in diagnostics.
    pub open spec fn label_text(self) -> Seq<char> {
        match self {
            TokenKind::Identifier => "Identifier"@,
            TokenKind::Number => "Number"@,
            TokenKind::String { .. } => "String"@,
            TokenKind::Whitespace => "Whitespace"@,
            TokenKind::Newline => "Newline"@,
            TokenKind::Comment { .. } => "Comment"@,
            TokenKind::Eof => "Eof"@,
            TokenKind::Separator => "Separator"@,
            TokenKind::Eq => "Eq"@,
            TokenKind::Colon => "Colon"@,
            TokenKind::Pound => "Pound"@,
            TokenKind::Bang => "Bang"@,
            TokenKind::Dollar => "Dollar"@,
            TokenKind::OpenParen => "OpenParen"@,
            TokenKind::CloseParen => "CloseParen"@,
            TokenKind::Minus => "Minus"@,
            TokenKind::Error => "Error"@,
        }
    }

    /// The name under which a token kind appears in diagnostics.
    pub fn label(&self) -> (s: &'static str)
        ensures
            s@ == self.label_text(),
    {
        match self {
            TokenKind::Identifier => "Identifier",
            TokenKind::Number => "Number",
            TokenKind::String { .. } => "String",
            TokenKind::Whitespace => "Whitespace",
            TokenKind::Newline => "Newline",
            TokenKind::Comment { .. } => "Comment",
            TokenKind::Eof => "Eof",
            TokenKind::Separator => "Separator",
            TokenKind::Eq => "Eq",
            TokenKind::Colon => "Colon",
            TokenKind::Pound => "Pound",
            TokenKind::Bang => "Bang",
            TokenKind::Dollar => "Dollar",
            TokenKind::OpenParen => "OpenParen",
            TokenKind::CloseParen => "CloseParen",
            TokenKind::Minus => "Minus",
            TokenKind::Error => "Error",
        }
    }
}

impl SourceRange {
    /// Whether the range covers no byte.
    pub fn is_empty(&self) -> (r: bool)
        ensures
            r == (self.start >= self.end),
    {
        self.start >= self.end
    }
}

} // verus!
