//! Helpers on the raw bytes of a line: trimming white space and cutting off
//! a trailing comment.
//!
//! White space is every character with the Unicode property `White_Space`,
//! in its UTF-8 encoding; trimming removes whole encodings, never a part of
//! one.
use vstd::prelude::*;
use vstd::slice::slice_subrange;

verus! {

/// A white space character of one byte: space, tab, line feed, vertical
/// tab, form feed or carriage return.
pub open spec fn is_space(b: u8) -> bool {
    b == 0x20 || (0x09 <= b <= 0x0d)
}

/// A white space character of two bytes: U+0085 or U+00A0.
pub open spec fn is_space_pair(a: u8, b: u8) -> bool {
    a == 0xc2 && (b == 0x85 || b == 0xa0)
}

/// A white space character of three bytes: U+1680, U+2000 to U+200A,
/// U+2028, U+2029, U+202F, U+205F or U+3000.
pub open spec fn is_space_triple(a: u8, b: u8, c: u8) -> bool {
    ||| a == 0xe1 && b == 0x9a && c == 0x80
    ||| a == 0xe2 && b == 0x80 && (0x80 <= c <= 0x8a || c == 0xa8 || c == 0xa9 || c == 0xaf)
    ||| a == 0xe2 && b == 0x81 && c == 0x9f
    ||| a == 0xe3 && b == 0x80 && c == 0x80
}

/// The number of bytes of the white space character that starts at `pos`;
/// zero where none starts there.
pub open spec fn space_width_at(text: Seq<u8>, pos: int) -> int {
    if 0 <= pos < text.len() && is_space(text[pos]) {
        1
    } else if 0 <= pos && pos + 1 < text.len() && is_space_pair(text[pos], text[pos + 1]) {
        2
    } else if 0 <= pos && pos + 2 < text.len() && is_space_triple(
        text[pos],
        text[pos + 1],
        text[pos + 2],
    ) {
        3
    } else {
        0
    }
}

/// The number of bytes of the white space character that ends at `pos`;
/// zero where none ends there.
pub open spec fn space_width_before(text: Seq<u8>, pos: int) -> int {
    if 1 <= pos <= text.len() && is_space(text[pos - 1]) {
        1
    } else if 2 <= pos <= text.len() && is_space_pair(text[pos - 2], text[pos - 1]) {
        2
    } else if 3 <= pos <= text.len() && is_space_triple(
        text[pos - 3],
        text[pos - 2],
        text[pos - 1],
    ) {
        3
    } else {
        0
    }
}

/// The offset reached from `pos` by passing over white space characters.
pub open spec fn spaces_end(text: Seq<u8>, pos: int) -> int
    decreases text.len() - pos,
{
    if space_width_at(text, pos) > 0 {
        spaces_end(text, pos + space_width_at(text, pos))
    } else {
        pos
    }
}

/// The offset reached from `pos` by passing back over white space
/// characters.
pub open spec fn spaces_start(text: Seq<u8>, pos: int) -> int
    decreases pos,
{
    if space_width_before(text, pos) > 0 {
        spaces_start(text, pos - space_width_before(text, pos))
    } else {
        pos
    }
}

/// Passing over white space ends inside the text, where no white space
/// character starts.
pub proof fn lemma_spaces_end(text: Seq<u8>, pos: int)
    requires
        0 <= pos <= text.len(),
    ensures
        pos <= spaces_end(text, pos) <= text.len(),
        space_width_at(text, spaces_end(text, pos)) == 0,
    decreases text.len() - pos,
{
    if space_width_at(text, pos) > 0 {
        lemma_spaces_end(text, pos + space_width_at(text, pos));
    }
}

/// Passing back over white space ends inside the text, where no white space
/// character ends.
pub proof fn lemma_spaces_start(text: Seq<u8>, pos: int)
    requires
        0 <= pos <= text.len(),
    ensures
        0 <= spaces_start(text, pos) <= pos,
        space_width_before(text, spaces_start(text, pos)) == 0,
    decreases pos,
{
    if space_width_before(text, pos) > 0 {
        lemma_spaces_start(text, pos - space_width_before(text, pos));
    }
}

/// The offset at which the text starts once leading white space is dropped.
pub open spec fn trim_start_at(text: Seq<u8>) -> int {
    spaces_end(text, 0)
}

/// The offset at which the text ends once trailing white space is dropped;
/// never before `trim_start_at`.
pub open spec fn trim_end_at(text: Seq<u8>) -> int {
    if spaces_start(text, text.len() as int) < trim_start_at(text) {
        trim_start_at(text)
    } else {
        spaces_start(text, text.len() as int)
    }
}

/// The text without its leading and trailing white space.
pub open spec fn trimmed(text: Seq<u8>) -> Seq<u8> {
    text.subrange(trim_start_at(text), trim_end_at(text))
}

/// The text without its trailing white space.
pub open spec fn trimmed_end(text: Seq<u8>) -> Seq<u8> {
    text.subrange(0, spaces_start(text, text.len() as int))
}

/// A trimmed text neither starts nor ends with a white space character, and
/// trimming it again changes nothing.
pub proof fn lemma_trimmed(text: Seq<u8>)
    ensures
        space_width_at(trimmed(text), 0) == 0,
        space_width_before(trimmed(text), trimmed(text).len() as int) == 0,
        trimmed(trimmed(text)) == trimmed(text),
{
    let start = trim_start_at(text);
    let end = trim_end_at(text);
    let inner = trimmed(text);
    lemma_spaces_end(text, 0);
    lemma_spaces_start(text, text.len() as int);
    assert(inner.len() == end - start);
    if space_width_at(inner, 0) > 0 {
        assert(inner[0] == text[start]);
        if inner.len() > 1 {
            assert(inner[1] == text[start + 1]);
        }
        if inner.len() > 2 {
            assert(inner[2] == text[start + 2]);
        }
        assert(space_width_at(text, start) > 0);
    }
    if space_width_before(inner, inner.len() as int) > 0 {
        assert(inner[inner.len() - 1] == text[end - 1]);
        if inner.len() > 1 {
            assert(inner[inner.len() - 2] == text[end - 2]);
        }
        if inner.len() > 2 {
            assert(inner[inner.len() - 3] == text[end - 3]);
        }
        assert(space_width_before(text, end) > 0);
    }
    assert(trimmed(inner) =~= inner);
}

/// A text whose trailing white space is dropped does not end with a white
/// space character, and dropping again changes nothing.
pub proof fn lemma_trimmed_end(text: Seq<u8>)
    ensures
        trimmed_end(text).is_prefix_of(text),
        space_width_before(trimmed_end(text), trimmed_end(text).len() as int) == 0,
        trimmed_end(trimmed_end(text)) == trimmed_end(text),
{
    let end = spaces_start(text, text.len() as int);
    let inner = trimmed_end(text);
    lemma_spaces_start(text, text.len() as int);
    assert(inner.len() == end);
    if space_width_before(inner, inner.len() as int) > 0 {
        assert(inner[inner.len() - 1] == text[end - 1]);
        if inner.len() > 1 {
            assert(inner[inner.len() - 2] == text[end - 2]);
        }
        if inner.len() > 2 {
            assert(inner[inner.len() - 3] == text[end - 3]);
        }
        assert(space_width_before(text, end) > 0);
    }
    assert(trimmed_end(inner) =~= inner);
}

/// The offset of the first two slashes in a row from `from` on, or the
/// length of the text where there are none.
pub open spec fn comment_start(text: Seq<u8>, from: int) -> int
    decreases text.len() - from,
{
    if from < 0 || from >= text.len() {
        text.len() as int
    } else if text[from] == 0x2f && from + 1 < text.len() && text[from + 1] == 0x2f {
        from
    } else {
        comment_start(text, from + 1)
    }
}

/// Two slashes in a row stand at `pos`.
pub open spec fn slashes_at(text: Seq<u8>, pos: int) -> bool {
    0 <= pos && pos + 1 < text.len() && text[pos] == 0x2f && text[pos + 1] == 0x2f
}

/// `comment_start` finds the first pair of slashes and nothing before it.
pub proof fn lemma_comment_start(text: Seq<u8>, from: int)
    requires
        0 <= from <= text.len(),
    ensures
        from <= comment_start(text, from) <= text.len(),
        comment_start(text, from) < text.len() ==> slashes_at(text, comment_start(text, from)),
        forall|i: int| from <= i < comment_start(text, from) ==> !#[trigger] slashes_at(text, i),
    decreases text.len() - from,
{
    if from < text.len() && !slashes_at(text, from) {
        lemma_comment_start(text, from + 1);
    }
}

/// Where no two slashes stand in a row, there is no comment to find.
pub proof fn lemma_no_comment(text: Seq<u8>, from: int)
    requires
        0 <= from <= text.len(),
        forall|i: int| from <= i < text.len() ==> !#[trigger] slashes_at(text, i),
    ensures
        comment_start(text, from) == text.len(),
    decreases text.len() - from,
{
    if from < text.len() {
        assert(!slashes_at(text, from));
        lemma_no_comment(text, from + 1);
    }
}

/// What is left of a line once a comment and the white space before it are
/// cut off.
pub open spec fn without_comment(text: Seq<u8>) -> Seq<u8> {
    trimmed_end(text.take(comment_start(text, 0)))
}

/// What is left of a line without its comment is a prefix of the line that
/// holds no two slashes in a row and does not end with a white space
/// character. Leading white space is kept, and cutting again changes
/// nothing.
pub proof fn lemma_without_comment(text: Seq<u8>)
    ensures
        without_comment(text).is_prefix_of(text),
        forall|i: int| !#[trigger] slashes_at(without_comment(text), i),
        space_width_before(without_comment(text), without_comment(text).len() as int) == 0,
        without_comment(without_comment(text)) == without_comment(text),
{
    let cut = comment_start(text, 0);
    let line = text.take(cut);
    let rest = without_comment(text);
    lemma_comment_start(text, 0);
    lemma_trimmed_end(line);
    lemma_spaces_start(line, line.len() as int);
    assert forall|i: int| !#[trigger] slashes_at(rest, i) by {
        if slashes_at(rest, i) {
            assert(rest[i] == text[i]);
            assert(rest[i + 1] == text[i + 1]);
            assert(slashes_at(text, i));
        }
    }
    lemma_no_comment(rest, 0);
    assert(rest.take(rest.len() as int) =~= rest);
}

/// Tells how many bytes the white space character that starts at `pos`
/// takes; zero where none starts there.
pub fn space_width(text: &[u8], pos: usize) -> (width: usize)
    requires
        pos <= text@.len(),
    ensures
        width == space_width_at(text@, pos as int),
        pos + width <= text@.len(),
{
    let len = text.len();
    if pos >= len {
        return 0;
    }
    let a = text[pos];
    if a == 0x20 || (0x09 <= a && a <= 0x0d) {
        return 1;
    }
    if len - pos >= 2 {
        let b = text[pos + 1];
        if a == 0xc2 && (b == 0x85 || b == 0xa0) {
            return 2;
        }
        if len - pos >= 3 {
            let c = text[pos + 2];
            if space_triple(a, b, c) {
                return 3;
            }
        }
    }
    0
}

/// Tells how many bytes the white space character that ends at `pos` takes;
/// zero where none ends there.
pub fn space_width_back(text: &[u8], pos: usize) -> (width: usize)
    requires
        pos <= text@.len(),
    ensures
        width == space_width_before(text@, pos as int),
        width <= pos,
{
    if pos == 0 {
        return 0;
    }
    let c = text[pos - 1];
    if c == 0x20 || (0x09 <= c && c <= 0x0d) {
        return 1;
    }
    if pos >= 2 {
        let b = text[pos - 2];
        if b == 0xc2 && (c == 0x85 || c == 0xa0) {
            return 2;
        }
        if pos >= 3 {
            let a = text[pos - 3];
            if space_triple(a, b, c) {
                return 3;
            }
        }
    }
    0
}

/// Tells whether three bytes encode a white space character.
pub fn space_triple(a: u8, b: u8, c: u8) -> (r: bool)
    ensures
        r == is_space_triple(a, b, c),
{
    (a == 0xe1 && b == 0x9a && c == 0x80) || (a == 0xe2 && b == 0x80 && ((0x80 <= c && c <= 0x8a)
        || c == 0xa8 || c == 0xa9 || c == 0xaf)) || (a == 0xe2 && b == 0x81 && c == 0x9f) || (a
        == 0xe3 && b == 0x80 && c == 0x80)
}

/// Passes over white space characters from `pos` on.
pub fn skip_spaces(text: &[u8], pos: usize) -> (end: usize)
    requires
        pos <= text@.len(),
    ensures
        end == spaces_end(text@, pos as int),
        pos <= end <= text@.len(),
{
    let len = text.len();
    let mut i: usize = pos;
    let mut width: usize = space_width(text, i);
    while width > 0
        invariant
            pos <= i <= text@.len() == len,
            width == space_width_at(text@, i as int),
            i + width <= text@.len(),
            spaces_end(text@, pos as int) == spaces_end(text@, i as int),
        decreases text@.len() - i,
    {
        i += width;
        width = space_width(text, i);
    }
    i
}

/// Passes back over white space characters from `pos` on.
pub fn skip_spaces_back(text: &[u8], pos: usize) -> (start: usize)
    requires
        pos <= text@.len(),
    ensures
        start == spaces_start(text@, pos as int),
        start <= pos,
{
    let mut i: usize = pos;
    let mut width: usize = space_width_back(text, i);
    while width > 0
        invariant
            i <= pos <= text@.len(),
            width == space_width_before(text@, i as int),
            width <= i,
            spaces_start(text@, pos as int) == spaces_start(text@, i as int),
        decreases i,
    {
        i -= width;
        width = space_width_back(text, i);
    }
    i
}

/// Drops leading and trailing white space.
pub fn trim(text: &[u8]) -> (out: &[u8])
    ensures
        out@ == trimmed(text@),
{
    let len = text.len();
    let start = skip_spaces(text, 0);
    let stop = skip_spaces_back(text, len);
    let end = if stop < start {
        start
    } else {
        stop
    };
    slice_subrange(text, start, end)
}

/// Drops trailing white space.
pub fn trim_end(text: &[u8]) -> (out: &[u8])
    ensures
        out@ == trimmed_end(text@),
{
    let end = skip_spaces_back(text, text.len());
    slice_subrange(text, 0, end)
}

/// Finds the first two slashes in a row.
pub fn find_comment(text: &[u8]) -> (at: usize)
    ensures
        at == comment_start(text@, 0),
        at <= text@.len(),
{
    let len = text.len();
    let mut i: usize = 0;
    while i < len
        invariant
            i <= len == text@.len(),
            comment_start(text@, 0) == comment_start(text@, i as int),
        decreases len - i,
    {
        if text[i] == 0x2f && i + 1 < len && text[i + 1] == 0x2f {
            return i;
        }
        i += 1;
    }
    len
}

/// Cuts a trailing comment off a line, and the white space before it.
pub fn trim_comment(input: &[u8]) -> (out: &[u8])
    ensures
        out@ == without_comment(input@),
{
    let at = find_comment(input);
    trim_end(slice_subrange(input, 0, at))
}

/// Tells whether two texts hold the same bytes.
pub fn bytes_eq(a: &[u8], b: &[u8]) -> (r: bool)
    ensures
        r == (a@ == b@),
{
    if a.len() != b.len() {
        return false;
    }
    let mut i: usize = 0;
    while i < a.len()
        invariant
            i <= a@.len() == b@.len(),
            forall|k: int| 0 <= k < i ==> a@[k] == b@[k],
        decreases a@.len() - i,
    {
        if a[i] != b[i] {
            return false;
        }
        i += 1;
    }
    assert(a@ =~= b@);
    true
}

} // verus!
