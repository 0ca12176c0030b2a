//! Text as sequences of characters: lines, blank lines, trimming.

use vstd::prelude::*;

verus! {

/// The characters of `text`, in order.
pub fn chars_of(text: &str) -> (chars: Vec<char>)
    ensures
        chars@ == text@,
{
    let mut chars: Vec<char> = Vec::new();
    for c in it: text.chars()
        invariant
            it.seq() == text@,
            chars@ == it.seq().take(it.index() as int),
    {
        chars.push(c);
    }
    chars
}

/// `String::push`, which appends one character to the end of the string.
pub assume_specification[ String::push ](text: &mut String, c: char)
    ensures
        final(text)@ == old(text)@.push(c),
;

/// The characters of `chars` from position `from` up to, not including, `to`.
pub fn text_from(chars: &Vec<char>, from: usize, to: usize) -> (text: String)
    requires
        from <= to <= chars@.len(),
    ensures
        text@ == chars@.subrange(from as int, to as int),
{
    let mut text = String::new();
    let mut i: usize = from;
    while i < to
        invariant
            from <= i <= to <= chars@.len(),
            text@ == chars@.subrange(from as int, i as int),
        decreases to - i,
    {
        text.push(chars[i]);
        i = i + 1;
        assert(text@ =~= chars@.subrange(from as int, i as int));
    }
    text
}

/// Whether `c` is white space: a character with the Unicode property
/// `White_Space`.
pub open spec fn is_whitespace(c: char) -> bool {
    ||| '\u{9}' <= c <= '\u{d}'
    ||| c == ' '
    ||| c == '\u{85}'
    ||| c == '\u{a0}'
    ||| c == '\u{1680}'
    ||| '\u{2000}' <= c <= '\u{200a}'
    ||| c == '\u{2028}'
    ||| c == '\u{2029}'
    ||| c == '\u{202f}'
    ||| c == '\u{205f}'
    ||| c == '\u{3000}'
}

/// Whether `c` is white space.
pub fn is_space(c: char) -> (space: bool)
    ensures
        space == is_whitespace(c),
{
    ('\u{9}' <= c && c <= '\u{d}') || c == ' ' || c == '\u{85}' || c == '\u{a0}' || c
        == '\u{1680}' || ('\u{2000}' <= c && c <= '\u{200a}') || c == '\u{2028}' || c
        == '\u{2029}' || c == '\u{202f}' || c == '\u{205f}' || c == '\u{3000}'
}

/// Whether `line` holds nothing but white space; the empty line does.
pub open spec fn is_blank(line: Seq<char>) -> bool {
    forall|i: int| 0 <= i < line.len() ==> is_whitespace(#[trigger] line[i])
}

/// Whether `line` holds nothing but white space.
pub fn blank(line: &str) -> (all_space: bool)
    ensures
        all_space == is_blank(line@),
{
    for c in it: line.chars()
        invariant
            it.seq() == line@,
            is_blank(it.seq().take(it.index() as int)),
    {
        if !is_space(c) {
            assert(line@[it.index() as int] == c);
            return false;
        }
        assert(it.seq().take(it.index() + 1) =~= it.seq().take(it.index() as int).push(c));
    }
    assert(line@.take(line@.len() as int) =~= line@);
    true
}

/// The number of characters of `text` before its first line feed: the whole
/// length where it holds none.
pub open spec fn line_end(text: Seq<char>) -> int
    decreases text.len(),
{
    if text.len() == 0 || text[0] == '\n' {
        0
    } else {
        1 + line_end(text.skip(1))
    }
}

/// `line` without the carriage return at its end, if it has one there.
pub open spec fn without_cr(line: Seq<char>) -> Seq<char> {
    if line.len() > 0 && line.last() == '\r' {
        line.drop_last()
    } else {
        line
    }
}

/// The lines of `text`. A line ends at a line feed, or at a carriage return
/// directly followed by a line feed; neither belongs to the line. What follows
/// the last line feed is a line of its own unless it is empty, and keeps a
/// carriage return at its end. The empty text has no lines.
pub open spec fn lines_of(text: Seq<char>) -> Seq<Seq<char>>
    decreases text.len(),
{
    let end = line_end(text);
    if text.len() == 0 {
        Seq::empty()
    } else if 0 <= end < text.len() {
        seq![without_cr(text.take(end))] + lines_of(text.skip(end + 1))
    } else {
        seq![text]
    }
}

/// `line_end` is the position of the first line feed.
pub proof fn lemma_line_end(text: Seq<char>, n: int)
    requires
        0 <= n <= text.len(),
        forall|i: int| 0 <= i < n ==> text[i] != '\n',
        n < text.len() ==> text[n] == '\n',
    ensures
        line_end(text) == n,
    decreases n,
{
    if n > 0 {
        lemma_line_end(text.skip(1), n - 1);
    }
}

/// The lines of `text`, in order.
pub fn lines(text: &str) -> (lines: Vec<String>)
    ensures
        lines.deep_view() == lines_of(text@),
{
    let chars = chars_of(text);
    let mut lines: Vec<String> = Vec::new();
    let mut start: usize = 0;
    let mut i: usize = 0;
    assert(chars@.skip(0) =~= chars@);
    assert(lines.deep_view() =~= Seq::<Seq<char>>::empty());
    while i < chars.len()
        invariant
            chars@ == text@,
            start <= i <= chars@.len(),
            forall|k: int| start <= k < i ==> chars@[k] != '\n',
            lines.deep_view() + lines_of(chars@.skip(start as int)) == lines_of(chars@),
        decreases chars@.len() - i,
    {
        if chars[i] == '\n' {
            let end = if i > start && chars[i - 1] == '\r' {
                i - 1
            } else {
                i
            };
            let line = text_from(&chars, start, end);
            proof {
                let rest = chars@.skip(start as int);
                lemma_line_end(rest, i - start);
                assert(rest.take(i - start) =~= chars@.subrange(start as int, i as int));
                assert(without_cr(rest.take(i - start)) =~= line@);
                assert(rest.skip(i - start + 1) =~= chars@.skip(i + 1));
            }
            let ghost before = lines.deep_view();
            lines.push(line);
            assert(lines.deep_view() =~= before.push(line@));
            assert(before.push(line@) + lines_of(chars@.skip(i + 1)) =~= before + (seq![line@]
                + lines_of(chars@.skip(i + 1))));
            start = i + 1;
        }
        i = i + 1;
    }
    if start < chars.len() {
        let line = text_from(&chars, start, chars.len());
        proof {
            let rest = chars@.skip(start as int);
            lemma_line_end(rest, rest.len() as int);
            assert(rest =~= line@);
        }
        let ghost before = lines.deep_view();
        lines.push(line);
        assert(lines.deep_view() =~= before.push(line@));
        assert(before.push(line@) =~= before + seq![line@]);
    } else {
        assert(lines.deep_view() + Seq::<Seq<char>>::empty() =~= lines.deep_view());
    }
    lines
}

/// `text` without the white space at its start.
pub open spec fn trim_start_of(text: Seq<char>) -> Seq<char>
    decreases text.len(),
{
    if text.len() > 0 && is_whitespace(text[0]) {
        trim_start_of(text.skip(1))
    } else {
        text
    }
}

/// `text` without the white space at its end.
pub open spec fn trim_end_of(text: Seq<char>) -> Seq<char>
    decreases text.len(),
{
    if text.len() > 0 && is_whitespace(text.last()) {
        trim_end_of(text.drop_last())
    } else {
        text
    }
}

/// `text` without the white space at its start and at its end.
pub open spec fn trimmed(text: Seq<char>) -> Seq<char> {
    trim_end_of(trim_start_of(text))
}

/// Trimming at the start drops exactly the leading run of white space.
pub proof fn lemma_trim_start(text: Seq<char>, n: int)
    requires
        0 <= n <= text.len(),
        forall|i: int| 0 <= i < n ==> is_whitespace(#[trigger] text[i]),
        n < text.len() ==> !is_whitespace(text[n]),
    ensures
        trim_start_of(text) == text.skip(n),
    decreases n,
{
    if n > 0 {
        lemma_trim_start(text.skip(1), n - 1);
        assert(text.skip(1).skip(n - 1) =~= text.skip(n));
    } else {
        assert(text.skip(0) =~= text);
    }
}

/// Trimming at the end drops exactly the trailing run of white space.
pub proof fn lemma_trim_end(text: Seq<char>, n: int)
    requires
        0 <= n <= text.len(),
        forall|i: int| n <= i < text.len() ==> is_whitespace(#[trigger] text[i]),
        n > 0 ==> !is_whitespace(text[n - 1]),
    ensures
        trim_end_of(text) == text.take(n),
    decreases text.len() - n,
{
    if n < text.len() {
        lemma_trim_end(text.drop_last(), n);
        assert(text.drop_last().take(n) =~= text.take(n));
    } else {
        assert(text.take(n) =~= text);
    }
}

/// `text` without the white space at its start and at its end.
pub fn trim(text: &str) -> (kept: String)
    ensures
        kept@ == trimmed(text@),
{
    let chars = chars_of(text);
    let mut from: usize = 0;
    while from < chars.len() && is_space(chars[from])
        invariant
            from <= chars@.len(),
            forall|i: int| 0 <= i < from ==> is_whitespace(#[trigger] chars@[i]),
        decreases chars@.len() - from,
    {
        from = from + 1;
    }
    let mut to: usize = chars.len();
    while to > from && is_space(chars[to - 1])
        invariant
            from <= to <= chars@.len(),
            forall|i: int| to <= i < chars@.len() ==> is_whitespace(#[trigger] chars@[i]),
        decreases to,
    {
        to = to - 1;
    }
    proof {
        lemma_trim_start(chars@, from as int);
        let rest = chars@.skip(from as int);
        lemma_trim_end(rest, to - from);
        assert(rest.take(to - from) =~= chars@.subrange(from as int, to as int));
    }
    text_from(&chars, from, to)
}

/// A text is blank exactly when trimming leaves nothing of it.
pub proof fn lemma_blank_iff_trimmed_empty(text: Seq<char>)
    ensures
        is_blank(text) <==> trimmed(text).len() == 0,
    decreases text.len(),
{
    if text.len() > 0 && is_whitespace(text[0]) {
        lemma_blank_iff_trimmed_empty(text.skip(1));
        let rest = text.skip(1);
        if is_blank(rest) {
            assert forall|i: int| 0 <= i < text.len() implies is_whitespace(
                #[trigger] text[i],
            ) by {
                if i > 0 {
                    assert(rest[i - 1] == text[i]);
                }
            }
        }
        if is_blank(text) {
            assert forall|i: int| 0 <= i < rest.len() implies is_whitespace(
                #[trigger] rest[i],
            ) by {
                assert(rest[i] == text[i + 1]);
            }
        }
    } else if text.len() > 0 {
        lemma_trim_end_keeps_first(text);
    }
}

/// Trimming at the end never drops a first character that is no white space.
proof fn lemma_trim_end_keeps_first(text: Seq<char>)
    requires
        text.len() > 0,
        !is_whitespace(text[0]),
    ensures
        trim_end_of(text).len() > 0,
    decreases text.len(),
{
    if is_whitespace(text.last()) {
        lemma_trim_end_keeps_first(text.drop_last());
    }
}

} // verus!
