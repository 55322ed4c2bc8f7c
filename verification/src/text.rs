use vstd::prelude::*;
use vstd::string::StringExecFns;

verus! {

/// `String::push`: the string afterwards is the string before with `c` at its end.
pub assume_specification[ String::push ](s: &mut String, c: char)
    ensures
        final(s)@ == old(s)@.push(c),
;

/// `==` on string slices: whether the two hold the same characters.
pub assume_specification[ <str as PartialEq>::eq ](a: &str, b: &str) -> (same: bool)
    ensures
        same == (a@ == b@),
;

/// A text without the white space at its two ends.
pub uninterp spec fn trimmed(text: Seq<char>) -> Seq<char>;

/// `str::trim`: the text without the white space at its two ends, which depends on
/// the text alone.
#[verifier::external_body]
pub(crate) fn trim(text: &str) -> (inner: &str)
    ensures
        inner@ == trimmed(text@),
{
    text.trim()
}

/// Tells whether two string slices hold the same characters.
pub fn same_text(a: &str, b: &str) -> (same: bool)
    ensures
        same == (a@ == b@),
{
    *a == *b
}

/// Returns the characters of `text`, in order.
pub fn to_chars(text: &str) -> (chars: Vec<char>)
    ensures
        chars@ == text@,
{
    let mut chars: Vec<char> = Vec::new();
    for c in it: text.chars()
        invariant
            chars@ == it.seq().take(it.index()),
            it.seq() == text@,
    {
        chars.push(c);
    }
    chars
}

/// Returns the string made of the characters of `chars` from `from` up to `to`.
pub(crate) fn string_from(chars: &Vec<char>, from: usize, to: usize) -> (s: String)
    requires
        from <= to <= chars.len(),
    ensures
        s@ == chars@.subrange(from as int, to as int),
{
    let mut s = String::new();
    let mut i: usize = from;
    while i < to
        invariant
            from <= i <= to <= chars.len(),
            s@ == chars@.subrange(from as int, i as int),
        decreases to - i,
    {
        s.push(chars[i]);
        i = i + 1;
    }
    s
}

/// The position of the first line feed in `s`, or the length of `s` where it has none.
pub open spec fn first_line_feed(s: Seq<char>) -> nat
    decreases s.len(),
{
    if s.len() == 0 || s[0] == '\n' {
        0
    } else {
        1 + first_line_feed(s.drop_first())
    }
}

/// `line` without the carriage return at its end, if it has one.
pub open spec fn without_carriage_return(line: Seq<char>) -> Seq<char> {
    if line.len() > 0 && line.last() == '\r' {
        line.drop_last()
    } else {
        line
    }
}

/// The lines of `s`. A line ends at a line feed, or at a carriage return directly
/// followed by one; neither belongs to the line. What follows the last line feed is
/// a line of its own unless it is empty, and it keeps a carriage return at its end.
pub open spec fn lines_of(s: Seq<char>) -> Seq<Seq<char>>
    decreases s.len(),
{
    if s.len() == 0 {
        Seq::empty()
    } else {
        let n = first_line_feed(s) as int;
        if n >= s.len() {
            seq![s]
        } else {
            seq![without_carriage_return(s.subrange(0, n))] + lines_of(
                s.subrange(n + 1, s.len() as int),
            )
        }
    }
}

/// Where the first `n` characters of `s` hold no line feed, the first line feed of `s`
/// is at `n` if one stands there, and `n` is the length of `s` otherwise.
pub proof fn lemma_first_line_feed(s: Seq<char>, n: int)
    requires
        0 <= n <= s.len(),
        forall|k: int| 0 <= k < n ==> s[k] != '\n',
        n < s.len() ==> s[n] == '\n',
    ensures
        first_line_feed(s) == n,
    decreases n,
{
    if n > 0 {
        lemma_first_line_feed(s.drop_first(), n - 1);
    }
}

/// The number of line feeds in `s`.
pub open spec fn line_feeds(s: Seq<char>) -> nat
    decreases s.len(),
{
    if s.len() == 0 {
        0
    } else if s[0] == '\n' {
        1 + line_feeds(s.drop_first())
    } else {
        line_feeds(s.drop_first())
    }
}

/// Behind characters that are no line feeds, a text has the line feeds of its rest.
pub proof fn lemma_line_feeds_skip(s: Seq<char>, n: int)
    requires
        0 <= n <= s.len(),
        forall|k: int| 0 <= k < n ==> s[k] != '\n',
    ensures
        line_feeds(s) == line_feeds(s.subrange(n, s.len() as int)),
    decreases n,
{
    if n > 0 {
        let rest = s.drop_first();
        lemma_line_feeds_skip(rest, n - 1);
        assert(rest.subrange(n - 1, rest.len() as int) == s.subrange(n, s.len() as int));
    } else {
        assert(s.subrange(0, s.len() as int) == s);
    }
}

/// The first line feed of a text lies within the text or directly behind it, and no
/// character before it is a line feed.
pub proof fn lemma_first_line_feed_is_first(s: Seq<char>)
    ensures
        first_line_feed(s) <= s.len(),
        forall|k: int| 0 <= k < first_line_feed(s) ==> s[k] != '\n',
        first_line_feed(s) < s.len() ==> s[first_line_feed(s) as int] == '\n',
    decreases s.len(),
{
    if s.len() > 0 && s[0] != '\n' {
        let rest = s.drop_first();
        lemma_first_line_feed_is_first(rest);
        assert forall|k: int| 0 <= k < first_line_feed(s) implies s[k] != '\n' by {
            if k > 0 {
                assert(s[k] == rest[k - 1]);
            }
        }
    }
}

/// A text has as many lines as it has line feeds, and one more where it does not end
/// with a line feed: no blank line is lost and none is made up.
pub proof fn lemma_line_count(s: Seq<char>)
    ensures
        lines_of(s).len() == line_feeds(s) + if s.len() > 0 && s.last() != '\n' {
            1nat
        } else {
            0nat
        },
    decreases s.len(),
{
    if s.len() > 0 {
        let n = first_line_feed(s) as int;
        lemma_first_line_feed_is_first(s);
        lemma_line_feeds_skip(s, n);
        if n < s.len() {
            let from_feed = s.subrange(n, s.len() as int);
            let rest = s.subrange(n + 1, s.len() as int);
            assert(from_feed[0] == '\n');
            assert(from_feed.drop_first() == rest);
            lemma_line_count(rest);
            if rest.len() > 0 {
                assert(rest.last() == s.last());
            }
        } else {
            assert(s.subrange(n, s.len() as int).len() == 0);
        }
    }
}

/// A text that is not empty has at least one line.
pub proof fn lemma_lines_of_nonempty(s: Seq<char>)
    requires
        s.len() > 0,
    ensures
        lines_of(s).len() > 0,
{
}

/// Splits `text` into its lines, blank ones included.
pub fn split_lines(text: &str) -> (lines: Vec<String>)
    ensures
        lines.deep_view() == lines_of(text@),
{
    let chars = to_chars(text);
    let mut lines: Vec<String> = Vec::new();
    let mut start: usize = 0;
    let mut i: usize = 0;
    assert(chars@.subrange(0, chars.len() as int) == chars@);
    assert(lines.deep_view() + lines_of(chars@) == lines_of(chars@));
    while i < chars.len()
        invariant
            start <= i <= chars.len(),
            chars@ == text@,
            forall|k: int| start <= k < i ==> chars@[k] != '\n',
            lines_of(chars@) == lines.deep_view() + lines_of(
                chars@.subrange(start as int, chars.len() as int),
            ),
        decreases chars.len() - i,
    {
        if chars[i] == '\n' {
            let end = if i > start && chars[i - 1] == '\r' {
                i - 1
            } else {
                i
            };
            let line = string_from(&chars, start, end);
            proof {
                let rest = chars@.subrange(start as int, chars.len() as int);
                lemma_first_line_feed(rest, i - start);
                assert(rest.subrange(0, i - start) == chars@.subrange(start as int, i as int));
                assert(rest.subrange(i - start + 1, rest.len() as int) == chars@.subrange(
                    i + 1,
                    chars.len() as int,
                ));
                assert(line@ == without_carriage_return(chars@.subrange(start as int, i as int)));
                assert(lines.deep_view().push(line@) + lines_of(
                    chars@.subrange(i + 1, chars.len() as int),
                ) == lines.deep_view() + lines_of(rest));
            }
            let ghost before = lines.deep_view();
            lines.push(line);
            assert(lines.deep_view() == before.push(line@));
            start = i + 1;
        }
        i = i + 1;
    }
    if start < chars.len() {
        let line = string_from(&chars, start, chars.len());
        proof {
            let rest = chars@.subrange(start as int, chars.len() as int);
            lemma_first_line_feed(rest, rest.len() as int);
            assert(lines_of(rest) == seq![rest]);
            assert(lines.deep_view().push(line@) == lines.deep_view() + lines_of(rest));
        }
        let ghost before = lines.deep_view();
        lines.push(line);
        assert(lines.deep_view() == before.push(line@));
    } else {
        assert(lines.deep_view() + lines_of(chars@.subrange(start as int, chars.len() as int))
            == lines.deep_view());
    }
    lines
}

/// Whether `part` stands somewhere in `text`, character for character.
pub open spec fn has_part(text: Seq<char>, part: Seq<char>) -> bool {
    exists|i: int|
        0 <= i <= text.len() - part.len() && #[trigger] text.subrange(i, i + part.len()) == part
}

/// Tells whether `part` stands somewhere in `text`.
pub fn contains_part(text: &str, part: &str) -> (found: bool)
    ensures
        found == has_part(text@, part@),
{
    let whole = to_chars(text);
    let piece = to_chars(part);
    if piece.len() > whole.len() {
        return false;
    }
    let last: usize = whole.len() - piece.len();
    let mut i: usize = 0;
    while i <= last
        invariant
            i <= last + 1,
            last == whole.len() - piece.len(),
            whole@ == text@,
            piece@ == part@,
            forall|k: int| 0 <= k < i ==> #[trigger] whole@.subrange(k, k + piece.len()) != piece@,
        decreases last + 1 - i,
    {
        let mut j: usize = 0;
        while j < piece.len() && whole[i + j] == piece[j]
            invariant
                i <= last,
                last == whole.len() - piece.len(),
                j <= piece.len(),
                forall|l: int| 0 <= l < j ==> whole@[i + l] == piece@[l],
            decreases piece.len() - j,
        {
            j = j + 1;
        }
        if j == piece.len() {
            assert(whole@.subrange(i as int, i + piece.len()) == piece@);
            return true;
        }
        assert(whole@.subrange(i as int, i + piece.len())[j as int] != piece@[j as int]);
        i = i + 1;
    }
    false
}

/// A text cut to at most `max_chars` characters; three full stops mark a cut.
pub open spec fn truncated(text: Seq<char>, max_chars: nat) -> Seq<char> {
    if text.len() <= max_chars {
        text
    } else {
        text.take(max_chars as int) + "..."@
    }
}

/// Cuts a text to its first `max_chars` characters and marks the cut with three full
/// stops; a text that is no longer than that is returned as it is.
pub fn truncate_string(s: &str, max_chars: usize) -> (cut: String)
    ensures
        cut@ == truncated(s@, max_chars as nat),
{
    let chars = to_chars(s);
    if chars.len() <= max_chars {
        return s.to_owned();
    }
    let mut cut = string_from(&chars, 0, max_chars);
    cut.append("...");
    cut
}

} // verus!
