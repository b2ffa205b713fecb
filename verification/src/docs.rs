//! The documentation text of a function: its first line is the summary, and
//! what follows is the description.

use vstd::prelude::*;

verus! {

/// Whether a character is white space: the characters that Unicode gives the
/// property `White_Space`.
pub open spec fn is_whitespace(c: char) -> bool {
    let u = c as u32;
    ||| 0x09 <= u <= 0x0d
    ||| u == 0x20
    ||| u == 0x85
    ||| u == 0xa0
    ||| u == 0x1680
    ||| 0x2000 <= u <= 0x200a
    ||| u == 0x2028
    ||| u == 0x2029
    ||| u == 0x202f
    ||| u == 0x205f
    ||| u == 0x3000
}

/// A line is blank where it holds nothing but white space.
pub open spec fn is_blank(line: Seq<char>) -> bool {
    forall|i: int| 0 <= i < line.len() ==> is_whitespace(#[trigger] line[i])
}

/// The position of the first line feed at or after `from`, or the length of
/// the text where there is none.
pub open spec fn line_end(s: Seq<char>, from: int) -> int
    decreases s.len() - from,
{
    if from < 0 || from >= s.len() {
        s.len() as int
    } else if s[from] == '\n' {
        from
    } else {
        line_end(s, from + 1)
    }
}

/// Where the line that starts at `from` stops: before its line feed, and
/// before the carriage return that precedes the line feed, if there is one.
pub open spec fn line_stop(s: Seq<char>, from: int) -> int {
    let end = line_end(s, from);
    if from < end < s.len() && s[end - 1] == '\r' {
        end - 1
    } else {
        end
    }
}

/// The line that starts at `from`, without what ends it.
pub open spec fn line_at(s: Seq<char>, from: int) -> Seq<char> {
    s.subrange(from, line_stop(s, from))
}

/// Where the line after the one at `from` starts, or the length of the text
/// where that line is the last.
pub open spec fn next_line(s: Seq<char>, from: int) -> int {
    let end = line_end(s, from);
    if end < s.len() {
        end + 1
    } else {
        s.len() as int
    }
}

/// A line ends at or after its start and within the text.
pub proof fn lemma_line_end_bounds(s: Seq<char>, from: int)
    requires
        0 <= from <= s.len(),
    ensures
        from <= line_end(s, from) <= s.len(),
        from <= line_stop(s, from) <= line_end(s, from),
        from < s.len() ==> from < next_line(s, from) <= s.len(),
        from == s.len() ==> next_line(s, from) == s.len(),
    decreases s.len() - from,
{
    if from < s.len() && s[from] != '\n' {
        lemma_line_end_bounds(s, from + 1);
    }
}

/// Where the first line that is not blank starts, looking from the line that
/// starts at `from`; the length of the text where every line is blank.
pub open spec fn first_content(s: Seq<char>, from: int) -> int
    decreases s.len() - from,
{
    if from < 0 || from >= s.len() {
        s.len() as int
    } else if is_blank(line_at(s, from)) {
        proof {
            lemma_line_end_bounds(s, from);
        }
        first_content(s, next_line(s, from))
    } else {
        from
    }
}

/// The lines from the one that starts at `from` to the last, joined by line
/// feeds.
pub open spec fn joined_from(s: Seq<char>, from: int) -> Seq<char>
    decreases s.len() - from,
{
    if from < 0 || from >= s.len() {
        Seq::empty()
    } else {
        proof {
            lemma_line_end_bounds(s, from);
        }
        let next = next_line(s, from);
        if next < s.len() {
            line_at(s, from) + seq!['\n'] + joined_from(s, next)
        } else {
            line_at(s, from)
        }
    }
}

/// The summary of a documentation text: its first line.
pub open spec fn summary_of(s: Seq<char>) -> Seq<char> {
    if s.len() == 0 {
        Seq::empty()
    } else {
        line_at(s, 0)
    }
}

/// The description of a documentation text: the lines after the first,
/// without the blank lines that follow the summary, joined by line feeds.
/// There is none where nothing is left.
pub open spec fn description_of(s: Seq<char>) -> Option<Seq<char>> {
    let text = joined_from(s, first_content(s, next_line(s, 0)));
    if s.len() == 0 || text.len() == 0 {
        None
    } else {
        Some(text)
    }
}

/// The characters of an optional string.
pub open spec fn optional_text(s: Option<String>) -> Option<Seq<char>> {
    match s {
        Some(t) => Some(t@),
        None => None,
    }
}

/// Whether a character is white space.
pub fn whitespace(c: char) -> (r: bool)
    ensures
        r == is_whitespace(c),
{
    let u = c as u32;
    (0x09 <= u && u <= 0x0d) || u == 0x20 || u == 0x85 || u == 0xa0 || u == 0x1680 || (0x2000 <= u
        && u <= 0x200a) || u == 0x2028 || u == 0x2029 || u == 0x202f || u == 0x205f || u == 0x3000
}

/// The characters of a string, one by one.
pub fn chars_of(s: &str) -> (v: Vec<char>)
    ensures
        v@ == s@,
{
    let n = s.unicode_len();
    let mut v: Vec<char> = Vec::new();
    let mut i: usize = 0;
    while i < n
        invariant
            i <= n,
            n == s@.len(),
            v.len() == i,
            forall|k: int| 0 <= k < i ==> v[k] == s@[k],
        decreases n - i,
    {
        v.push(s.get_char(i));
        i += 1;
    }
    assert(v@ =~= s@);
    v
}

/// Appends the characters from `from` up to `to` to a string.
fn append_range(out: &mut String, cs: &Vec<char>, from: usize, to: usize)
    requires
        from <= to <= cs.len(),
    ensures
        final(out)@ == old(out)@ + cs@.subrange(from as int, to as int),
{
    let mut i: usize = from;
    assert(out@ =~= old(out)@ + cs@.subrange(from as int, i as int));
    while i < to
        invariant
            from <= i <= to <= cs.len(),
            out@ == old(out)@ + cs@.subrange(from as int, i as int),
        decreases to - i,
    {
        out.push(cs[i]);
        assert(cs@.subrange(from as int, i + 1) =~= cs@.subrange(from as int, i as int).push(
            cs@[i as int],
        ));
        i += 1;
        assert(out@ =~= old(out)@ + cs@.subrange(from as int, i as int));
    }
}

/// The position of the first line feed at or after `from`.
fn find_line_end(cs: &Vec<char>, from: usize) -> (end: usize)
    requires
        from <= cs.len(),
    ensures
        end == line_end(cs@, from as int),
        from <= end <= cs.len(),
{
    let mut i: usize = from;
    while i < cs.len()
        invariant
            from <= i <= cs.len(),
            line_end(cs@, from as int) == line_end(cs@, i as int),
        decreases cs.len() - i,
    {
        if cs[i] == '\n' {
            return i;
        }
        i += 1;
    }
    i
}

/// Where the line that starts at `from` stops, and where the next one starts.
fn line_bounds(cs: &Vec<char>, from: usize) -> (r: (usize, usize))
    requires
        from < cs.len(),
    ensures
        r.0 == line_stop(cs@, from as int),
        r.1 == next_line(cs@, from as int),
        from <= r.0 <= cs.len(),
        from < r.1 <= cs.len(),
{
    let end = find_line_end(cs, from);
    let stop = if from < end && end < cs.len() && cs[end - 1] == '\r' {
        end - 1
    } else {
        end
    };
    let next = if end < cs.len() {
        end + 1
    } else {
        cs.len()
    };
    (stop, next)
}

/// Whether the characters from `from` up to `to` are all white space.
fn blank_range(cs: &Vec<char>, from: usize, to: usize) -> (r: bool)
    requires
        from <= to <= cs.len(),
    ensures
        r == is_blank(cs@.subrange(from as int, to as int)),
{
    let ghost line = cs@.subrange(from as int, to as int);
    let mut i: usize = from;
    while i < to
        invariant
            from <= i <= to <= cs.len(),
            line == cs@.subrange(from as int, to as int),
            forall|k: int| 0 <= k < i - from ==> is_whitespace(#[trigger] line[k]),
        decreases to - i,
    {
        if !whitespace(cs[i]) {
            assert(line[i - from] == cs@[i as int]);
            return false;
        }
        assert(line[i - from] == cs@[i as int]);
        i += 1;
    }
    true
}

/// Where the first line that is not blank starts, looking from the line that
/// starts at `from`.
fn skip_blank_lines(cs: &Vec<char>, from: usize) -> (p: usize)
    requires
        from <= cs.len(),
    ensures
        p == first_content(cs@, from as int),
        from <= p <= cs.len(),
{
    let mut p: usize = from;
    while p < cs.len()
        invariant
            from <= p <= cs.len(),
            first_content(cs@, from as int) == first_content(cs@, p as int),
        decreases cs.len() - p,
    {
        let (stop, next) = line_bounds(cs, p);
        if blank_range(cs, p, stop) {
            p = next;
        } else {
            return p;
        }
    }
    p
}

/// The lines from the one that starts at `from` to the last, joined by line
/// feeds.
fn join_lines(cs: &Vec<char>, from: usize) -> (out: String)
    requires
        from <= cs.len(),
    ensures
        out@ == joined_from(cs@, from as int),
{
    let mut out = String::new();
    let mut p: usize = from;
    assert(joined_from(cs@, from as int) =~= out@ + joined_from(cs@, p as int));
    while p < cs.len()
        invariant
            from <= p <= cs.len(),
            joined_from(cs@, from as int) == out@ + joined_from(cs@, p as int),
        decreases cs.len() - p,
    {
        let ghost before = out@;
        let (stop, next) = line_bounds(cs, p);
        append_range(&mut out, cs, p, stop);
        if next < cs.len() {
            out.push('\n');
            assert(out@ + joined_from(cs@, next as int) =~= before + (line_at(cs@, p as int)
                + seq!['\n'] + joined_from(cs@, next as int)));
        } else {
            assert(out@ + joined_from(cs@, next as int) =~= before + line_at(cs@, p as int));
        }
        p = next;
    }
    assert(out@ + Seq::<char>::empty() =~= out@);
    out
}

/// Splits a documentation text into its summary and its description.
///
/// The summary is the first line. The description is what follows it,
/// without the blank lines between the two, each line ending replaced by a
/// line feed; there is none where nothing follows.
pub fn split_docs(docs: &str) -> (r: (String, Option<String>))
    ensures
        r.0@ == summary_of(docs@),
        optional_text(r.1) == description_of(docs@),
{
    let cs = chars_of(docs);
    if cs.len() == 0 {
        return (String::new(), None);
    }
    let (stop, next) = line_bounds(&cs, 0);
    let mut summary = String::new();
    append_range(&mut summary, &cs, 0, stop);
    assert(summary@ =~= line_at(cs@, 0));
    let start = skip_blank_lines(&cs, next);
    let text = join_lines(&cs, start);
    if text.as_str().unicode_len() == 0 {
        (summary, None)
    } else {
        (summary, Some(text))
    }
}

} // verus!
