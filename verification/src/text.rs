//! Character-level building blocks shared by the catalog, configuration and
//! ledger formats: whitespace, trimming, splitting at a separator and into
//! lines.
//!
//! Every format of this crate is line oriented. The functions here describe
//! a text as a `Seq<char>` and work, in executable code, on the characters of
//! a text held in a `Vec<char>`, addressing parts of it by index ranges.

use vstd::prelude::*;
use vstd::string::*;

verus! {

/// The characters with the Unicode property `White_Space`.
pub open spec fn is_space(c: char) -> bool {
    let n = c as u32;
    ||| 0x09 <= n <= 0x0D
    ||| n == 0x20
    ||| n == 0x85
    ||| n == 0xA0
    ||| n == 0x1680
    ||| 0x2000 <= n <= 0x200A
    ||| n == 0x2028
    ||| n == 0x2029
    ||| n == 0x202F
    ||| n == 0x205F
    ||| n == 0x3000
}

/// `s` without its leading whitespace.
pub open spec fn trim_start(s: Seq<char>) -> Seq<char>
    decreases s.len(),
{
    if s.len() > 0 && is_space(s[0]) {
        trim_start(s.drop_first())
    } else {
        s
    }
}

/// `s` without its trailing whitespace.
pub open spec fn trim_end(s: Seq<char>) -> Seq<char>
    decreases s.len(),
{
    if s.len() > 0 && is_space(s.last()) {
        trim_end(s.drop_last())
    } else {
        s
    }
}

/// `s` without its surrounding whitespace.
pub open spec fn trim(s: Seq<char>) -> Seq<char> {
    trim_end(trim_start(s))
}

/// The index of the first `c` in `s`, or `s.len()` where `s` holds none.
pub open spec fn find(s: Seq<char>, c: char) -> nat
    decreases s.len(),
{
    if s.len() == 0 || s[0] == c {
        0
    } else {
        1 + find(s.drop_first(), c)
    }
}

/// The two sides of the first `sep` in `s`, or `None` where `s` holds none.
pub open spec fn split_once(s: Seq<char>, sep: char) -> Option<(Seq<char>, Seq<char>)> {
    let at = find(s, sep) as int;
    if at < s.len() {
        Some((s.take(at), s.skip(at + 1)))
    } else {
        None
    }
}

/// The two sides of the first `sep` in a line, each without its surrounding
/// whitespace; `None` where the line holds no `sep`.
pub open spec fn sides(line: Seq<char>, sep: char) -> Option<(Seq<char>, Seq<char>)> {
    match split_once(line, sep) {
        None => None,
        Some((left, right)) => Some((trim(left), trim(right))),
    }
}

/// `s` without one trailing carriage return.
pub open spec fn strip_cr(s: Seq<char>) -> Seq<char> {
    if s.len() > 0 && s.last() == '\r' {
        s.drop_last()
    } else {
        s
    }
}

/// The lines of a text: the pieces between line feeds, each without the one
/// carriage return that may stand at its end. A text with `k` line feeds has
/// `k + 1` lines; the last one is empty where the text ends in a line feed.
pub open spec fn lines(s: Seq<char>) -> Seq<Seq<char>>
    decreases s.len(),
{
    let at = find(s, '\n') as int;
    if at < s.len() {
        seq![strip_cr(s.take(at))] + lines(s.skip(at + 1))
    } else {
        seq![strip_cr(s)]
    }
}

/// The text that holds `lines`, each followed by a line feed.
pub open spec fn unlines(lines: Seq<Seq<char>>) -> Seq<char>
    decreases lines.len(),
{
    if lines.len() == 0 {
        Seq::empty()
    } else {
        unlines(lines.drop_last()) + lines.last() + seq!['\n']
    }
}

/// A line that a text can hold as it is: without line feed, and without
/// carriage return at its end.
pub open spec fn is_plain(line: Seq<char>) -> bool {
    !line.contains('\n') && (line.len() > 0 ==> line.last() != '\r')
}

/// Every one of `lines` is plain.
pub open spec fn all_plain(lines: Seq<Seq<char>>) -> bool {
    forall|i: int| 0 <= i < lines.len() ==> is_plain(#[trigger] lines[i])
}

/// What each of a list of strings holds.
pub open spec fn texts(strings: Seq<String>) -> Seq<Seq<char>> {
    strings.map_values(|s: String| s@)
}

/// The parts of `chars` that a list of index ranges addresses.
pub open spec fn span_texts(chars: Seq<char>, spans: Seq<(usize, usize)>) -> Seq<Seq<char>> {
    Seq::new(spans.len(), |i: int| chars.subrange(spans[i].0 as int, spans[i].1 as int))
}

/// Every range lies within a text of `len` characters.
pub open spec fn spans_within(spans: Seq<(usize, usize)>, len: nat) -> bool {
    forall|i: int| 0 <= i < spans.len() ==> (#[trigger] spans[i]).0 <= spans[i].1 <= len
}

/// `find` is bounded by the length, nothing before it is `c`, and `c` stands
/// at it where it is an index.
pub proof fn lemma_find(s: Seq<char>, c: char)
    ensures
        find(s, c) <= s.len(),
        forall|j: int| 0 <= j < find(s, c) ==> s[j] != c,
        find(s, c) < s.len() ==> s[find(s, c) as int] == c,
    decreases s.len(),
{
    if s.len() > 0 && s[0] != c {
        let rest = s.drop_first();
        lemma_find(rest, c);
        assert forall|j: int| 0 <= j < find(s, c) implies s[j] != c by {
            if j > 0 {
                assert(s[j] == rest[j - 1]);
            }
        }
    }
}

/// An index before which nothing is `c`, and which holds `c` unless it is the
/// length, is the one that `find` gives.
pub proof fn lemma_find_is(s: Seq<char>, c: char, at: int)
    requires
        0 <= at <= s.len(),
        forall|j: int| 0 <= j < at ==> s[j] != c,
        at < s.len() ==> s[at] == c,
    ensures
        find(s, c) == at,
    decreases s.len(),
{
    if s.len() > 0 && s[0] != c {
        lemma_find_is(s.drop_first(), c, at - 1);
    }
}

/// A plain line is, as a text, its own single line.
pub proof fn lemma_lines_single(s: Seq<char>)
    requires
        is_plain(s),
    ensures
        lines(s) == seq![s],
{
    lemma_find(s, '\n');
}

/// The lines of a text that begins with a line and a line feed are that line
/// and the lines of what follows.
pub proof fn lemma_lines_after_line(line: Seq<char>, rest: Seq<char>)
    requires
        !line.contains('\n'),
    ensures
        lines(line + seq!['\n'] + rest) == seq![strip_cr(line)] + lines(rest),
{
    let text = line + seq!['\n'] + rest;
    assert forall|j: int| 0 <= j < line.len() implies text[j] != '\n' by {}
    lemma_find_is(text, '\n', line.len() as int);
    assert(text.take(line.len() as int) =~= line);
    assert(text.skip(line.len() as int + 1) =~= rest);
}

/// The text of lines with one more line is the text of the lines, followed
/// by the line and a line feed.
pub proof fn lemma_unlines_push(lines: Seq<Seq<char>>, line: Seq<char>)
    ensures
        unlines(lines.push(line)) == unlines(lines) + line + seq!['\n'],
{
    assert(lines.push(line).drop_last() =~= lines);
}

/// The text of lines begins with the first of them and a line feed.
pub proof fn lemma_unlines_front(lines: Seq<Seq<char>>)
    requires
        lines.len() > 0,
    ensures
        unlines(lines) == lines[0] + seq!['\n'] + unlines(lines.drop_first()),
    decreases lines.len(),
{
    let front = lines.drop_last();
    if front.len() == 0 {
        assert(unlines(front) =~= Seq::<char>::empty());
    } else {
        lemma_unlines_front(front);
        assert(front.drop_first() =~= lines.drop_first().drop_last());
    }
}

/// The text of two runs of lines is the text of the first followed by the
/// text of the second.
pub proof fn lemma_unlines_add(first: Seq<Seq<char>>, second: Seq<Seq<char>>)
    ensures
        unlines(first + second) == unlines(first) + unlines(second),
    decreases second.len(),
{
    if second.len() > 0 {
        lemma_unlines_add(first, second.drop_last());
        assert((first + second).drop_last() =~= first + second.drop_last());
    }
}

/// What is written is read back: the lines of the text of plain lines are
/// these lines, and an empty one after the last line feed.
pub proof fn lemma_lines_unlines(all: Seq<Seq<char>>)
    requires
        all_plain(all),
    ensures
        lines(unlines(all)) == all.push(Seq::empty()),
    decreases all.len(),
{
    if all.len() > 0 {
        let rest = all.drop_first();
        assert(all_plain(rest));
        lemma_lines_unlines(rest);
        lemma_unlines_front(all);
        lemma_lines_after_line(all[0], unlines(rest));
    }
}

/// A text without whitespace at its two ends.
pub open spec fn trimmed(s: Seq<char>) -> bool {
    s.len() == 0 || (!is_space(s[0]) && !is_space(s.last()))
}

/// Trimming leaves a trimmed text as it is.
pub proof fn lemma_trim_trimmed(s: Seq<char>)
    requires
        trimmed(s),
    ensures
        trim(s) == s,
{
}

/// A word of lower-case letters is trimmed and holds neither `=`, nor line
/// feed, nor `[`.
pub proof fn lemma_plain_word(word: Seq<char>)
    requires
        word.len() > 0,
        forall|j: int| 0 <= j < word.len() ==> 'a' <= #[trigger] word[j] <= 'z',
    ensures
        trimmed(word),
        !word.contains('='),
        !word.contains('\n'),
        !word.contains('['),
        word[0] != '[',
{
}

/// Three parts without line feed make a line without line feed; the line is
/// plain where its last part that is not empty ends in no whitespace.
pub proof fn lemma_line_plain(first: Seq<char>, second: Seq<char>, third: Seq<char>)
    requires
        !first.contains('\n'),
        !second.contains('\n'),
        !third.contains('\n'),
        third.len() > 0 ==> !is_space(third.last()),
        third.len() == 0 && second.len() > 0 ==> !is_space(second.last()),
        third.len() == 0 && second.len() == 0 && first.len() > 0 ==> !is_space(first.last()),
    ensures
        is_plain(first + second + third),
{
    let line = first + second + third;
    if line.contains('\n') {
        let at = choose|i: int| 0 <= i < line.len() && line[i] == '\n';
        if at < first.len() {
            assert(first[at] == '\n');
        } else if at < first.len() + second.len() {
            assert(second[at - first.len()] == '\n');
        } else {
            assert(third[at - first.len() - second.len()] == '\n');
        }
    }
}

/// No line of a text holds a line feed.
pub proof fn lemma_lines_free(text: Seq<char>, i: int)
    requires
        0 <= i < lines(text).len(),
    ensures
        !lines(text)[i].contains('\n'),
    decreases text.len(),
{
    let at = find(text, '\n') as int;
    lemma_find(text, '\n');
    let first = if at < text.len() {
        text.take(at)
    } else {
        text
    };
    assert(!first.contains('\n')) by {
        if first.contains('\n') {
            let j = choose|j: int| 0 <= j < first.len() && first[j] == '\n';
            assert(text[j] == '\n');
        }
    }
    assert(strip_cr(first) =~= first.subrange(0, strip_cr(first).len() as int));
    lemma_part_free(first, strip_cr(first), 0);
    if at < text.len() && i > 0 {
        lemma_lines_free(text.skip(at + 1), i - 1);
    }
}

/// A part of a text without line feed is without line feed.
pub proof fn lemma_part_free(whole: Seq<char>, part: Seq<char>, from: int)
    requires
        !whole.contains('\n'),
        0 <= from,
        from + part.len() <= whole.len(),
        part == whole.subrange(from, from + part.len()),
    ensures
        !part.contains('\n'),
{
    if part.contains('\n') {
        let j = choose|j: int| 0 <= j < part.len() && part[j] == '\n';
        assert(whole[from + j] == '\n');
    }
}

/// A text without its leading whitespace is its own end, and begins with no
/// whitespace.
pub proof fn lemma_trim_start(s: Seq<char>)
    ensures
        trim_start(s).len() <= s.len(),
        trim_start(s) == s.subrange(s.len() - trim_start(s).len(), s.len() as int),
        trim_start(s).len() > 0 ==> !is_space(trim_start(s)[0]),
    decreases s.len(),
{
    if s.len() > 0 && is_space(s[0]) {
        lemma_trim_start(s.drop_first());
    }
}

/// A text without its trailing whitespace is its own beginning, and ends in
/// no whitespace.
pub proof fn lemma_trim_end(s: Seq<char>)
    ensures
        trim_end(s).len() <= s.len(),
        trim_end(s) == s.subrange(0, trim_end(s).len() as int),
        trim_end(s).len() > 0 ==> !is_space(trim_end(s).last()),
    decreases s.len(),
{
    if s.len() > 0 && is_space(s.last()) {
        lemma_trim_end(s.drop_last());
    }
}

/// A text without its surrounding whitespace is trimmed, and without line
/// feed where the text is.
pub proof fn lemma_trim(s: Seq<char>)
    ensures
        trimmed(trim(s)),
        !s.contains('\n') ==> !trim(s).contains('\n'),
{
    lemma_trim_start(s);
    let inner = trim_start(s);
    lemma_trim_end(inner);
    if !s.contains('\n') {
        lemma_part_free(s, inner, s.len() - inner.len());
        lemma_part_free(inner, trim(s), 0);
    }
}

/// Whether `c` is whitespace.
pub fn is_whitespace(c: char) -> (r: bool)
    ensures
        r == is_space(c),
{
    let n: u32 = c as u32;
    (0x09 <= n && n <= 0x0D) || n == 0x20 || n == 0x85 || n == 0xA0 || n == 0x1680 || (0x2000 <= n
        && n <= 0x200A) || n == 0x2028 || n == 0x2029 || n == 0x202F || n == 0x205F || n == 0x3000
}

/// The characters of a text.
pub fn chars_of(text: &str) -> (chars: Vec<char>)
    ensures
        chars@ == text@,
{
    let mut chars: Vec<char> = Vec::new();
    for c in it: text.chars()
        invariant
            chars@ == it.seq().take(it.index() as int),
            it.seq() == text@,
    {
        chars.push(c);
    }
    chars
}

/// The part of a text between two character indices, as a string of its own.
pub fn piece(text: &str, from: usize, to: usize) -> (out: String)
    requires
        from <= to <= text@.len(),
    ensures
        out@ == text@.subrange(from as int, to as int),
{
    text.substring_char(from, to).to_owned()
}

/// The index of the first `c` in the range `from..to` of `chars`, or `to`.
pub fn find_char(chars: &Vec<char>, from: usize, to: usize, c: char) -> (at: usize)
    requires
        from <= to <= chars.len(),
    ensures
        from <= at <= to,
        at - from == find(chars@.subrange(from as int, to as int), c),
{
    let mut at: usize = from;
    while at < to && chars[at] != c
        invariant
            from <= at <= to <= chars.len(),
            forall|j: int| from <= j < at ==> chars[j] != c,
        decreases to - at,
    {
        at = at + 1;
    }
    proof {
        lemma_find_is(chars@.subrange(from as int, to as int), c, at - from);
    }
    at
}

/// The range within `from..to` of `chars` that is left when the surrounding
/// whitespace is taken away.
pub fn trim_range(chars: &Vec<char>, from: usize, to: usize) -> (r: (usize, usize))
    requires
        from <= to <= chars.len(),
    ensures
        from <= r.0 <= r.1 <= to,
        chars@.subrange(r.0 as int, r.1 as int) == trim(chars@.subrange(from as int, to as int)),
{
    let mut start: usize = from;
    while start < to && is_whitespace(chars[start])
        invariant
            from <= start <= to <= chars.len(),
            trim_start(chars@.subrange(from as int, to as int)) == trim_start(
                chars@.subrange(start as int, to as int),
            ),
        decreases to - start,
    {
        assert(chars@.subrange(start as int, to as int).drop_first() =~= chars@.subrange(
            start + 1,
            to as int,
        ));
        start = start + 1;
    }
    let mut end: usize = to;
    while start < end && is_whitespace(chars[end - 1])
        invariant
            start <= end <= to <= chars.len(),
            trim_end(chars@.subrange(start as int, to as int)) == trim_end(
                chars@.subrange(start as int, end as int),
            ),
        decreases end - start,
    {
        assert(chars@.subrange(start as int, end as int).drop_last() =~= chars@.subrange(
            start as int,
            end - 1,
        ));
        end = end - 1;
    }
    (start, end)
}

/// The ranges of the two trimmed sides of the first `sep` in the range
/// `from..to` of `chars`.
pub fn side_ranges(chars: &Vec<char>, from: usize, to: usize, sep: char) -> (r: Option<
    ((usize, usize), (usize, usize)),
>)
    requires
        from <= to <= chars.len(),
    ensures
        match r {
            None => sides(chars@.subrange(from as int, to as int), sep) is None,
            Some((left, right)) => {
                &&& from <= left.0 <= left.1 <= right.0 <= right.1 <= to
                &&& sides(chars@.subrange(from as int, to as int), sep) == Some(
                    (
                        chars@.subrange(left.0 as int, left.1 as int),
                        chars@.subrange(right.0 as int, right.1 as int),
                    ),
                )
            },
        },
{
    let at = find_char(chars, from, to, sep);
    if at < to {
        let left = trim_range(chars, from, at);
        let right = trim_range(chars, at + 1, to);
        proof {
            let line = chars@.subrange(from as int, to as int);
            assert(line.take(at - from) =~= chars@.subrange(from as int, at as int));
            assert(line.skip(at - from + 1) =~= chars@.subrange(at + 1, to as int));
        }
        Some((left, right))
    } else {
        None
    }
}

/// Whether the range `from..to` of `chars` spells `word`.
pub fn range_is(chars: &Vec<char>, from: usize, to: usize, word: &str) -> (r: bool)
    requires
        from <= to <= chars.len(),
    ensures
        r == (chars@.subrange(from as int, to as int) == word@),
{
    let letters = chars_of(word);
    let n = letters.len();
    if to - from != n {
        return false;
    }
    let mut i: usize = 0;
    while i < n
        invariant
            from <= to <= chars.len(),
            letters@ == word@,
            n == letters.len(),
            to - from == n,
            0 <= i <= n,
            forall|j: int| 0 <= j < i ==> chars[from + j] == letters[j],
        decreases n - i,
    {
        if chars[from + i] != letters[i] {
            return false;
        }
        i = i + 1;
    }
    assert(chars@.subrange(from as int, to as int) =~= word@);
    true
}

/// Whether two texts are the same.
pub fn same_text(a: &str, b: &str) -> (r: bool)
    ensures
        r == (a@ == b@),
{
    let letters = chars_of(a);
    assert(letters@.subrange(0, letters.len() as int) =~= letters@);
    range_is(&letters, 0, letters.len(), b)
}

/// The index ranges of the lines of `chars`, in order.
pub fn line_spans(chars: &Vec<char>) -> (spans: Vec<(usize, usize)>)
    ensures
        spans_within(spans@, chars@.len()),
        span_texts(chars@, spans@) == lines(chars@),
{
    let n = chars.len();
    let mut spans: Vec<(usize, usize)> = Vec::new();
    let mut pos: usize = 0;
    let mut done = false;
    assert(chars@.skip(0) =~= chars@);
    while !done
        invariant
            n == chars.len(),
            pos <= n,
            spans_within(spans@, chars@.len()),
            done ==> lines(chars@) == span_texts(chars@, spans@),
            !done ==> lines(chars@) == span_texts(chars@, spans@) + lines(chars@.skip(pos as int)),
        decreases
                if done {
                    0
                } else {
                    1 + n - pos
                },
    {
        let ghost rest = chars@.skip(pos as int);
        let at = find_char(chars, pos, n, '\n');
        let end = if at > pos && chars[at - 1] == '\r' {
            at - 1
        } else {
            at
        };
        spans.push((pos, end));
        proof {
            let line = chars@.subrange(pos as int, end as int);
            assert(rest.take(at - pos) =~= chars@.subrange(pos as int, at as int));
            assert(strip_cr(chars@.subrange(pos as int, at as int)) =~= line);
            if at < n {
                assert(rest.skip(at - pos + 1) =~= chars@.skip(at + 1));
            }
        }
        if at == n {
            done = true;
        } else {
            pos = at + 1;
        }
    }
    spans
}

} // verus!
