//! Characters, lines and trimming: the text model that every parser here is stated over.

use vstd::prelude::*;
use vstd::std_specs::iter::IteratorSpec;

verus! {

/// `String::push` appends exactly one character.
pub assume_specification[ String::push ](s: &mut String, ch: char)
    ensures
        final(s)@ == old(s)@.push(ch),
;

/// The characters with the Unicode property `White_Space`.
pub open spec fn is_whitespace(c: char) -> bool {
    let u = c as int;
    ||| 0x09 <= u <= 0x0D
    ||| u == 0x20
    ||| u == 0x85
    ||| u == 0xA0
    ||| u == 0x1680
    ||| 0x2000 <= u <= 0x200A
    ||| u == 0x2028
    ||| u == 0x2029
    ||| u == 0x202F
    ||| u == 0x205F
    ||| u == 0x3000
}

/// `s` without its leading white space.
pub open spec fn trim_start(s: Seq<char>) -> Seq<char>
    decreases s.len(),
{
    if s.len() > 0 && is_whitespace(s[0]) {
        trim_start(s.drop_first())
    } else {
        s
    }
}

/// `s` without its trailing white space.
pub open spec fn trim_end(s: Seq<char>) -> Seq<char>
    decreases s.len(),
{
    if s.len() > 0 && is_whitespace(s.last()) {
        trim_end(s.drop_last())
    } else {
        s
    }
}

/// `s` without white space at either end.
pub open spec fn trim(s: Seq<char>) -> Seq<char> {
    trim_end(trim_start(s))
}

/// Whether `s` begins with `prefix`.
pub open spec fn starts_with(s: Seq<char>, prefix: Seq<char>) -> bool {
    prefix.len() <= s.len() && s.take(prefix.len() as int) == prefix
}

/// Whether `s` ends with `suffix`.
pub open spec fn ends_with(s: Seq<char>, suffix: Seq<char>) -> bool {
    suffix.len() <= s.len() && s.skip(s.len() - suffix.len()) == suffix
}

/// The position of the first `c` in `s`, or `s.len()` where there is none.
pub open spec fn find(s: Seq<char>, c: char) -> int
    decreases s.len(),
{
    if s.len() == 0 {
        0
    } else if s[0] == c {
        0
    } else {
        1 + find(s.drop_first(), c)
    }
}

/// Where `find` points: at the first `c`, or past the end where there is none.
pub proof fn lemma_find(s: Seq<char>, c: char)
    ensures
        0 <= find(s, c) <= s.len(),
        find(s, c) < s.len() ==> s[find(s, c)] == c,
        forall|j: int| 0 <= j < find(s, c) ==> s[j] != c,
    decreases s.len(),
{
    if s.len() > 0 && s[0] != c {
        lemma_find(s.drop_first(), c);
        assert forall|j: int| 0 <= j < find(s, c) implies s[j] != c by {
            if j > 0 {
                assert(s[j] == s.drop_first()[j - 1]);
            }
        }
    }
}

/// `find` is the one position that holds `c` and has no `c` before it.
pub proof fn lemma_find_is(s: Seq<char>, c: char, i: int)
    requires
        0 <= i <= s.len(),
        forall|j: int| 0 <= j < i ==> s[j] != c,
        i < s.len() ==> s[i] == c,
    ensures
        find(s, c) == i,
{
    lemma_find(s, c);
    let f = find(s, c);
    if f < i {
        assert(s[f] != c);
    }
}

/// Whether `c` is white space.
pub fn is_whitespace_char(c: char) -> (r: bool)
    ensures
        r == is_whitespace(c),
{
    let u: u32 = c as u32;
    (0x09 <= u && u <= 0x0D) || u == 0x20 || u == 0x85 || u == 0xA0 || u == 0x1680 || (0x2000 <= u
        && u <= 0x200A) || u == 0x2028 || u == 0x2029 || u == 0x202F || u == 0x205F || u == 0x3000
}

/// The characters of a string slice.
pub fn chars_of(s: &str) -> (v: Vec<char>)
    ensures
        v@ == s@,
{
    let mut v: Vec<char> = Vec::new();
    let it = s.chars();
    for c in iter: it
        invariant
            v@ == iter.seq().take(iter.index() as int),
            iter.seq() == s@,
    {
        v.push(c);
    }
    v
}

/// The string made of the characters `v[from..to]`.
pub fn string_of(v: &Vec<char>, from: usize, to: usize) -> (s: String)
    requires
        from <= to <= v.len(),
    ensures
        s@ == v@.subrange(from as int, to as int),
{
    let mut s = String::new();
    let mut i: usize = from;
    while i < to
        invariant
            from <= i <= to <= v.len(),
            s@ == v@.subrange(from as int, i as int),
        decreases to - i,
    {
        s.push(v[i]);
        assert(v@.subrange(from as int, i as int).push(v@[i as int]) == v@.subrange(
            from as int,
            i + 1,
        ));
        i = i + 1;
    }
    s
}

/// A copy of the characters `v[from..to]`.
pub fn slice_of(v: &Vec<char>, from: usize, to: usize) -> (r: Vec<char>)
    requires
        from <= to <= v.len(),
    ensures
        r@ == v@.subrange(from as int, to as int),
{
    let mut r: Vec<char> = Vec::new();
    let mut i: usize = from;
    while i < to
        invariant
            from <= i <= to <= v.len(),
            r@ == v@.subrange(from as int, i as int),
        decreases to - i,
    {
        r.push(v[i]);
        assert(v@.subrange(from as int, i as int).push(v@[i as int]) == v@.subrange(
            from as int,
            i + 1,
        ));
        i = i + 1;
    }
    r
}

/// The position of the first `c` in `v`, or `v.len()` where there is none.
pub fn find_char(v: &Vec<char>, c: char) -> (r: usize)
    ensures
        r == find(v@, c),
{
    let mut i: usize = 0;
    while i < v.len() && v[i] != c
        invariant
            i <= v.len(),
            forall|j: int| 0 <= j < i ==> v@[j] != c,
        decreases v.len() - i,
    {
        i = i + 1;
    }
    proof {
        lemma_find_is(v@, c, i as int);
    }
    i
}

proof fn lemma_trim_start_skip(s: Seq<char>, n: int)
    requires
        0 <= n <= s.len(),
        forall|j: int| 0 <= j < n ==> is_whitespace(s[j]),
    ensures
        trim_start(s) == trim_start(s.skip(n)),
    decreases n,
{
    if n > 0 {
        assert(s.drop_first().skip(n - 1) == s.skip(n));
        lemma_trim_start_skip(s.drop_first(), n - 1);
    } else {
        assert(s.skip(0) == s);
    }
}

proof fn lemma_trim_end_take(s: Seq<char>, n: int)
    requires
        0 <= n <= s.len(),
        forall|j: int| n <= j < s.len() ==> is_whitespace(s[j]),
    ensures
        trim_end(s) == trim_end(s.take(n)),
    decreases s.len() - n,
{
    if n < s.len() {
        assert(s.drop_last().take(n) == s.take(n));
        lemma_trim_end_take(s.drop_last(), n);
    } else {
        assert(s.take(n) == s);
    }
}

/// What trimming leaves, given by its bounds: the white space before `lo` and from `hi`
/// on goes, and what lies between starts and ends with other characters.
pub proof fn lemma_trim_is(s: Seq<char>, lo: int, hi: int)
    requires
        0 <= lo <= hi <= s.len(),
        forall|j: int| 0 <= j < lo ==> is_whitespace(s[j]),
        forall|j: int| hi <= j < s.len() ==> is_whitespace(s[j]),
        lo < hi ==> !is_whitespace(s[lo]) && !is_whitespace(s[hi - 1]),
        lo == hi ==> lo == s.len(),
    ensures
        trim(s) == s.subrange(lo, hi),
{
    lemma_trim_start_skip(s, lo);
    let t = s.skip(lo);
    assert(trim_start(t) == t);
    lemma_trim_end_take(t, hi - lo);
    assert(t.take(hi - lo) == s.subrange(lo, hi));
    let u = s.subrange(lo, hi);
    assert(trim_end(u) == u);
}

/// `v` without white space at either end.
pub fn trim_chars(v: &Vec<char>) -> (r: Vec<char>)
    ensures
        r@ == trim(v@),
{
    let mut lo: usize = 0;
    while lo < v.len() && is_whitespace_char(v[lo])
        invariant
            lo <= v.len(),
            forall|j: int| 0 <= j < lo ==> is_whitespace(v@[j]),
        decreases v.len() - lo,
    {
        lo = lo + 1;
    }
    let mut hi: usize = v.len();
    while hi > lo && is_whitespace_char(v[hi - 1])
        invariant
            lo <= hi <= v.len(),
            forall|j: int| hi <= j < v.len() ==> is_whitespace(v@[j]),
        decreases hi,
    {
        hi = hi - 1;
    }
    proof {
        lemma_trim_is(v@, lo as int, hi as int);
    }
    slice_of(v, lo, hi)
}

/// Whether `v` holds exactly the characters of `s`.
pub fn equals_str(v: &Vec<char>, s: &str) -> (r: bool)
    ensures
        r == (v@ == s@),
{
    let mut i: usize = 0;
    let it = s.chars();
    for c in iter: it
        invariant
            iter.seq() == s@,
            i == iter.index(),
            i <= v.len(),
            v@.take(i as int) == s@.take(i as int),
    {
        if i >= v.len() || v[i] != c {
            assert(v@ != s@) by {
                if v@ == s@ {
                    assert(v@[i as int] == s@[i as int]);
                }
            }
            return false;
        }
        assert(v@.take(i + 1) == v@.take(i as int).push(v@[i as int]));
        assert(s@.take(i + 1) == s@.take(i as int).push(s@[i as int]));
        i = i + 1;
    }
    assert(s@.take(i as int) == s@);
    if i == v.len() {
        assert(v@.take(i as int) == v@);
        true
    } else {
        false
    }
}

/// Whether `v` begins with the characters of `prefix`.
pub fn starts_with_str(v: &Vec<char>, prefix: &str) -> (r: bool)
    ensures
        r == starts_with(v@, prefix@),
{
    let mut i: usize = 0;
    let it = prefix.chars();
    for c in iter: it
        invariant
            iter.seq() == prefix@,
            i == iter.index(),
            i <= v.len(),
            v@.take(i as int) == prefix@.take(i as int),
    {
        if i >= v.len() || v[i] != c {
            assert(!starts_with(v@, prefix@)) by {
                if starts_with(v@, prefix@) {
                    assert(v@.take(prefix@.len() as int)[i as int] == prefix@[i as int]);
                }
            }
            return false;
        }
        assert(v@.take(i + 1) == v@.take(i as int).push(v@[i as int]));
        assert(prefix@.take(i + 1) == prefix@.take(i as int).push(prefix@[i as int]));
        i = i + 1;
    }
    assert(prefix@.take(i as int) == prefix@);
    true
}

/// `s` without one carriage return at its end, where it has one.
pub open spec fn strip_cr(s: Seq<char>) -> Seq<char> {
    if s.len() > 0 && s.last() == '\r' {
        s.drop_last()
    } else {
        s
    }
}

/// The lines of a text. A line ends at a line feed; the carriage return before that line
/// feed is not part of the line. What follows the last line feed is a line of its own
/// unless it is empty, and is kept as it stands.
pub open spec fn lines_of(text: Seq<char>) -> Seq<Seq<char>>
    decreases text.len(),
{
    if text.len() == 0 {
        Seq::empty()
    } else {
        let i = find(text, '\n');
        if i < text.len() {
            proof {
                lemma_find(text, '\n');
            }
            seq![strip_cr(text.take(i))] + lines_of(text.skip(i + 1))
        } else {
            seq![text]
        }
    }
}

/// The lines joined by single line feeds, with none after the last.
pub open spec fn join_lines(lines: Seq<Seq<char>>) -> Seq<char>
    decreases lines.len(),
{
    if lines.len() == 0 {
        Seq::empty()
    } else if lines.len() == 1 {
        lines[0]
    } else {
        join_lines(lines.drop_last()) + seq!['\n'] + lines.last()
    }
}

/// Lines that come back when they are joined and the text is split again: none holds a
/// line feed, none but the last ends in a carriage return, and the last is not empty.
pub open spec fn splits_back(lines: Seq<Seq<char>>) -> bool {
    &&& forall|i: int, j: int|
        0 <= i < lines.len() && 0 <= j < lines[i].len() ==> #[trigger] lines[i][j] != '\n'
    &&& forall|i: int|
        0 <= i < lines.len() - 1 ==> !(#[trigger] lines[i].len() > 0 && lines[i].last() == '\r')
    &&& lines.len() > 0 ==> lines.last().len() > 0
}

/// Lines that keep their ends when they are joined and the text is split again: none
/// but the last ends in a carriage return, and the last is not empty.
pub open spec fn keep_their_ends(lines: Seq<Seq<char>>) -> bool {
    &&& forall|i: int|
        0 <= i < lines.len() - 1 ==> !(#[trigger] lines[i].len() > 0 && lines[i].last() == '\r')
    &&& lines.len() > 0 ==> lines.last().len() > 0
}

/// The lines of a text hold no line feed.
pub proof fn lemma_lines_hold_no_feed(text: Seq<char>)
    ensures
        forall|i: int, j: int|
            0 <= i < lines_of(text).len() && 0 <= j < lines_of(text)[i].len() ==> #[trigger] lines_of(
                text,
            )[i][j] != '\n',
    decreases text.len(),
{
    if text.len() > 0 {
        lemma_find(text, '\n');
        let at = find(text, '\n');
        if at < text.len() {
            let first = strip_cr(text.take(at));
            let rest = lines_of(text.skip(at + 1));
            lemma_lines_hold_no_feed(text.skip(at + 1));
            assert(lines_of(text) == seq![first] + rest);
            assert forall|i: int, j: int|
                0 <= i < lines_of(text).len() && 0 <= j < lines_of(text)[i].len() implies
                #[trigger] lines_of(text)[i][j] != '\n' by {
                if i == 0 {
                    assert(first[j] == text[j]);
                } else {
                    assert(lines_of(text)[i] == rest[i - 1]);
                }
            }
        }
    }
}

proof fn lemma_join_front(lines: Seq<Seq<char>>)
    requires
        lines.len() >= 2,
    ensures
        join_lines(lines) == lines[0] + seq!['\n'] + join_lines(lines.drop_first()),
    decreases lines.len(),
{
    let nl = seq!['\n'];
    let front = lines.drop_first();
    let back = lines.drop_last();
    assert(back[0] == lines[0]);
    assert(front.last() == lines.last());
    if lines.len() == 2 {
        assert(front[0] == lines[1]);
        assert(join_lines(back) == lines[0]);
        assert(join_lines(front) == lines[1]);
        assert(join_lines(lines) == join_lines(back) + nl + lines.last());
    } else {
        lemma_join_front(back);
        let mid = back.drop_first();
        assert(mid == front.drop_last());
        assert(join_lines(lines) == ((lines[0] + nl) + join_lines(mid)) + nl + lines.last());
        assert(join_lines(front) == join_lines(mid) + nl + lines.last());
        assert(((lines[0] + nl) + join_lines(mid)) + nl + lines.last() =~= (lines[0] + nl) + (
        join_lines(mid) + nl + lines.last()));
    }
}

/// Splitting undoes joining.
pub proof fn lemma_split_joined(lines: Seq<Seq<char>>)
    requires
        splits_back(lines),
    ensures
        lines_of(join_lines(lines)) == lines,
    decreases lines.len(),
{
    if lines.len() == 0 {
    } else if lines.len() == 1 {
        let m = lines[0];
        assert forall|j: int| 0 <= j < m.len() implies m[j] != '\n' by {
            assert(lines[0][j] != '\n');
        }
        lemma_find_is(m, '\n', m.len() as int);
        assert(lines == seq![m]);
    } else {
        let first = lines[0];
        let rest = lines.drop_first();
        let text = join_lines(lines);
        lemma_join_front(lines);
        assert(text == first + seq!['\n'] + join_lines(rest));
        assert forall|j: int| 0 <= j < first.len() implies text[j] != '\n' by {
            assert(lines[0][j] != '\n');
        }
        assert(text[first.len() as int] == '\n');
        lemma_find_is(text, '\n', first.len() as int);
        assert(text.take(first.len() as int) == first);
        assert(text.skip(first.len() as int + 1) == join_lines(rest));
        assert(!(lines[0].len() > 0 && lines[0].last() == '\r'));
        assert(strip_cr(first) == first);
        assert(splits_back(rest)) by {
            assert forall|i: int, j: int|
                0 <= i < rest.len() && 0 <= j < rest[i].len() implies #[trigger] rest[i][j]
                != '\n' by {
                assert(lines[i + 1][j] != '\n');
            }
            assert forall|i: int| 0 <= i < rest.len() - 1 implies !(#[trigger] rest[i].len() > 0
                && rest[i].last() == '\r') by {
                assert(!(lines[i + 1].len() > 0 && lines[i + 1].last() == '\r'));
            }
            assert(rest.last() == lines.last());
        }
        lemma_split_joined(rest);
        assert(seq![first] + rest == lines);
    }
}

/// The character sequences held by a vector of lines.
pub open spec fn lines_view(lines: Seq<Vec<char>>) -> Seq<Seq<char>> {
    lines.map_values(|l: Vec<char>| l@)
}

/// The character sequences held by a vector of strings.
pub open spec fn texts(strings: Seq<String>) -> Seq<Seq<char>> {
    strings.map_values(|s: String| s@)
}

/// The lines of `text`.
pub fn split_lines(text: &Vec<char>) -> (lines: Vec<Vec<char>>)
    ensures
        lines_view(lines@) == lines_of(text@),
{
    let mut lines: Vec<Vec<char>> = Vec::new();
    let mut start: usize = 0;
    let mut i: usize = 0;
    assert(text@.skip(0) == text@);
    assert(lines_view(lines@) == Seq::<Seq<char>>::empty());
    while i < text.len()
        invariant
            start <= i <= text.len(),
            forall|j: int| start <= j < i ==> text@[j] != '\n',
            lines_view(lines@) + lines_of(text@.skip(start as int)) == lines_of(text@),
        decreases text.len() - i,
    {
        if text[i] == '\n' {
            let ghost rest = text@.skip(start as int);
            proof {
                lemma_find_is(rest, '\n', i - start);
                assert(rest.take(i - start) == text@.subrange(start as int, i as int));
                assert(rest.skip(i - start + 1) == text@.skip(i + 1));
            }
            let end: usize = if i > start && text[i - 1] == '\r' {
                i - 1
            } else {
                i
            };
            let line = slice_of(text, start, end);
            assert(line@ == strip_cr(text@.subrange(start as int, i as int)));
            let ghost before = lines_view(lines@);
            lines.push(line);
            assert(lines_view(lines@) == before.push(line@));
            assert(before.push(line@) + lines_of(text@.skip(i + 1)) == before + (seq![line@]
                + lines_of(text@.skip(i + 1))));
            start = i + 1;
        }
        i = i + 1;
    }
    if start < text.len() {
        let ghost rest = text@.skip(start as int);
        proof {
            lemma_find_is(rest, '\n', rest.len() as int);
            assert(rest == text@.subrange(start as int, text@.len() as int));
        }
        let line = slice_of(text, start, text.len());
        let ghost before = lines_view(lines@);
        lines.push(line);
        assert(lines_view(lines@) == before.push(line@));
        assert(before.push(line@) == before + seq![line@]);
    } else {
        assert(lines_view(lines@) + Seq::<Seq<char>>::empty() == lines_view(lines@));
    }
    lines
}

/// The lines joined by single line feeds, as a string.
pub fn join_to_string(lines: &Vec<Vec<char>>) -> (s: String)
    ensures
        s@ == join_lines(lines_view(lines@)),
{
    let mut s = String::new();
    let mut k: usize = 0;
    while k < lines.len()
        invariant
            k <= lines.len(),
            s@ == join_lines(lines_view(lines@).take(k as int)),
        decreases lines.len() - k,
    {
        let ghost done = lines_view(lines@).take(k as int);
        let ghost next = lines_view(lines@).take(k + 1);
        assert(next.drop_last() == done);
        assert(next.last() == lines@[k as int]@);
        if k > 0 {
            s.push('\n');
        }
        let line = &lines[k];
        let mut j: usize = 0;
        let ghost head = s@;
        while j < line.len()
            invariant
                j <= line.len(),
                s@ == head + line@.take(j as int),
            decreases line.len() - j,
        {
            s.push(line[j]);
            assert(line@.take(j + 1) == line@.take(j as int).push(line@[j as int]));
            j = j + 1;
        }
        assert(line@.take(j as int) == line@);
        assert(s@ == join_lines(next)) by {
            if k == 0 {
                assert(done.len() == 0);
                assert(head == Seq::<char>::empty());
                assert(head + line@ == line@);
            }
        }
        k = k + 1;
    }
    assert(lines_view(lines@).take(k as int) == lines_view(lines@));
    s
}

/// The lines written one after the other, a line feed after each.
pub open spec fn terminated(lines: Seq<Seq<char>>) -> Seq<char>
    decreases lines.len(),
{
    if lines.len() == 0 {
        Seq::empty()
    } else {
        terminated(lines.drop_last()) + lines.last() + seq!['\n']
    }
}

/// A line that can stand in a text that is read again: it holds no line feed and does
/// not end in a carriage return.
pub open spec fn is_plain_line(line: Seq<char>) -> bool {
    &&& forall|j: int| 0 <= j < line.len() ==> line[j] != '\n'
    &&& !(line.len() > 0 && line.last() == '\r')
}

proof fn lemma_terminated_front(lines: Seq<Seq<char>>)
    requires
        lines.len() > 0,
    ensures
        terminated(lines) == lines[0] + seq!['\n'] + terminated(lines.drop_first()),
    decreases lines.len(),
{
    let nl = seq!['\n'];
    let front = lines.drop_first();
    let back = lines.drop_last();
    if lines.len() == 1 {
        assert(terminated(back) == Seq::<char>::empty());
        assert(terminated(front) == Seq::<char>::empty());
        assert(terminated(lines) == terminated(back) + lines.last() + nl);
        assert(terminated(back) + lines.last() + nl =~= lines[0] + nl + terminated(front));
    } else {
        lemma_terminated_front(back);
        let mid = back.drop_first();
        assert(mid == front.drop_last());
        assert(back[0] == lines[0]);
        assert(front.last() == lines.last());
        assert(terminated(lines) == (lines[0] + nl + terminated(mid)) + lines.last() + nl);
        assert(terminated(front) == terminated(mid) + lines.last() + nl);
        assert((lines[0] + nl + terminated(mid)) + lines.last() + nl =~= lines[0] + nl + (
        terminated(mid) + lines.last() + nl));
    }
}

/// Plain lines, written one after the other with a line feed after each, are the lines
/// of what was written.
pub proof fn lemma_split_terminated(lines: Seq<Seq<char>>)
    requires
        forall|i: int| 0 <= i < lines.len() ==> is_plain_line(#[trigger] lines[i]),
    ensures
        lines_of(terminated(lines)) == lines,
    decreases lines.len(),
{
    if lines.len() > 0 {
        let first = lines[0];
        let rest = lines.drop_first();
        let text = terminated(lines);
        lemma_terminated_front(lines);
        assert(is_plain_line(first));
        assert forall|j: int| 0 <= j < first.len() implies text[j] != '\n' by {
            assert(text[j] == first[j]);
        }
        assert(text[first.len() as int] == '\n');
        lemma_find_is(text, '\n', first.len() as int);
        assert(text.take(first.len() as int) == first);
        assert(text.skip(first.len() as int + 1) == terminated(rest));
        assert(strip_cr(first) == first);
        assert forall|i: int| 0 <= i < rest.len() implies is_plain_line(#[trigger] rest[i]) by {
            assert(rest[i] == lines[i + 1]);
        }
        lemma_split_terminated(rest);
        assert(seq![first] + rest == lines);
    }
}

/// Trimming leaves a text that begins with another character as it begins.
pub proof fn lemma_trim_keeps_first(s: Seq<char>)
    requires
        s.len() > 0,
        !is_whitespace(s[0]),
    ensures
        trim(s).len() > 0,
        trim(s)[0] == s[0],
{
    assert(trim_start(s) == s);
    lemma_trim_end_keeps_first(s);
}

proof fn lemma_trim_end_keeps_first(s: Seq<char>)
    requires
        s.len() > 0,
        !is_whitespace(s[0]),
    ensures
        trim_end(s).len() > 0,
        trim_end(s)[0] == s[0],
    decreases s.len(),
{
    if is_whitespace(s.last()) {
        assert(s.len() > 1);
        assert(s.drop_last()[0] == s[0]);
        lemma_trim_end_keeps_first(s.drop_last());
    }
}

proof fn lemma_trim_start_shorter(s: Seq<char>)
    ensures
        trim_start(s).len() <= s.len(),
        s.len() > 0 && is_whitespace(s[0]) ==> trim_start(s).len() < s.len(),
    decreases s.len(),
{
    if s.len() > 0 && is_whitespace(s[0]) {
        lemma_trim_start_shorter(s.drop_first());
    }
}

proof fn lemma_trim_end_shorter(s: Seq<char>)
    ensures
        trim_end(s).len() <= s.len(),
        s.len() > 0 && is_whitespace(s.last()) ==> trim_end(s).len() < s.len(),
    decreases s.len(),
{
    if s.len() > 0 && is_whitespace(s.last()) {
        lemma_trim_end_shorter(s.drop_last());
    }
}

/// A text that trimming leaves as it is has no white space at either end.
pub proof fn lemma_trimmed_ends(s: Seq<char>)
    requires
        trim(s) == s,
        s.len() > 0,
    ensures
        !is_whitespace(s[0]),
        !is_whitespace(s.last()),
{
    lemma_trim_start_shorter(s);
    lemma_trim_end_shorter(trim_start(s));
    lemma_trim_end_shorter(s);
}

/// Writes the lines one after the other, a line feed after each.
pub fn write_lines(lines: &Vec<String>) -> (s: String)
    ensures
        s@ == terminated(texts(lines@)),
{
    let mut s = String::new();
    let mut k: usize = 0;
    assert(texts(lines@).take(0) == Seq::<Seq<char>>::empty());
    while k < lines.len()
        invariant
            k <= lines.len(),
            s@ == terminated(texts(lines@).take(k as int)),
        decreases lines.len() - k,
    {
        let ghost next = texts(lines@).take(k + 1);
        assert(next.drop_last() == texts(lines@).take(k as int));
        assert(next.last() == lines@[k as int]@);
        s.append(lines[k].as_str());
        s.push('\n');
        k = k + 1;
    }
    assert(texts(lines@).take(k as int) == texts(lines@));
    s
}

/// The order of texts: by their first characters where these differ, the one with the
/// smaller code point first; else by what follows them. A text comes before every text
/// that it begins.
pub open spec fn text_le(a: Seq<char>, b: Seq<char>) -> bool
    decreases a.len(),
{
    if a.len() == 0 {
        true
    } else if b.len() == 0 {
        false
    } else if a[0] != b[0] {
        a[0] < b[0]
    } else {
        text_le(a.drop_first(), b.drop_first())
    }
}

/// Texts in ascending order.
pub open spec fn is_sorted(texts: Seq<Seq<char>>) -> bool {
    forall|i: int, j: int| 0 <= i <= j < texts.len() ==> text_le(texts[i], texts[j])
}

/// Of two texts one comes before the other, or they are the same.
pub proof fn lemma_text_le_total(a: Seq<char>, b: Seq<char>)
    ensures
        text_le(a, b) || text_le(b, a),
    decreases a.len(),
{
    if a.len() > 0 && b.len() > 0 {
        if a[0] == b[0] {
            lemma_text_le_total(a.drop_first(), b.drop_first());
        }
    }
}

/// A text does not come after itself.
pub proof fn lemma_text_le_reflexive(a: Seq<char>)
    ensures
        text_le(a, a),
    decreases a.len(),
{
    if a.len() > 0 {
        lemma_text_le_reflexive(a.drop_first());
    }
}

/// What comes before a text comes before all that this text comes before.
pub proof fn lemma_text_le_transitive(a: Seq<char>, b: Seq<char>, c: Seq<char>)
    requires
        text_le(a, b),
        text_le(b, c),
    ensures
        text_le(a, c),
    decreases a.len(),
{
    if a.len() > 0 && b.len() > 0 && c.len() > 0 && a[0] == b[0] && b[0] == c[0] {
        lemma_text_le_transitive(a.drop_first(), b.drop_first(), c.drop_first());
    }
}

/// Whether `a` comes before `b` or is `b`.
pub fn precedes(a: &Vec<char>, b: &Vec<char>) -> (r: bool)
    ensures
        r == text_le(a@, b@),
{
    let mut i: usize = 0;
    assert(a@.skip(0) == a@);
    assert(b@.skip(0) == b@);
    loop
        invariant
            i <= a.len(),
            i <= b.len(),
            text_le(a@, b@) == text_le(a@.skip(i as int), b@.skip(i as int)),
        decreases a.len() - i,
    {
        if i == a.len() {
            return true;
        }
        if i == b.len() {
            return false;
        }
        let ghost x = a@.skip(i as int);
        let ghost y = b@.skip(i as int);
        assert(x[0] == a@[i as int] && y[0] == b@[i as int]);
        if a[i] != b[i] {
            assert(text_le(x, y) == (x[0] < y[0]));
            return a[i] < b[i];
        }
        assert(a@.skip(i as int).drop_first() == a@.skip(i + 1));
        assert(b@.skip(i as int).drop_first() == b@.skip(i + 1));
        i = i + 1;
    }
}

proof fn lemma_insert_to_multiset(s: Seq<Seq<char>>, i: int, x: Seq<char>)
    requires
        0 <= i <= s.len(),
    ensures
        s.insert(i, x).to_multiset() == s.to_multiset().insert(x),
{
    broadcast use vstd::seq_lib::group_to_multiset_ensures;

    let t = s.insert(i, x);
    assert(t.remove(i) == s);
    assert(t[i] == x);
    assert(t.to_multiset().remove(x) == s.to_multiset());
    assert(t.contains(x));
    assert(t.to_multiset().count(x) > 0);
    assert(t.to_multiset() =~= s.to_multiset().insert(x));
}

/// The texts in ascending order.
pub fn sort_texts(items: &Vec<Vec<char>>) -> (r: Vec<Vec<char>>)
    ensures
        is_sorted(lines_view(r@)),
        lines_view(r@).to_multiset() == lines_view(items@).to_multiset(),
{
    let mut out: Vec<Vec<char>> = Vec::new();
    let mut k: usize = 0;
    assert(lines_view(items@).take(0) == lines_view(out@));
    while k < items.len()
        invariant
            k <= items.len(),
            is_sorted(lines_view(out@)),
            lines_view(out@).to_multiset() == lines_view(items@).take(k as int).to_multiset(),
        decreases items.len() - k,
    {
        let item = &items[k];
        let mut p: usize = 0;
        while p < out.len() && precedes(&out[p], item)
            invariant
                p <= out.len(),
                forall|j: int| 0 <= j < p ==> text_le(#[trigger] lines_view(out@)[j], item@),
            decreases out.len() - p,
        {
            p = p + 1;
        }
        let ghost before = lines_view(out@);
        out.insert(p, item.clone());
        let ghost after = lines_view(out@);
        proof {
            assert(after == before.insert(p as int, item@));
            before.insert_ensures(p as int, item@);
            lemma_insert_to_multiset(before, p as int, item@);
            let upto = lines_view(items@).take(k + 1);
            assert(upto == lines_view(items@).take(k as int).push(item@));
            vstd::seq_lib::to_multiset_build(lines_view(items@).take(k as int), item@);
            lemma_text_le_reflexive(item@);
            assert forall|i: int, j: int| 0 <= i <= j < after.len() implies text_le(
                after[i],
                after[j],
            ) by {
                if j < p {
                    assert(after[i] == before[i]);
                    assert(after[j] == before[j]);
                } else if j == p {
                    if i < p {
                        assert(after[i] == before[i]);
                    }
                } else if i < p {
                    assert(after[i] == before[i]);
                    assert(after[j] == before[j - 1]);
                } else if i == p {
                    assert(after[j] == before[j - 1]);
                    lemma_text_le_total(before[p as int], item@);
                    lemma_text_le_transitive(item@, before[p as int], before[j - 1]);
                } else {
                    assert(after[i] == before[i - 1]);
                    assert(after[j] == before[j - 1]);
                }
            }
        }
        k = k + 1;
    }
    assert(lines_view(items@).take(k as int) == lines_view(items@));
    out
}

} // verus!
