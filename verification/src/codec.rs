//! The line format of the configuration files: blank lines, comments, section headers
//! and `key = value` assignments, read leniently.

use vstd::prelude::*;
use crate::text::{
    chars_of, equals_str, find, find_char, is_plain_line, is_whitespace, lemma_find_is,
    lemma_trim_is, lemma_trim_keeps_first, lemma_trimmed_ends, lines_of, lines_view, slice_of,
    split_lines, string_of, trim, trim_chars,
};

verus! {

/// What one line of a configuration file says.
#[derive(Debug, Clone, PartialEq, Eq)]
pub enum ConfigLine {
    /// Nothing but white space.
    Blank,
    /// A line that begins with `#` or `;`.
    Comment,
    /// A name in square brackets.
    Section { name: String },
    /// A key, an equals sign and a value.
    KeyValue { key: String, value: String },
    /// Anything else; readers skip it.
    Other,
}

/// `ConfigLine` with its text as sequences of characters.
pub enum LineView {
    Blank,
    Comment,
    Section { name: Seq<char> },
    KeyValue { key: Seq<char>, value: Seq<char> },
    Other,
}

impl View for ConfigLine {
    type V = LineView;

    open spec fn view(&self) -> LineView {
        match self {
            ConfigLine::Blank => LineView::Blank,
            ConfigLine::Comment => LineView::Comment,
            ConfigLine::Section { name } => LineView::Section { name: name@ },
            ConfigLine::KeyValue { key, value } => LineView::KeyValue {
                key: key@,
                value: value@,
            },
            ConfigLine::Other => LineView::Other,
        }
    }
}

/// A trimmed line that is a comment.
pub open spec fn is_comment(t: Seq<char>) -> bool {
    t.len() > 0 && (t[0] == '#' || t[0] == ';')
}

/// A trimmed line that is a section header: it opens with `[` and closes with `]`.
pub open spec fn is_section_header(t: Seq<char>) -> bool {
    t.len() > 0 && t[0] == '[' && t.last() == ']'
}

/// What a line says. White space around the line, around the key and around the value
/// does not count; the key ends at the first equals sign.
pub open spec fn classify(line: Seq<char>) -> LineView {
    let t = trim(line);
    let eq = find(t, '=');
    if t.len() == 0 {
        LineView::Blank
    } else if is_comment(t) {
        LineView::Comment
    } else if is_section_header(t) {
        LineView::Section { name: t.subrange(1, t.len() - 1) }
    } else if eq < t.len() {
        LineView::KeyValue { key: trim(t.take(eq)), value: trim(t.skip(eq + 1)) }
    } else {
        LineView::Other
    }
}

/// A text as the sequence of what its lines say.
pub open spec fn document_of(text: Seq<char>) -> Seq<LineView> {
    lines_of(text).map_values(|line: Seq<char>| classify(line))
}

/// The value of the last assignment to `key`, where there is one.
pub open spec fn last_value(doc: Seq<LineView>, key: Seq<char>) -> Option<Seq<char>>
    decreases doc.len(),
{
    if doc.len() == 0 {
        None
    } else if doc.last() is KeyValue && doc.last()->key == key {
        Some(doc.last()->value)
    } else {
        last_value(doc.drop_last(), key)
    }
}

/// The lower-case form of an ASCII capital; any other character is itself.
pub open spec fn ascii_lower(c: char) -> char {
    if 'A' <= c <= 'Z' {
        ((c as int) + 0x20) as u8 as char
    } else {
        c
    }
}

/// Whether a value reads as true: `true`, `1`, `yes` or `on`, in capitals or not.
/// Every other value, the empty one too, reads as false.
pub open spec fn is_true_token(value: Seq<char>) -> bool {
    let v = value.map_values(|c: char| ascii_lower(c));
    v == "true"@ || v == "1"@ || v == "yes"@ || v == "on"@
}

/// How a truth value is written.
pub open spec fn bool_text(value: bool) -> Seq<char> {
    if value {
        "true"@
    } else {
        "false"@
    }
}

/// The line that assigns `value` to `key`.
pub open spec fn setting(key: Seq<char>, value: Seq<char>) -> Seq<char> {
    key + " = "@ + value
}

/// A letter of the Latin alphabet.
pub open spec fn is_letter(c: char) -> bool {
    'A' <= c <= 'Z' || 'a' <= c <= 'z'
}

/// A key as the plugins' files have them: one or more letters.
pub open spec fn is_key(key: Seq<char>) -> bool {
    &&& key.len() > 0
    &&& forall|j: int| 0 <= j < key.len() ==> is_letter(#[trigger] key[j])
}

/// An empty line says nothing.
pub proof fn lemma_classify_blank()
    ensures
        classify(Seq::empty()) is Blank,
{
    lemma_trim_is(Seq::empty(), 0, 0);
}

/// A line that begins with `#` is a comment.
pub proof fn lemma_classify_comment(line: Seq<char>)
    requires
        line.len() > 0,
        line[0] == '#',
    ensures
        classify(line) is Comment,
{
    lemma_trim_keeps_first(line);
}

/// A line that begins with `[` and ends with `]` is a section header.
pub proof fn lemma_classify_section(line: Seq<char>)
    requires
        line.len() > 0,
        line[0] == '[',
        line.last() == ']',
    ensures
        classify(line) is Section,
{
    lemma_trim_is(line, 0, line.len() as int);
    assert(line.subrange(0, line.len() as int) == line);
}

/// The line that assigns a value to a key says so, where the value has no white space
/// at either end.
pub proof fn lemma_classify_setting(key: Seq<char>, value: Seq<char>)
    requires
        is_key(key),
        trim(value) == value,
    ensures
        classify(setting(key, value)) == (LineView::KeyValue { key, value }),
{
    reveal_strlit(" = ");
    let line = setting(key, value);
    let n = key.len() as int;
    assert(line.len() == n + 3 + value.len());
    assert(line[0] == key[0]);
    assert(line[n] == ' ' && line[n + 1] == '=' && line[n + 2] == ' ');
    let hi = if value.len() == 0 {
        n + 2
    } else {
        line.len() as int
    };
    if value.len() > 0 {
        lemma_trimmed_ends(value);
        assert(line.last() == value.last());
    }
    lemma_trim_is(line, 0, hi);
    let t = line.subrange(0, hi);
    assert(trim(line) == t);
    assert(t[0] == key[0]);
    assert forall|j: int| 0 <= j < n + 1 implies t[j] != '=' by {
        if j < n {
            assert(t[j] == key[j]);
        }
    }
    lemma_find_is(t, '=', n + 1);
    let left = t.take(n + 1);
    assert(left[0] == key[0]);
    assert(left[n] == ' ');
    assert(!is_whitespace(left[n - 1])) by {
        assert(left[n - 1] == key[n - 1]);
    }
    lemma_trim_is(left, 0, n);
    assert(left.subrange(0, n) == key);
    let right = t.skip(n + 2);
    if value.len() == 0 {
        assert(right.len() == 0);
        lemma_trim_is(right, 0, 0);
        assert(right.subrange(0, 0) == value);
    } else {
        assert(right[0] == ' ');
        assert(right[1] == value[0]);
        assert(right.last() == value.last());
        lemma_trim_is(right, 1, right.len() as int);
        assert(right.subrange(1, right.len() as int) == value);
    }
}

/// A value that can be written and read again: it has no white space at either end and
/// holds no line feed.
pub open spec fn is_plain_value(value: Seq<char>) -> bool {
    &&& trim(value) == value
    &&& forall|j: int| 0 <= j < value.len() ==> value[j] != '\n'
}

/// The line that assigns a plain value to a key is a plain line.
pub proof fn lemma_setting_plain(key: Seq<char>, value: Seq<char>)
    requires
        is_key(key),
        is_plain_value(value),
    ensures
        is_plain_line(setting(key, value)),
{
    reveal_strlit(" = ");
    let line = setting(key, value);
    let n = key.len() as int;
    assert forall|j: int| 0 <= j < line.len() implies line[j] != '\n' by {
        if j < n {
            assert(line[j] == key[j]);
            assert(is_letter(key[j]));
        } else if j >= n + 3 {
            assert(line[j] == value[j - n - 3]);
        }
    }
    if value.len() > 0 {
        lemma_trimmed_ends(value);
        assert(line.last() == value.last());
    } else {
        assert(line.last() == ' ');
    }
}

/// The value of the last assignment to a key is the value of an assignment to it that
/// no other follows.
pub proof fn lemma_last_value_is(doc: Seq<LineView>, key: Seq<char>, at: int)
    requires
        0 <= at < doc.len(),
        doc[at] is KeyValue,
        doc[at]->key == key,
        forall|j: int| at < j < doc.len() ==> !(doc[j] is KeyValue && doc[j]->key == key),
    ensures
        last_value(doc, key) == Some(doc[at]->value),
    decreases doc.len(),
{
    if at < doc.len() - 1 {
        assert(doc.drop_last()[at] == doc[at]);
        lemma_last_value_is(doc.drop_last(), key, at);
    }
}

/// A truth value reads as it was written.
pub proof fn lemma_bool_text(value: bool)
    ensures
        is_true_token(bool_text(value)) == value,
        trim(bool_text(value)) == bool_text(value),
        forall|j: int| 0 <= j < bool_text(value).len() ==> bool_text(value)[j] != '\n',
{
    reveal_strlit("true");
    reveal_strlit("false");
    reveal_strlit("1");
    reveal_strlit("yes");
    reveal_strlit("on");
    let t = bool_text(value);
    let low = t.map_values(|c: char| ascii_lower(c));
    assert(low =~= t);
    lemma_trim_is(t, 0, t.len() as int);
    assert(t.subrange(0, t.len() as int) == t);
    if value {
        assert(low == "true"@);
    } else {
        assert(low.len() == 5);
    }
}

/// The views of a vector of lines.
pub open spec fn document_view(doc: Seq<ConfigLine>) -> Seq<LineView> {
    doc.map_values(|l: ConfigLine| l@)
}

/// Says what a line is.
pub fn classify_chars(line: &Vec<char>) -> (r: ConfigLine)
    ensures
        r@ == classify(line@),
{
    let t = trim_chars(line);
    let n: usize = t.len();
    if n == 0 {
        return ConfigLine::Blank;
    }
    if t[0] == '#' || t[0] == ';' {
        return ConfigLine::Comment;
    }
    if t[0] == '[' && t[n - 1] == ']' {
        assert(n >= 2);
        let name = string_of(&t, 1, n - 1);
        return ConfigLine::Section { name };
    }
    let eq: usize = find_char(&t, '=');
    if eq < n {
        let left = slice_of(&t, 0, eq);
        let right = slice_of(&t, eq + 1, n);
        assert(left@ == t@.take(eq as int));
        assert(right@ == t@.skip(eq + 1));
        let key_chars = trim_chars(&left);
        let value_chars = trim_chars(&right);
        let key = string_of(&key_chars, 0, key_chars.len());
        let value = string_of(&value_chars, 0, value_chars.len());
        assert(key_chars@.subrange(0, key_chars@.len() as int) == key_chars@);
        assert(value_chars@.subrange(0, value_chars@.len() as int) == value_chars@);
        ConfigLine::KeyValue { key, value }
    } else {
        ConfigLine::Other
    }
}

/// Says what a line is.
pub fn classify_line(line: &str) -> (r: ConfigLine)
    ensures
        r@ == classify(line@),
{
    let chars = chars_of(line);
    classify_chars(&chars)
}

/// Reads a text line by line.
pub fn read_document(text: &str) -> (doc: Vec<ConfigLine>)
    ensures
        document_view(doc@) == document_of(text@),
{
    let chars = chars_of(text);
    let lines = split_lines(&chars);
    let mut doc: Vec<ConfigLine> = Vec::new();
    let mut i: usize = 0;
    while i < lines.len()
        invariant
            i <= lines.len(),
            lines_view(lines@) == lines_of(text@),
            document_view(doc@) == document_of(text@).take(i as int),
        decreases lines.len() - i,
    {
        let line = classify_chars(&lines[i]);
        assert(lines_view(lines@)[i as int] == lines@[i as int]@);
        let ghost before = document_view(doc@);
        doc.push(line);
        assert(document_view(doc@) == before.push(line@));
        assert(document_of(text@).take(i + 1) == document_of(text@).take(i as int).push(
            document_of(text@)[i as int],
        ));
        i = i + 1;
    }
    assert(document_of(text@).take(i as int) == document_of(text@));
    doc
}

/// Finds the value of the last assignment to `key`.
pub fn lookup<'a>(doc: &'a Vec<ConfigLine>, key: &str) -> (r: Option<&'a String>)
    ensures
        r is Some <==> last_value(document_view(doc@), key@) is Some,
        r is Some ==> r->Some_0@ == last_value(document_view(doc@), key@)->Some_0,
{
    let wanted = String::from_str(key);
    let mut i: usize = doc.len();
    assert(document_view(doc@).take(i as int) == document_view(doc@));
    while i > 0
        invariant
            i <= doc.len(),
            wanted@ == key@,
            last_value(document_view(doc@), key@) == last_value(
                document_view(doc@).take(i as int),
                key@,
            ),
        decreases i,
    {
        let ghost upto = document_view(doc@).take(i as int);
        assert(upto.last() == doc@[i - 1]@);
        assert(upto.drop_last() == document_view(doc@).take(i - 1));
        match &doc[i - 1] {
            ConfigLine::KeyValue { key: k, value } => {
                if *k == wanted {
                    return Some(value);
                }
            },
            _ => {},
        }
        i = i - 1;
    }
    None
}

/// Reads a truth value: `true`, `1`, `yes` and `on` are true in any mix of capitals and
/// small letters, everything else is false.
pub fn parse_bool(value: &str) -> (r: bool)
    ensures
        r == is_true_token(value@),
{
    let chars = chars_of(value);
    let mut lower: Vec<char> = Vec::new();
    let mut i: usize = 0;
    while i < chars.len()
        invariant
            i <= chars.len(),
            lower@ == chars@.take(i as int).map_values(|c: char| ascii_lower(c)),
        decreases chars.len() - i,
    {
        let c: char = chars[i];
        let l: char = if 'A' <= c && c <= 'Z' {
            ((c as u32 + 0x20) as u8) as char
        } else {
            c
        };
        lower.push(l);
        assert(chars@.take(i + 1) == chars@.take(i as int).push(c));
        assert(lower@ == chars@.take(i + 1).map_values(|c: char| ascii_lower(c)));
        i = i + 1;
    }
    assert(chars@.take(i as int) == chars@);
    equals_str(&lower, "true") || equals_str(&lower, "1") || equals_str(&lower, "yes")
        || equals_str(&lower, "on")
}

/// Writes a truth value: `true` or `false`.
pub fn format_bool(value: bool) -> (r: &'static str)
    ensures
        r@ == bool_text(value),
{
    if value {
        "true"
    } else {
        "false"
    }
}

} // verus!
