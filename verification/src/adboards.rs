//! The advertising boards setting. It lives in the file of the stadium injection plugin,
//! in a section of its own, and is changed there in place: every line that the change
//! does not aim at stays as it is.

use vstd::prelude::*;
use crate::codec::{
    bool_text, classify, classify_chars, document_of, format_bool, is_key, is_plain_value,
    is_section_header, lemma_bool_text, lemma_classify_blank, lemma_classify_comment,
    lemma_classify_setting, lemma_setting_plain, read_document, setting, ConfigLine, LineView,
};
use crate::configs::{flag, flag_of};
use crate::models::{AdboardsConfig, ReadFailed};
use crate::text::{
    chars_of, equals_str, is_plain_line, join_lines, join_to_string, keep_their_ends,
    lemma_lines_hold_no_feed, lemma_split_joined, lemma_trim_is, lines_of, lines_view, split_lines,
    splits_back, trim, trim_chars,
};

verus! {

/// The advertising boards setting that a stadium injection file holds.
pub open spec fn adboards_of(doc: Seq<LineView>) -> AdboardsConfig {
    AdboardsConfig { disable_adboards: flag(doc, "DisableAdboards"@, false) }
}

/// Reads the advertising boards setting from a stadium injection file, in whichever
/// section it stands.
pub fn parse_adboards_config(content: &str) -> (r: AdboardsConfig)
    ensures
        r == adboards_of(document_of(content@)),
{
    let doc = read_document(content);
    AdboardsConfig { disable_adboards: flag_of(&doc, "DisableAdboards", false) }
}

/// Gives the advertising boards setting from the text of the stadium injection file,
/// or the default where there is no file. A file that could not be read gives no
/// setting.
pub fn read_adboards_config(content: Result<Option<&str>, ReadFailed>) -> (r: Result<
    AdboardsConfig,
    ReadFailed,
>)
    ensures
        content is Err ==> r is Err,
        content is Ok ==> r is Ok && r->Ok_0 == match content->Ok_0 {
            Some(text) => adboards_of(document_of(text@)),
            None => AdboardsConfig::defaults(),
        },
{
    match content {
        Err(failed) => Err(failed),
        Ok(Some(text)) => Ok(parse_adboards_config(text)),
        Ok(None) => Ok(AdboardsConfig::default()),
    }
}

/// Where a pass over the lines of a file stands with respect to the section of the
/// setting.
#[derive(Debug, Clone, Copy, PartialEq, Eq, Structural)]
pub enum MergeState {
    /// The section has not been met.
    Before,
    /// Inside the section, the setting not written yet.
    Pending,
    /// Inside the section, the setting written.
    Written,
    /// Outside the section, after it has been met.
    After,
}

/// The line that assigns the setting.
pub open spec fn setting_line(value: bool) -> Seq<char> {
    setting("DisableAdboards"@, bool_text(value))
}

/// A trimmed line that opens the section of the setting.
pub open spec fn is_target_header(t: Seq<char>) -> bool {
    t == "[Adboards]"@
}

/// A line that assigns the setting: a key, an equals sign and a value, where the key
/// is the key of the setting and no other. A key that only begins as it does is
/// another key.
pub open spec fn assigns_setting(line: Seq<char>) -> bool {
    classify(line) is KeyValue && classify(line)->key == "DisableAdboards"@
}

/// Whether the pass is inside the section of the setting.
pub open spec fn in_section(s: MergeState) -> bool {
    s is Pending || s is Written
}

/// Whether the pass replaces this line by the line of the setting: it does so with the
/// assignments of the setting that stand in its section.
pub open spec fn replaces(s: MergeState, line: Seq<char>) -> bool {
    in_section(s) && assigns_setting(line)
}

/// The state after a line.
pub open spec fn next_state(s: MergeState, line: Seq<char>) -> MergeState {
    let t = trim(line);
    if is_section_header(t) {
        if is_target_header(t) {
            if s is Before {
                MergeState::Pending
            } else {
                MergeState::Written
            }
        } else if s is Before {
            MergeState::Before
        } else {
            MergeState::After
        }
    } else if replaces(s, line) {
        MergeState::Written
    } else {
        s
    }
}

/// What the pass writes for a line. A header that ends the section while the setting
/// is pending is preceded by the setting and a blank line; a line of the section that
/// assigns the setting gives way to the one line that does so now; every other line is
/// written as it is.
pub open spec fn written_for(s: MergeState, line: Seq<char>, value: bool) -> Seq<Seq<char>> {
    if is_section_header(trim(line)) {
        if s is Pending {
            seq![setting_line(value), Seq::empty(), line]
        } else {
            seq![line]
        }
    } else if replaces(s, line) {
        seq![setting_line(value)]
    } else {
        seq![line]
    }
}

/// What the pass writes after the last line: the setting, where the file ends inside
/// the section with the setting pending; a whole new section, where the file has none.
pub open spec fn written_at_end(s: MergeState, value: bool) -> Seq<Seq<char>> {
    match s {
        MergeState::Pending => seq![setting_line(value)],
        MergeState::Before => seq![
            Seq::empty(),
            "[Adboards]"@,
            Seq::empty(),
            explanation(),
            setting_line(value),
        ],
        _ => Seq::empty(),
    }
}

/// The lines that a pass from state `s` over `lines` writes.
pub open spec fn merge_from(s: MergeState, lines: Seq<Seq<char>>, value: bool) -> Seq<Seq<char>>
    decreases lines.len(),
{
    if lines.len() == 0 {
        written_at_end(s, value)
    } else {
        written_for(s, lines[0], value) + merge_from(
            next_state(s, lines[0]),
            lines.drop_first(),
            value,
        )
    }
}

/// The lines of a file after the setting has been merged into them.
pub open spec fn merged_lines(lines: Seq<Seq<char>>, value: bool) -> Seq<Seq<char>> {
    merge_from(MergeState::Before, lines, value)
}

/// A file after the setting has been merged into it.
pub open spec fn merged_text(text: Seq<char>, value: bool) -> Seq<char> {
    join_lines(merged_lines(lines_of(text), value))
}

fn setting_chars(value: bool) -> (r: Vec<char>)
    ensures
        r@ == setting_line(value),
{
    let mut r = chars_of("DisableAdboards");
    let mut middle = chars_of(" = ");
    let mut tail = chars_of(format_bool(value));
    r.append(&mut middle);
    r.append(&mut tail);
    r
}

fn assigns_the_setting(line: &Vec<char>) -> (r: bool)
    ensures
        r == assigns_setting(line@),
{
    match classify_chars(line) {
        ConfigLine::KeyValue { key, value: _ } => {
            let key_chars = chars_of(key.as_str());
            equals_str(&key_chars, "DisableAdboards")
        },
        _ => false,
    }
}

/// Sets the advertising boards setting in the text of a stadium injection file and
/// leaves the rest of the text as it is, line by line.
pub fn update_adboards_in_config(existing_content: &str, config: &AdboardsConfig) -> (r: String)
    ensures
        r@ == merged_text(existing_content@, config.disable_adboards),
{
    let value: bool = config.disable_adboards;
    let chars = chars_of(existing_content);
    let lines = split_lines(&chars);
    let mut out: Vec<Vec<char>> = Vec::new();
    let mut state = MergeState::Before;
    let mut i: usize = 0;
    let ghost all = lines_view(lines@);
    assert(all.skip(0) == all);
    assert(lines_view(out@) == Seq::<Seq<char>>::empty());
    while i < lines.len()
        invariant
            i <= lines.len(),
            all == lines_view(lines@),
            lines_view(out@) + merge_from(state, all.skip(i as int), value) == merged_lines(
                all,
                value,
            ),
        decreases lines.len() - i,
    {
        let line = &lines[i];
        let ghost rest = all.skip(i as int);
        let ghost before = lines_view(out@);
        let ghost old_state = state;
        assert(rest[0] == line@);
        assert(rest.drop_first() == all.skip(i + 1));
        let t = trim_chars(line);
        let n: usize = t.len();
        if n > 0 && t[0] == '[' && t[n - 1] == ']' {
            if state == MergeState::Pending {
                out.push(setting_chars(value));
                out.push(Vec::new());
            }
            out.push(line.clone());
            if equals_str(&t, "[Adboards]") {
                state = if state == MergeState::Before {
                    MergeState::Pending
                } else {
                    MergeState::Written
                };
            } else if state != MergeState::Before {
                state = MergeState::After;
            }
        } else if (state == MergeState::Pending || state == MergeState::Written)
            && assigns_the_setting(line) {
            out.push(setting_chars(value));
            state = MergeState::Written;
        } else {
            out.push(line.clone());
        }
        proof {
            assert(lines_view(out@) == before + written_for(old_state, line@, value));
            assert(state == next_state(old_state, line@));
            assert((before + written_for(old_state, line@, value)) + merge_from(
                state,
                all.skip(i + 1),
                value,
            ) == before + (written_for(old_state, line@, value) + merge_from(
                state,
                all.skip(i + 1),
                value,
            )));
        }
        i = i + 1;
    }
    let ghost before = lines_view(out@);
    assert(all.skip(i as int).len() == 0);
    if state == MergeState::Pending {
        out.push(setting_chars(value));
    }
    if state == MergeState::Before {
        out.push(Vec::new());
        out.push(chars_of("[Adboards]"));
        out.push(Vec::new());
        out.push(chars_of("## If true, hide all adboards in the stadium."));
        out.push(setting_chars(value));
    }
    assert(lines_view(out@) == before + written_at_end(state, value));
    join_to_string(&out)
}

/// Gives the text to write to the stadium injection file so that it holds the setting:
/// the text of the file with the setting merged into it, or into an empty text where
/// there is no file. A file that is there and could not be read is not written over:
/// there is nothing to write then.
pub fn write_adboards_config(
    existing: Result<Option<&str>, ReadFailed>,
    config: &AdboardsConfig,
) -> (r: Result<String, ReadFailed>)
    ensures
        existing is Err ==> r is Err,
        existing is Ok ==> r is Ok && r->Ok_0@ == merged_text(
            match existing->Ok_0 {
                Some(text) => text@,
                None => Seq::empty(),
            },
            config.disable_adboards,
        ),
{
    match existing {
        Err(failed) => Err(failed),
        Ok(Some(text)) => Ok(update_adboards_in_config(text, config)),
        Ok(None) => {
            proof {
                reveal_strlit("");
                assert(""@ == Seq::<char>::empty());
            }
            Ok(update_adboards_in_config("", config))
        },
    }
}

/// One step of a pass, with the line in front set apart.
proof fn lemma_pass_first(s: MergeState, line: Seq<char>, rest: Seq<Seq<char>>, value: bool)
    ensures
        merge_from(s, seq![line] + rest, value) == written_for(s, line, value) + merge_from(
            next_state(s, line),
            rest,
            value,
        ),
{
    let all = seq![line] + rest;
    assert(all[0] == line);
    assert(all.drop_first() == rest);
}

/// The line of explanation that stands over the setting in a section made for it.
pub open spec fn explanation() -> Seq<char> {
    "## If true, hide all adboards in the stadium."@
}

/// A line that a pass writes of its own: the setting, an empty line, the header of
/// the section or the line of explanation.
pub open spec fn is_own_line(line: Seq<char>, value: bool) -> bool {
    ||| line == setting_line(value)
    ||| line == Seq::<char>::empty()
    ||| line == "[Adboards]"@
    ||| line == explanation()
}

/// What is known of the lines that a pass writes of its own.
proof fn lemma_own_lines(value: bool)
    ensures
        assigns_setting(setting_line(value)),
        !is_section_header(trim(setting_line(value))),
        !assigns_setting(Seq::<char>::empty()),
        !is_section_header(trim(Seq::<char>::empty())),
        trim("[Adboards]"@) == "[Adboards]"@,
        is_section_header("[Adboards]"@),
        !assigns_setting(explanation()),
        !is_section_header(trim(explanation())),
        forall|line: Seq<char>| is_own_line(line, value) ==> is_plain_line(line),
{
    reveal_strlit("DisableAdboards");
    reveal_strlit("[Adboards]");
    reveal_strlit("## If true, hide all adboards in the stadium.");
    lemma_bool_text(value);
    assert(is_key("DisableAdboards"@));
    assert(is_plain_value(bool_text(value)));
    lemma_classify_setting("DisableAdboards"@, bool_text(value));
    lemma_setting_plain("DisableAdboards"@, bool_text(value));
    let e = Seq::<char>::empty();
    lemma_trim_is(e, 0, 0);
    assert(e.subrange(0, 0) == e);
    lemma_classify_blank();
    let h = "[Adboards]"@;
    lemma_trim_is(h, 0, h.len() as int);
    assert(h.subrange(0, h.len() as int) == h);
    let c = explanation();
    lemma_trim_is(c, 0, c.len() as int);
    assert(c.subrange(0, c.len() as int) == c);
    lemma_classify_comment(c);
    assert(is_plain_line(h));
    assert(is_plain_line(c));
    assert(is_plain_line(e));
}

/// A pass over what a step wrote writes the same again, and ends in the state in which
/// the step ended.
proof fn lemma_step_again(s: MergeState, line: Seq<char>, rest: Seq<Seq<char>>, value: bool)
    ensures
        merge_from(s, written_for(s, line, value) + rest, value) == written_for(s, line, value)
            + merge_from(next_state(s, line), rest, value),
{
    lemma_own_lines(value);
    let k = setting_line(value);
    let e = Seq::<char>::empty();
    if is_section_header(trim(line)) && s is Pending {
        let tail2 = seq![line] + rest;
        let tail1 = seq![e] + tail2;
        assert(written_for(s, line, value) + rest == seq![k] + tail1);
        lemma_pass_first(s, k, tail1, value);
        lemma_pass_first(MergeState::Written, e, tail2, value);
        lemma_pass_first(MergeState::Written, line, rest, value);
        assert(seq![k] + (seq![e] + (seq![line] + merge_from(next_state(s, line), rest, value)))
            == seq![k, e, line] + merge_from(next_state(s, line), rest, value));
    } else if replaces(s, line) {
        lemma_pass_first(s, k, rest, value);
    } else {
        lemma_pass_first(s, line, rest, value);
    }
}

/// A pass over what a pass wrote at the end of a file writes the same again.
proof fn lemma_end_again(s: MergeState, value: bool)
    ensures
        merge_from(s, written_at_end(s, value), value) == written_at_end(s, value),
{
    lemma_own_lines(value);
    let k = setting_line(value);
    let e = Seq::<char>::empty();
    let h = "[Adboards]"@;
    let c = explanation();
    let none = Seq::<Seq<char>>::empty();
    match s {
        MergeState::Pending => {
            assert(written_at_end(s, value) == seq![k] + none);
            lemma_pass_first(s, k, none, value);
            assert(seq![k] + none == seq![k]);
        },
        MergeState::Before => {
            let t4 = seq![k] + none;
            let t3 = seq![c] + t4;
            let t2 = seq![e] + t3;
            let t1 = seq![h] + t2;
            assert(written_at_end(s, value) == seq![e] + t1);
            lemma_pass_first(MergeState::Before, e, t1, value);
            lemma_pass_first(MergeState::Before, h, t2, value);
            lemma_pass_first(MergeState::Pending, e, t3, value);
            lemma_pass_first(MergeState::Pending, c, t4, value);
            lemma_pass_first(MergeState::Pending, k, none, value);
            assert(merge_from(MergeState::Written, none, value) == none);
        },
        _ => {},
    }
}

/// A pass over what a pass wrote writes the same again.
pub proof fn lemma_pass_again(s: MergeState, lines: Seq<Seq<char>>, value: bool)
    ensures
        merge_from(s, merge_from(s, lines, value), value) == merge_from(s, lines, value),
    decreases lines.len(),
{
    if lines.len() == 0 {
        lemma_end_again(s, value);
    } else {
        let rest = merge_from(next_state(s, lines[0]), lines.drop_first(), value);
        lemma_step_again(s, lines[0], rest, value);
        lemma_pass_again(next_state(s, lines[0]), lines.drop_first(), value);
    }
}

/// Merging is idempotent: merging a value into a text into which that value has been
/// merged gives the same text again. This is stated of the texts whose merged lines
/// come back when the merged text is split into lines: a line that ends in a carriage
/// return before the last one, or an empty last line, does not survive being written
/// and read.
pub proof fn lemma_merge_idempotent(text: Seq<char>, value: bool)
    requires
        lines_of(merged_text(text, value)) == merged_lines(lines_of(text), value),
    ensures
        merged_text(merged_text(text, value), value) == merged_text(text, value),
{
    lemma_pass_again(MergeState::Before, lines_of(text), value);
}

/// Where every line that a pass is given is one of the lines of a text or a line that
/// a pass writes of its own, so is every line that it writes: merging makes up no
/// other lines.
pub proof fn lemma_merge_writes_known_lines(
    s: MergeState,
    lines: Seq<Seq<char>>,
    value: bool,
    k: int,
)
    requires
        0 <= k < merge_from(s, lines, value).len(),
    ensures
        lines.contains(merge_from(s, lines, value)[k]) || is_own_line(
            merge_from(s, lines, value)[k],
            value,
        ),
    decreases lines.len(),
{
    if lines.len() > 0 {
        let w = written_for(s, lines[0], value);
        let rest = merge_from(next_state(s, lines[0]), lines.drop_first(), value);
        assert(merge_from(s, lines, value) == w + rest);
        if k < w.len() {
            assert(w[k] == lines[0] || is_own_line(w[k], value));
        } else {
            lemma_merge_writes_known_lines(
                next_state(s, lines[0]),
                lines.drop_first(),
                value,
                k - w.len(),
            );
            let line = rest[k - w.len()];
            if lines.drop_first().contains(line) {
                let j = choose|j: int|
                    0 <= j < lines.drop_first().len() && lines.drop_first()[j] == line;
                assert(lines[j + 1] == line);
            }
        }
    }
}

/// The merged lines of a text hold no line feed.
proof fn lemma_merged_lines_hold_no_feed(text: Seq<char>, value: bool)
    ensures
        forall|i: int, j: int|
            0 <= i < merged_lines(lines_of(text), value).len() && 0 <= j < merged_lines(
                lines_of(text),
                value,
            )[i].len() ==> #[trigger] merged_lines(lines_of(text), value)[i][j] != '\n',
{
    let lines = lines_of(text);
    let merged = merged_lines(lines, value);
    lemma_own_lines(value);
    lemma_lines_hold_no_feed(text);
    assert forall|i: int, j: int| 0 <= i < merged.len() && 0 <= j < merged[i].len() implies
        #[trigger] merged[i][j] != '\n' by {
        lemma_merge_writes_known_lines(MergeState::Before, lines, value, i);
        if lines.contains(merged[i]) {
            let k = choose|k: int| 0 <= k < lines.len() && lines[k] == merged[i];
            assert(lines[k][j] != '\n');
        } else {
            assert(is_plain_line(merged[i]));
        }
    }
}

/// Merging is idempotent where the merged lines keep their ends when they are written
/// and read: none but the last ends in a carriage return, and the last is not empty.
pub proof fn lemma_merge_idempotent_on_lasting_lines(text: Seq<char>, value: bool)
    requires
        keep_their_ends(merged_lines(lines_of(text), value)),
    ensures
        merged_text(merged_text(text, value), value) == merged_text(text, value),
{
    lemma_merged_lines_hold_no_feed(text, value);
    assert(splits_back(merged_lines(lines_of(text), value)));
    lemma_split_joined(merged_lines(lines_of(text), value));
    lemma_merge_idempotent(text, value);
}

/// The header of the section that line `i` stands in: the last header before it,
/// trimmed. Lines before the first header stand in no section.
pub open spec fn section_of(lines: Seq<Seq<char>>, i: int) -> Option<Seq<char>>
    decreases i,
{
    if i <= 0 {
        None
    } else if is_section_header(trim(lines[i - 1])) {
        Some(trim(lines[i - 1]))
    } else {
        section_of(lines, i - 1)
    }
}

/// The lines that merging aims at: the assignments of the setting in its section.
/// Every other line is left as it is.
pub open spec fn is_target_line(lines: Seq<Seq<char>>, i: int) -> bool {
    section_of(lines, i) == Some("[Adboards]"@) && assigns_setting(lines[i])
}

/// How many lines a pass writes for a line.
pub open spec fn count_for(s: MergeState, line: Seq<char>) -> int {
    if is_section_header(trim(line)) && s is Pending {
        3
    } else {
        1
    }
}

/// Where, among the lines that a pass from state `s` writes, the line stands that it
/// writes in place of line `i`.
pub open spec fn place_from(s: MergeState, lines: Seq<Seq<char>>, i: int) -> int
    decreases i,
{
    if i <= 0 {
        count_for(s, lines[0]) - 1
    } else {
        count_for(s, lines[0]) + place_from(next_state(s, lines[0]), lines.drop_first(), i - 1)
    }
}

/// Where line `i` of a file stands after merging.
pub open spec fn place_of(lines: Seq<Seq<char>>, i: int) -> int {
    place_from(MergeState::Before, lines, i)
}

/// Whether a pass from state `s` replaces line `i`.
spec fn replaced_from(s: MergeState, lines: Seq<Seq<char>>, i: int) -> bool
    decreases i,
{
    if i <= 0 {
        replaces(s, lines[0])
    } else {
        replaced_from(next_state(s, lines[0]), lines.drop_first(), i - 1)
    }
}

proof fn lemma_place_from(s: MergeState, lines: Seq<Seq<char>>, value: bool, i: int)
    requires
        0 <= i < lines.len(),
    ensures
        0 <= place_from(s, lines, i) < merge_from(s, lines, value).len(),
        merge_from(s, lines, value)[place_from(s, lines, i)] == (if replaced_from(s, lines, i) {
            setting_line(value)
        } else {
            lines[i]
        }),
    decreases i,
{
    let w = written_for(s, lines[0], value);
    let rest = merge_from(next_state(s, lines[0]), lines.drop_first(), value);
    assert(merge_from(s, lines, value) == w + rest);
    assert(w.len() == count_for(s, lines[0]));
    if i > 0 {
        lemma_place_from(next_state(s, lines[0]), lines.drop_first(), value, i - 1);
        assert(lines.drop_first()[i - 1] == lines[i]);
    }
}

proof fn lemma_place_order(s: MergeState, lines: Seq<Seq<char>>, i: int, j: int)
    requires
        0 <= i < j < lines.len(),
    ensures
        place_from(s, lines, i) < place_from(s, lines, j),
    decreases i,
{
    if i > 0 {
        lemma_place_order(next_state(s, lines[0]), lines.drop_first(), i - 1, j - 1);
    } else {
        lemma_place_from(next_state(s, lines[0]), lines.drop_first(), true, j - 1);
    }
}

proof fn lemma_section_shift(lines: Seq<Seq<char>>, i: int)
    requires
        1 <= i <= lines.len(),
    ensures
        section_of(lines, i) == match section_of(lines.drop_first(), i - 1) {
            Some(h) => Some(h),
            None => if is_section_header(trim(lines[0])) {
                Some(trim(lines[0]))
            } else {
                None
            },
        },
    decreases i,
{
    let rest = lines.drop_first();
    if i > 1 {
        assert(rest[i - 2] == lines[i - 1]);
        if !is_section_header(trim(lines[i - 1])) {
            lemma_section_shift(lines, i - 1);
            assert(section_of(lines, i) == section_of(lines, i - 1));
            assert(section_of(rest, i - 1) == section_of(rest, i - 2));
        }
    } else {
        assert(section_of(lines, 0) == None::<Seq<char>>);
        assert(section_of(rest, 0) == None::<Seq<char>>);
    }
}

proof fn lemma_replaced_from(s: MergeState, lines: Seq<Seq<char>>, i: int)
    requires
        0 <= i < lines.len(),
    ensures
        replaced_from(s, lines, i) <==> assigns_setting(lines[i]) && match section_of(lines, i) {
            Some(h) => is_target_header(h),
            None => in_section(s),
        },
    decreases i,
{
    if i > 0 {
        lemma_replaced_from(next_state(s, lines[0]), lines.drop_first(), i - 1);
        lemma_section_shift(lines, i);
        assert(lines.drop_first()[i - 1] == lines[i]);
    }
}

proof fn lemma_written_elsewhere(s: MergeState, lines: Seq<Seq<char>>, value: bool, k: int)
    requires
        0 <= k < merge_from(s, lines, value).len(),
    ensures
        is_own_line(merge_from(s, lines, value)[k], value) || exists|i: int|
            0 <= i < lines.len() && #[trigger] place_from(s, lines, i) == k,
    decreases lines.len(),
{
    if lines.len() > 0 {
        let w = written_for(s, lines[0], value);
        let next = next_state(s, lines[0]);
        let rest = merge_from(next, lines.drop_first(), value);
        assert(merge_from(s, lines, value) == w + rest);
        assert(w.len() == count_for(s, lines[0]));
        if k == w.len() - 1 {
            assert(place_from(s, lines, 0) == k);
        } else if k < w.len() {
            assert(is_own_line(w[k], value));
        } else {
            lemma_written_elsewhere(next, lines.drop_first(), value, k - w.len());
            if !is_own_line(rest[k - w.len()], value) {
                let i = choose|i: int|
                    0 <= i < lines.drop_first().len() && #[trigger] place_from(
                        next,
                        lines.drop_first(),
                        i,
                    ) == k - w.len();
                assert(place_from(s, lines, i + 1) == k);
            }
        }
    }
}

/// Merging writes nothing but what it is given and what is its own: a line of the
/// merged file that does not stand at the place of a line of the file is the setting,
/// an empty line, the header of the section or the line of explanation.
pub proof fn lemma_merge_writes_own_lines(lines: Seq<Seq<char>>, value: bool, k: int)
    requires
        0 <= k < merged_lines(lines, value).len(),
        forall|i: int| 0 <= i < lines.len() ==> #[trigger] place_of(lines, i) != k,
    ensures
        is_own_line(merged_lines(lines, value)[k], value),
{
    lemma_written_elsewhere(MergeState::Before, lines, value, k);
    if !is_own_line(merged_lines(lines, value)[k], value) {
        let i = choose|i: int|
            0 <= i < lines.len() && #[trigger] place_from(MergeState::Before, lines, i) == k;
        assert(place_of(lines, i) == k);
    }
}

/// Merging keeps every line that it does not aim at: such a line stands in the merged
/// file, unchanged, at its place.
pub proof fn lemma_merge_keeps_line(lines: Seq<Seq<char>>, value: bool, i: int)
    requires
        0 <= i < lines.len(),
        !is_target_line(lines, i),
    ensures
        0 <= place_of(lines, i) < merged_lines(lines, value).len(),
        merged_lines(lines, value)[place_of(lines, i)] == lines[i],
{
    lemma_place_from(MergeState::Before, lines, value, i);
    lemma_replaced_from(MergeState::Before, lines, i);
}

/// Merging keeps the order of the lines: a line that came before another comes before
/// it in the merged file too.
pub proof fn lemma_merge_keeps_order(lines: Seq<Seq<char>>, i: int, j: int)
    requires
        0 <= i < j < lines.len(),
    ensures
        place_of(lines, i) < place_of(lines, j),
{
    lemma_place_order(MergeState::Before, lines, i, j);
}

} // verus!
