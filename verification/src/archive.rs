//! Unpacking an archive under a destination directory: which entries may be written,
//! where each one goes, and how the single backup of an earlier installation is rotated.
//!
//! The library decides; reading the archive and writing files is left to the caller, who
//! hands over entry names and carries out the actions that come back.

use vstd::prelude::*;
use crate::models::{listing_view, DirectoryEntry, EntryKind, EntryView};
use crate::text::{chars_of, starts_with, starts_with_str, string_of, texts};

verus! {

/// The folder that a runtime pack holds its files under. It is not part of where they go.
pub const RUNTIME_PACK_PREFIX: &'static str = "RuntimePack/";

/// The folder that a content pack holds its files under.
pub const CONTENT_PACK_PREFIX: &'static str = "CustomStadium/";

/// Why an installation failed.
#[derive(Debug, Clone, Copy, PartialEq, Eq, Structural)]
pub enum InstallError {
    /// A file or directory that has to be there is not.
    NotFound,
    /// The file does not open as an archive, or holds no entry.
    InvalidArchive,
    /// An entry's name points outside the destination.
    UnsafePath,
    /// The earlier installation could not be moved out of the way.
    BackupFailed,
    /// Reading, creating or writing failed.
    Io,
}

/// A step of an installation that the caller carries out on the file system.
#[derive(Debug, Clone, Copy, PartialEq, Eq, Structural)]
pub enum InstallStep {
    /// Giving the runtime that is there the name of the new backup.
    Backup,
    /// Creating a directory, or creating a file and writing an entry's bytes to it.
    Write,
}

/// Says what a step that has been carried out comes to. A step that failed ends the
/// installation: nothing is unpacked without the backup, and no entry is written
/// after one that could not be.
pub fn after_step(step: InstallStep, succeeded: bool) -> (r: Result<(), InstallError>)
    ensures
        succeeded ==> r is Ok,
        !succeeded ==> r == Err::<(), InstallError>(
            match step {
                InstallStep::Backup => InstallError::BackupFailed,
                InstallStep::Write => InstallError::Io,
            },
        ),
{
    if succeeded {
        Ok(())
    } else {
        match step {
            InstallStep::Backup => Err(InstallError::BackupFailed),
            InstallStep::Write => Err(InstallError::Io),
        }
    }
}

/// What to do with one entry of an archive. Paths are relative to the destination and
/// use `/` between their segments.
#[derive(Debug, Clone, PartialEq, Eq)]
pub enum EntryAction {
    /// Nothing: the entry is the pack's own folder.
    Skip,
    /// Create this directory, with the directories above it.
    CreateDir { path: String },
    /// Create the directories above this file and write the entry's bytes to it.
    WriteFile { path: String },
}

/// `EntryAction` with its path as a sequence of characters.
pub enum ActionView {
    Skip,
    CreateDir { path: Seq<char> },
    WriteFile { path: Seq<char> },
}

impl View for EntryAction {
    type V = ActionView;

    open spec fn view(&self) -> ActionView {
        match self {
            EntryAction::Skip => ActionView::Skip,
            EntryAction::CreateDir { path } => ActionView::CreateDir { path: path@ },
            EntryAction::WriteFile { path } => ActionView::WriteFile { path: path@ },
        }
    }
}

/// Either of the characters that part the segments of a path.
pub open spec fn is_separator(c: char) -> bool {
    c == '/' || c == '\\'
}

/// The length of the first segment of `s`: the position of its first separator, or
/// `s.len()` where it has none.
pub open spec fn segment_end(s: Seq<char>) -> int
    decreases s.len(),
{
    if s.len() == 0 || is_separator(s[0]) {
        0
    } else {
        1 + segment_end(s.drop_first())
    }
}

/// Where a first segment ends: at the first separator, or at the end of the text.
pub proof fn lemma_segment_end(s: Seq<char>)
    ensures
        0 <= segment_end(s) <= s.len(),
        segment_end(s) < s.len() ==> is_separator(s[segment_end(s)]),
        forall|j: int| 0 <= j < segment_end(s) ==> !is_separator(s[j]),
    decreases s.len(),
{
    if s.len() > 0 && !is_separator(s[0]) {
        lemma_segment_end(s.drop_first());
        assert forall|j: int| 0 <= j < segment_end(s) implies !is_separator(s[j]) by {
            if j > 0 {
                assert(s[j] == s.drop_first()[j - 1]);
            }
        }
    }
}

proof fn lemma_segment_end_is(s: Seq<char>, i: int)
    requires
        0 <= i <= s.len(),
        forall|j: int| 0 <= j < i ==> !is_separator(s[j]),
        i < s.len() ==> is_separator(s[i]),
    ensures
        segment_end(s) == i,
{
    lemma_segment_end(s);
    let e = segment_end(s);
    if e < i {
        assert(!is_separator(s[e]));
    }
}

/// The first segment of `s`.
pub open spec fn first_segment(s: Seq<char>) -> Seq<char> {
    s.take(segment_end(s))
}

/// Whether `s` has a segment after its first: whether it holds a separator.
pub open spec fn has_more(s: Seq<char>) -> bool {
    segment_end(s) < s.len()
}

/// What follows the first segment of `s` and its separator.
pub open spec fn after_first(s: Seq<char>) -> Seq<char> {
    s.skip(segment_end(s) + 1)
}

/// Whether a segment of `s` is `..`, the name of the directory above.
pub open spec fn has_parent_segment(s: Seq<char>) -> bool
    decreases s.len(),
{
    first_segment(s) == ".."@ || (has_more(s) && {
        proof {
            lemma_segment_end(s);
        }
        has_parent_segment(after_first(s))
    })
}

/// A segment that names something: not empty, and not `.`, the directory itself.
pub open spec fn names_something(segment: Seq<char>) -> bool {
    segment.len() > 0 && segment != "."@
}

/// The segments of `s` that name something, in their order.
pub open spec fn named_segments(s: Seq<char>) -> Seq<Seq<char>>
    decreases s.len(),
{
    let rest = if has_more(s) {
        proof {
            lemma_segment_end(s);
        }
        named_segments(after_first(s))
    } else {
        Seq::empty()
    };
    if names_something(first_segment(s)) {
        seq![first_segment(s)] + rest
    } else {
        rest
    }
}

/// Segments joined by `/`.
pub open spec fn join_segments(segments: Seq<Seq<char>>) -> Seq<char>
    decreases segments.len(),
{
    if segments.len() == 0 {
        Seq::empty()
    } else if segments.len() == 1 {
        segments[0]
    } else {
        join_segments(segments.drop_last()) + seq!['/'] + segments.last()
    }
}

/// A name that begins at the root of a file system: with a separator, or with a drive
/// letter and a colon.
pub open spec fn is_absolute(name: Seq<char>) -> bool {
    ||| name.len() >= 1 && is_separator(name[0])
    ||| name.len() >= 2 && name[1] == ':' && ('A' <= name[0] <= 'Z' || 'a' <= name[0] <= 'z')
}

/// What is left of a text once a prefix is taken off its front, where it stands there.
pub open spec fn without_prefix(text: Seq<char>, prefix: Seq<char>) -> Seq<char> {
    if starts_with(text, prefix) {
        text.skip(prefix.len() as int)
    } else {
        text
    }
}

/// An entry that stands for a directory: its name ends with a separator.
pub open spec fn is_directory_entry(name: Seq<char>) -> bool {
    name.len() > 0 && is_separator(name.last())
}

/// An entry's name made plain: the segments that name something, with `/` between
/// them, and a `/` at the end where the entry stands for a directory.
pub open spec fn cleaned(name: Seq<char>) -> Seq<char> {
    if is_directory_entry(name) {
        join_segments(named_segments(name)).push('/')
    } else {
        join_segments(named_segments(name))
    }
}

/// What is left of an entry's name once it is made plain and the pack's own folder is
/// taken off its front.
pub open spec fn remainder(name: Seq<char>, prefix: Seq<char>) -> Seq<char> {
    without_prefix(cleaned(name), prefix)
}

/// An entry that must not be written: its name is absolute, holds a NUL, or has a
/// segment `..`, before or after the pack's folder is taken off.
pub open spec fn is_unsafe_entry(name: Seq<char>, prefix: Seq<char>) -> bool {
    ||| name.contains('\0')
    ||| is_absolute(name)
    ||| has_parent_segment(name)
    ||| has_parent_segment(remainder(name, prefix))
}

/// Where an entry goes, relative to the destination.
pub open spec fn relative_path(name: Seq<char>, prefix: Seq<char>) -> Seq<char> {
    join_segments(named_segments(remainder(name, prefix)))
}

/// What to do with a safe entry.
pub open spec fn action_for(name: Seq<char>, prefix: Seq<char>) -> ActionView {
    if named_segments(remainder(name, prefix)).len() == 0 {
        ActionView::Skip
    } else if is_directory_entry(name) {
        ActionView::CreateDir { path: relative_path(name, prefix) }
    } else {
        ActionView::WriteFile { path: relative_path(name, prefix) }
    }
}

fn segment_bound(v: &Vec<char>, from: usize) -> (e: usize)
    requires
        from <= v.len(),
    ensures
        from <= e <= v.len(),
        e - from == segment_end(v@.skip(from as int)),
{
    let mut e: usize = from;
    while e < v.len() && v[e] != '/' && v[e] != '\\'
        invariant
            from <= e <= v.len(),
            forall|j: int| from <= j < e ==> !is_separator(v@[j]),
        decreases v.len() - e,
    {
        e = e + 1;
    }
    proof {
        lemma_segment_end_is(v@.skip(from as int), e - from);
    }
    e
}

fn holds_parent_segment(v: &Vec<char>, from: usize) -> (r: bool)
    requires
        from <= v.len(),
    ensures
        r == has_parent_segment(v@.skip(from as int)),
{
    let mut pos: usize = from;
    loop
        invariant
            from <= pos <= v.len(),
            has_parent_segment(v@.skip(from as int)) == has_parent_segment(v@.skip(pos as int)),
        decreases v.len() - pos,
    {
        let e: usize = segment_bound(v, pos);
        let ghost s = v@.skip(pos as int);
        proof {
            reveal_strlit("..");
            lemma_segment_end(s);
        }
        if e - pos == 2 && v[pos] == '.' && v[pos + 1] == '.' {
            assert(first_segment(s) =~= ".."@);
            return true;
        }
        assert(first_segment(s) != ".."@) by {
            if first_segment(s) == ".."@ {
                assert(first_segment(s).len() == 2);
                assert(first_segment(s)[0] == '.');
                assert(first_segment(s)[1] == '.');
            }
        }
        if e == v.len() {
            return false;
        }
        assert(after_first(s) == v@.skip(e + 1));
        pos = e + 1;
    }
}

proof fn lemma_join_push(segments: Seq<Seq<char>>, next: Seq<char>)
    ensures
        join_segments(segments.push(next)) == if segments.len() == 0 {
            next
        } else {
            join_segments(segments) + seq!['/'] + next
        },
{
    assert(segments.push(next).drop_last() == segments);
}

/// Where the characters `v[from..]` of an entry's name lead: the path made of the
/// segments that name something, and whether there is any such segment.
fn path_from(v: &Vec<char>, from: usize) -> (r: (Vec<char>, bool))
    requires
        from <= v.len(),
    ensures
        r.0@ == join_segments(named_segments(v@.skip(from as int))),
        r.1 == (named_segments(v@.skip(from as int)).len() > 0),
{
    let mut path: Vec<char> = Vec::new();
    let mut any: bool = false;
    let mut pos: usize = from;
    let ghost mut done: Seq<Seq<char>> = Seq::empty();
    assert(done + named_segments(v@.skip(from as int)) == named_segments(v@.skip(from as int)));
    loop
        invariant
            from <= pos <= v.len(),
            path@ == join_segments(done),
            any == (done.len() > 0),
            done + named_segments(v@.skip(pos as int)) == named_segments(v@.skip(from as int)),
        decreases v.len() - pos,
    {
        let e: usize = segment_bound(v, pos);
        let ghost s = v@.skip(pos as int);
        let ghost before = done;
        proof {
            reveal_strlit(".");
            lemma_segment_end(s);
            assert(first_segment(s) == v@.subrange(pos as int, e as int));
        }
        let named: bool = e > pos && !(e - pos == 1 && v[pos] == '.');
        assert(named == names_something(first_segment(s))) by {
            if e - pos == 1 && v[pos as int] == '.' {
                assert(first_segment(s) =~= "."@);
            }
            if first_segment(s) == "."@ {
                assert(first_segment(s).len() == 1);
                assert(first_segment(s)[0] == '.');
            }
        }
        if named {
            if any {
                path.push('/');
            }
            let ghost head = path@;
            let mut j: usize = pos;
            while j < e
                invariant
                    pos <= j <= e <= v.len(),
                    path@ == head + v@.subrange(pos as int, j as int),
                decreases e - j,
            {
                path.push(v[j]);
                assert(v@.subrange(pos as int, j as int).push(v@[j as int]) == v@.subrange(
                    pos as int,
                    j + 1,
                ));
                j = j + 1;
            }
            proof {
                lemma_join_push(done, first_segment(s));
                done = done.push(first_segment(s));
                if !any {
                    assert(head + first_segment(s) == first_segment(s));
                }
            }
            any = true;
        }
        if e == v.len() {
            proof {
                assert(!has_more(s));
                if named {
                    assert(done == before + seq![first_segment(s)]);
                }
                assert(done == before + named_segments(s));
                assert(done == named_segments(v@.skip(from as int)));
            }
            return (path, any);
        }
        proof {
            assert(after_first(s) == v@.skip(e + 1));
            if named {
                assert(before.push(first_segment(s)) + named_segments(after_first(s)) == before
                    + (seq![first_segment(s)] + named_segments(after_first(s))));
            }
        }
        pos = e + 1;
    }
}

/// Decides what to do with an entry of an archive, by its name. An entry whose name is
/// absolute, holds a NUL or has a segment `..` is refused. Else the name is made plain:
/// empty segments and segments `.` are left out. `prefix` is the pack's own folder,
/// taken off the front of the plain name where it stands there.
pub fn resolve_entry(name: &str, prefix: &str) -> (r: Result<EntryAction, InstallError>)
    ensures
        is_unsafe_entry(name@, prefix@) ==> r == Err::<EntryAction, InstallError>(
            InstallError::UnsafePath,
        ),
        !is_unsafe_entry(name@, prefix@) ==> r is Ok && r->Ok_0@ == action_for(name@, prefix@),
{
    let v = chars_of(name);
    let n: usize = v.len();
    let mut i: usize = 0;
    while i < n
        invariant
            i <= n,
            n == v.len(),
            v@ == name@,
            forall|j: int| 0 <= j < i ==> v@[j] != '\0',
        decreases n - i,
    {
        if v[i] == '\0' {
            assert(name@[i as int] == '\0');
            return Err(InstallError::UnsafePath);
        }
        i = i + 1;
    }
    assert(!name@.contains('\0'));
    if n >= 1 && (v[0] == '/' || v[0] == '\\') {
        return Err(InstallError::UnsafePath);
    }
    if n >= 2 && v[1] == ':' {
        let c: char = v[0];
        if ('A' <= c && c <= 'Z') || ('a' <= c && c <= 'z') {
            return Err(InstallError::UnsafePath);
        }
    }
    assert(!is_absolute(name@));
    assert(v@.skip(0) == v@);
    if holds_parent_segment(&v, 0) {
        return Err(InstallError::UnsafePath);
    }
    let is_directory: bool = n > 0 && (v[n - 1] == '/' || v[n - 1] == '\\');
    let (mut plain, _) = path_from(&v, 0);
    if is_directory {
        plain.push('/');
    }
    assert(plain@ == cleaned(name@));
    let from: usize = if starts_with_str(&plain, prefix) {
        prefix.unicode_len()
    } else {
        0
    };
    assert(plain@.skip(from as int) == remainder(name@, prefix@));
    if holds_parent_segment(&plain, from) {
        return Err(InstallError::UnsafePath);
    }
    let (path_chars, any) = path_from(&plain, from);
    let path = string_of(&path_chars, 0, path_chars.len());
    assert(path_chars@.subrange(0, path_chars@.len() as int) == path_chars@);
    if !any {
        Ok(EntryAction::Skip)
    } else if is_directory {
        Ok(EntryAction::CreateDir { path })
    } else {
        Ok(EntryAction::WriteFile { path })
    }
}

/// What the segments of a path are like: each names something, and none holds a
/// separator. Where the text has no segment `..`, none of them is `..`; where it has no
/// NUL, none of them has one.
proof fn lemma_named_segments(s: Seq<char>)
    ensures
        forall|k: int|
            #![trigger named_segments(s)[k]]
            0 <= k < named_segments(s).len() ==> {
                let segment = named_segments(s)[k];
                &&& names_something(segment)
                &&& forall|j: int| 0 <= j < segment.len() ==> !is_separator(segment[j])
                &&& !has_parent_segment(s) ==> segment != ".."@
                &&& !s.contains('\0') ==> !segment.contains('\0')
            },
    decreases s.len(),
{
    lemma_segment_end(s);
    let head = first_segment(s);
    let rest = if has_more(s) {
        named_segments(after_first(s))
    } else {
        Seq::empty()
    };
    if has_more(s) {
        lemma_named_segments(after_first(s));
        if !s.contains('\0') {
            assert forall|j: int| 0 <= j < after_first(s).len() implies after_first(s)[j]
                != '\0' by {
                assert(s[segment_end(s) + 1 + j] != '\0');
            }
        }
    }
    assert forall|k: int|
        #![trigger named_segments(s)[k]]
        0 <= k < named_segments(s).len() implies {
        let segment = named_segments(s)[k];
        &&& names_something(segment)
        &&& forall|j: int| 0 <= j < segment.len() ==> !is_separator(segment[j])
        &&& !has_parent_segment(s) ==> segment != ".."@
        &&& !s.contains('\0') ==> !segment.contains('\0')
    } by {
        let segment = named_segments(s)[k];
        if names_something(head) && k == 0 {
            assert(segment == head);
            if !s.contains('\0') {
                assert forall|j: int| 0 <= j < head.len() implies head[j] != '\0' by {
                    assert(s[j] != '\0');
                }
            }
        } else {
            let k2 = if names_something(head) {
                k - 1
            } else {
                k
            };
            assert(segment == rest[k2]);
            assert(segment == named_segments(after_first(s))[k2]);
        }
    }
}

/// A text made of segments and `/` between them holds no character that is not `/`
/// and that none of the segments holds.
proof fn lemma_join_avoids(segments: Seq<Seq<char>>, c: char)
    requires
        c != '/',
        forall|k: int| 0 <= k < segments.len() ==> !(#[trigger] segments[k]).contains(c),
    ensures
        !join_segments(segments).contains(c),
    decreases segments.len(),
{
    if segments.len() == 1 {
        assert(!segments[0].contains(c));
    } else if segments.len() > 1 {
        let head = join_segments(segments.drop_last());
        assert forall|k: int| 0 <= k < segments.drop_last().len() implies !(
        #[trigger] segments.drop_last()[k]).contains(c) by {
            assert(segments.drop_last()[k] == segments[k]);
        }
        lemma_join_avoids(segments.drop_last(), c);
        let last = segments.last();
        assert(!last.contains(c));
        let all = head + seq!['/'] + last;
        assert forall|j: int| 0 <= j < all.len() implies all[j] != c by {
            if j < head.len() {
                assert(head[j] != c) by {
                    if head[j] == c {
                        assert(head.contains(c));
                    }
                }
            } else if j > head.len() {
                assert(last[j - head.len() - 1] != c) by {
                    if last[j - head.len() - 1] == c {
                        assert(last.contains(c));
                    }
                }
            }
        }
    }
}

/// A safe entry stays inside the destination: every segment of the path it is given
/// names a file or directory, none is `.` or `..`, and none holds a separator or a NUL.
pub proof fn lemma_path_stays_inside(name: Seq<char>, prefix: Seq<char>, k: int)
    requires
        !is_unsafe_entry(name, prefix),
        0 <= k < named_segments(remainder(name, prefix)).len(),
    ensures
        ({
            let segment = named_segments(remainder(name, prefix))[k];
            &&& segment.len() > 0
            &&& segment != "."@
            &&& segment != ".."@
            &&& forall|j: int|
                0 <= j < segment.len() ==> !is_separator(segment[j]) && segment[j] != '\0'
        }),
{
    let plain = cleaned(name);
    let rest = remainder(name, prefix);
    lemma_named_segments(name);
    lemma_join_avoids(named_segments(name), '\0');
    assert forall|j: int| 0 <= j < plain.len() implies plain[j] != '\0' by {
        let joined = join_segments(named_segments(name));
        if j < joined.len() && joined[j] == '\0' {
            assert(joined.contains('\0'));
        }
    }
    assert forall|j: int| 0 <= j < rest.len() implies rest[j] != '\0' by {
        if starts_with(plain, prefix) {
            assert(rest[j] == plain[prefix.len() + j]);
        }
    }
    lemma_named_segments(rest);
    let segment = named_segments(rest)[k];
    assert(!segment.contains('\0'));
}

/// What opening an archive showed: `None` where it did not open as an archive, else
/// the number of its entries. An archive has to open and to hold an entry.
pub fn check_archive(entries: Option<usize>) -> (r: Result<usize, InstallError>)
    ensures
        r == match entries {
            Some(n) if n > 0 => Ok::<usize, InstallError>(n),
            _ => Err::<usize, InstallError>(InstallError::InvalidArchive),
        },
{
    match entries {
        Some(n) => if n > 0 {
            Ok(n)
        } else {
            Err(InstallError::InvalidArchive)
        },
        None => Err(InstallError::InvalidArchive),
    }
}

/// Picks the archive to install from: the one that was given, or the bundled one where
/// none was given. The one picked has to exist.
pub fn choose_archive(
    given: Option<String>,
    given_exists: bool,
    bundled: Option<String>,
    bundled_exists: bool,
) -> (r: Result<String, InstallError>)
    ensures
        r is Ok <==> (given is Some && given_exists) || (given is None && bundled is Some
            && bundled_exists),
        r is Ok ==> r->Ok_0 == (if given is Some {
            given->Some_0
        } else {
            bundled->Some_0
        }),
        r is Err ==> r->Err_0 == InstallError::NotFound,
{
    match given {
        Some(path) => if given_exists {
            Ok(path)
        } else {
            Err(InstallError::NotFound)
        },
        None => match bundled {
            Some(path) => if bundled_exists {
                Ok(path)
            } else {
                Err(InstallError::NotFound)
            },
            None => Err(InstallError::NotFound),
        },
    }
}

/// The views of a vector of actions.
pub open spec fn actions_view(actions: Seq<EntryAction>) -> Seq<ActionView> {
    actions.map_values(|a: EntryAction| a@)
}

/// Whether an archive with these entry names holds an entry that must not be written.
pub open spec fn has_unsafe_entry(names: Seq<Seq<char>>, prefix: Seq<char>) -> bool {
    exists|i: int| 0 <= i < names.len() && is_unsafe_entry(#[trigger] names[i], prefix)
}

/// An entry whose name is absolute or has a segment `..` makes its archive one that is
/// refused, wherever it stands among the entries and whatever the pack's folder is.
pub proof fn lemma_unsafe_entry_refuses(names: Seq<Seq<char>>, prefix: Seq<char>, i: int)
    requires
        0 <= i < names.len(),
        is_absolute(names[i]) || has_parent_segment(names[i]),
    ensures
        has_unsafe_entry(names, prefix),
{
    assert(is_unsafe_entry(names[i], prefix));
}

/// What to do with each entry of an archive whose entries are all safe.
pub open spec fn actions_for(names: Seq<Seq<char>>, prefix: Seq<char>) -> Seq<ActionView> {
    names.map_values(|name: Seq<char>| action_for(name, prefix))
}

/// How many of the actions write a file.
pub open spec fn files_in(actions: Seq<ActionView>) -> nat
    decreases actions.len(),
{
    if actions.len() == 0 {
        0
    } else {
        files_in(actions.drop_last()) + if actions.last() is WriteFile {
            1nat
        } else {
            0nat
        }
    }
}

/// Goes through the entries of an archive, by their names and in their order, before
/// anything is written. One unsafe entry refuses the whole archive, whatever the other
/// entries are; else each entry gets its action.
pub fn plan_extraction(names: &Vec<String>, prefix: &str) -> (r: Result<
    Vec<EntryAction>,
    InstallError,
>)
    ensures
        has_unsafe_entry(texts(names@), prefix@) ==> r == Err::<Vec<EntryAction>, InstallError>(
            InstallError::UnsafePath,
        ),
        !has_unsafe_entry(texts(names@), prefix@) ==> r is Ok && actions_view(r->Ok_0@)
            == actions_for(texts(names@), prefix@),
{
    let mut actions: Vec<EntryAction> = Vec::new();
    let mut i: usize = 0;
    while i < names.len()
        invariant
            i <= names.len(),
            forall|j: int| 0 <= j < i ==> !is_unsafe_entry(#[trigger] texts(names@)[j], prefix@),
            actions_view(actions@) == actions_for(texts(names@), prefix@).take(i as int),
        decreases names.len() - i,
    {
        assert(texts(names@)[i as int] == names@[i as int]@);
        match resolve_entry(names[i].as_str(), prefix) {
            Ok(action) => {
                let ghost before = actions_view(actions@);
                actions.push(action);
                assert(actions_view(actions@) == before.push(action@));
                assert(actions_for(texts(names@), prefix@).take(i + 1) == actions_for(
                    texts(names@),
                    prefix@,
                ).take(i as int).push(action_for(names@[i as int]@, prefix@)));
            },
            Err(e) => {
                return Err(e);
            },
        }
        i = i + 1;
    }
    assert(actions_for(texts(names@), prefix@).take(i as int) == actions_for(
        texts(names@),
        prefix@,
    ));
    Ok(actions)
}

/// Counts the files that a plan writes.
pub fn count_files(actions: &Vec<EntryAction>) -> (n: u32)
    requires
        actions.len() <= u32::MAX,
    ensures
        n == files_in(actions_view(actions@)),
{
    let mut n: u32 = 0;
    let mut i: usize = 0;
    assert(actions_view(actions@).take(0) == Seq::<ActionView>::empty());
    while i < actions.len()
        invariant
            i <= actions.len() <= u32::MAX,
            n <= i,
            n == files_in(actions_view(actions@).take(i as int)),
        decreases actions.len() - i,
    {
        let ghost upto = actions_view(actions@).take(i + 1);
        assert(upto.drop_last() == actions_view(actions@).take(i as int));
        assert(upto.last() == actions@[i as int]@);
        match &actions[i] {
            EntryAction::WriteFile { .. } => {
                n = n + 1;
            },
            _ => {},
        }
        i = i + 1;
    }
    assert(actions_view(actions@).take(i as int) == actions_view(actions@));
    n
}

/// The directory of the runtime, under the root of an installation.
pub const RUNTIME_DIR: &'static str = "BepInEx";

/// What the name of every backup of the runtime begins with.
pub const BACKUP_PREFIX: &'static str = "BepInEx_backup_";

/// How the runtime of an installation is moved out of the way: the directories to
/// delete first, then the name to give the runtime's directory.
#[derive(Debug, Clone, PartialEq, Eq)]
pub struct RotationPlan {
    pub delete: Vec<String>,
    pub backup_name: String,
}

/// The name of the backup made at `stamp`.
pub open spec fn backup_name_for(stamp: Seq<char>) -> Seq<char> {
    BACKUP_PREFIX@ + stamp
}

/// An earlier backup: a directory whose name begins as a backup's does, other than
/// the backup that is about to be made.
pub open spec fn is_stale_backup(entry: EntryView, backup_name: Seq<char>) -> bool {
    starts_with(entry.name, BACKUP_PREFIX@) && entry.name != backup_name
        && entry.kind is Directory
}

/// The names of the earlier backups in a listing, in its order.
pub open spec fn stale_backups(listing: Seq<EntryView>, backup_name: Seq<char>) -> Seq<Seq<char>>
    decreases listing.len(),
{
    if listing.len() == 0 {
        Seq::empty()
    } else if is_stale_backup(listing.last(), backup_name) {
        stale_backups(listing.drop_last(), backup_name).push(listing.last().name)
    } else {
        stale_backups(listing.drop_last(), backup_name)
    }
}

/// Plans the backup of the runtime before a new one is unpacked. Where there is no
/// runtime, nothing is to be done. Else every earlier backup among the entries of the
/// installation's root is deleted, and the runtime takes the name of the new backup:
/// one backup is kept, not a history.
pub fn plan_rotation(runtime_exists: bool, listing: &Vec<DirectoryEntry>, stamp: &str) -> (r:
    Option<RotationPlan>)
    ensures
        r is Some <==> runtime_exists,
        r is Some ==> r->Some_0.backup_name@ == backup_name_for(stamp@) && texts(
            r->Some_0.delete@,
        ) == stale_backups(listing_view(listing@), backup_name_for(stamp@)),
{
    if !runtime_exists {
        return None;
    }
    let mut backup_name = String::from_str(BACKUP_PREFIX);
    backup_name.append(stamp);
    let mut delete: Vec<String> = Vec::new();
    let mut i: usize = 0;
    assert(listing_view(listing@).take(0) == Seq::<EntryView>::empty());
    assert(texts(delete@) == Seq::<Seq<char>>::empty());
    while i < listing.len()
        invariant
            i <= listing.len(),
            backup_name@ == backup_name_for(stamp@),
            texts(delete@) == stale_backups(listing_view(listing@).take(i as int), backup_name@),
        decreases listing.len() - i,
    {
        let entry = &listing[i];
        let ghost upto = listing_view(listing@).take(i + 1);
        assert(upto.drop_last() == listing_view(listing@).take(i as int));
        assert(upto.last() == entry@);
        let name = chars_of(entry.name.as_str());
        if entry.kind == EntryKind::Directory && starts_with_str(&name, BACKUP_PREFIX)
            && entry.name != backup_name {
            let ghost before = texts(delete@);
            delete.push(entry.name.clone());
            assert(texts(delete@) == before.push(entry.name@));
        }
        i = i + 1;
    }
    assert(listing_view(listing@).take(i as int) == listing_view(listing@));
    Some(RotationPlan { delete, backup_name })
}

/// The names of the directories in a listing.
pub open spec fn directories(listing: Seq<EntryView>) -> Set<Seq<char>> {
    Set::new(
        |name: Seq<char>|
            exists|i: int|
                0 <= i < listing.len() && (#[trigger] listing[i]).kind is Directory
                    && listing[i].name == name,
    )
}

/// The directories under the root once a rotation has been carried out: those that
/// were there, less the deleted ones and the runtime, and the new backup.
pub open spec fn directories_after(
    listing: Seq<EntryView>,
    delete: Seq<Seq<char>>,
    backup_name: Seq<char>,
) -> Set<Seq<char>> {
    directories(listing).difference(delete.to_set()).remove(RUNTIME_DIR@).insert(backup_name)
}

proof fn lemma_stale_backups(listing: Seq<EntryView>, backup_name: Seq<char>, i: int)
    requires
        0 <= i < listing.len(),
        is_stale_backup(listing[i], backup_name),
    ensures
        stale_backups(listing, backup_name).contains(listing[i].name),
    decreases listing.len(),
{
    let last = listing.len() - 1;
    let upto = stale_backups(listing.drop_last(), backup_name);
    if i < last {
        lemma_stale_backups(listing.drop_last(), backup_name, i);
        let k = choose|k: int| 0 <= k < upto.len() && upto[k] == listing[i].name;
        if is_stale_backup(listing.last(), backup_name) {
            assert(upto.push(listing.last().name)[k] == listing[i].name);
        }
    } else {
        assert(upto.push(listing.last().name)[upto.len() as int] == listing[i].name);
    }
}

/// After a rotation one backup is left: of the directories under the root, the new
/// backup is the only one whose name begins as a backup's does.
pub proof fn lemma_rotation_keeps_one_backup(listing: Seq<EntryView>, stamp: Seq<char>)
    ensures
        ({
            let name = backup_name_for(stamp);
            let after = directories_after(listing, stale_backups(listing, name), name);
            forall|d: Seq<char>|
                (after.contains(d) && starts_with(d, BACKUP_PREFIX@)) <==> d == name
        }),
{
    let name = backup_name_for(stamp);
    let delete = stale_backups(listing, name);
    let after = directories_after(listing, delete, name);
    assert(starts_with(name, BACKUP_PREFIX@)) by {
        assert(name.take(BACKUP_PREFIX@.len() as int) == BACKUP_PREFIX@);
    }
    assert forall|d: Seq<char>| (after.contains(d) && starts_with(d, BACKUP_PREFIX@)) implies d
        == name by {
        if d != name {
            assert(directories(listing).contains(d));
            let i = choose|i: int|
                0 <= i < listing.len() && (#[trigger] listing[i]).kind is Directory
                    && listing[i].name == d;
            lemma_stale_backups(listing, name, i);
            assert(delete.to_set().contains(d));
        }
    }
}

} // verus!
