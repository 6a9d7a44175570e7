//! Per-role state of the command-line agent, kept in one small file each under
//! the broker's state directory: the inbox cursor and the adopted task.
use vstd::prelude::*;

use crate::id;
use crate::id::{RoleId, TaskId};
use crate::json;
use crate::json::{Json, JsonView};
use crate::number;
use crate::path;
use crate::text;

verus! {

/// The subdirectory of the state directory that holds the files.
pub const CURSOR_DIR: &'static str = "shim-cursors";

/// Whether a character may stand in a file name as it is.
pub open spec fn safe_char(c: char) -> bool {
    ('0' <= c <= '9') || ('a' <= c <= 'z') || ('A' <= c <= 'Z') || c == '.' || c == '-' || c == '_'
}

/// A character, or `_` where it may not stand in a file name.
pub open spec fn made_safe(c: char) -> char {
    if safe_char(c) {
        c
    } else {
        '_'
    }
}

/// A role's name as a single path component.
pub open spec fn safe_name(role: Seq<char>) -> Seq<char> {
    role.map_values(|c: char| made_safe(c))
}

/// The file of a role under a state directory.
pub open spec fn role_file(state_dir: Seq<char>, role: Seq<char>, suffix: Seq<char>) -> Seq<char> {
    path::under_dir(path::under_dir(state_dir, CURSOR_DIR@), safe_name(role) + suffix)
}

/// Makes `role` safe as a single path component: keeps `[A-Za-z0-9._-]` and
/// maps every other character to `_`, so a role name can never escape the
/// cursor directory or nest into a subpath.
pub fn sanitize(role: &str) -> (r: String)
    ensures
        r@ == safe_name(role@),
{
    let cs = text::chars_of(role);
    let mut out = String::new();
    let mut i: usize = 0;
    assert(out@ =~= safe_name(role@).take(0));
    while i < cs.len()
        invariant
            i <= cs.len(),
            cs@ == role@,
            out@ == safe_name(role@).take(i as int),
        decreases cs.len() - i,
    {
        let c = cs[i];
        let keep = (c >= '0' && c <= '9') || (c >= 'a' && c <= 'z') || (c >= 'A' && c <= 'Z') || c
            == '.' || c == '-' || c == '_';
        let ghost before = out@;
        out.push(
            if keep {
                c
            } else {
                '_'
            },
        );
        i = i + 1;
        assert(safe_name(role@).take(i as int) =~= before.push(made_safe(c)));
    }
    assert(safe_name(role@).take(role@.len() as int) =~= safe_name(role@));
    out
}

/// The file of a role under a state directory.
fn file_of(state_dir: &str, role: &RoleId, suffix: &str) -> (r: String)
    ensures
        r@ == role_file(state_dir@, role@, suffix@),
{
    path::join(
        path::join(state_dir, CURSOR_DIR).as_str(),
        sanitize(role.as_str()).concat(suffix).as_str(),
    )
}

/// The cursor that a file's text holds: zero where there is no file or it is
/// malformed.
pub open spec fn cursor_in(saved: Option<Seq<char>>) -> nat {
    match saved {
        Some(s) => match number::unsigned(text::trimmed(s), usize::MAX as nat) {
            Some(n) => n,
            None => 0,
        },
        None => 0,
    }
}

/// A per-role inbox cursor file: the count of inbox messages the role has read.
#[derive(Debug)]
pub struct InboxCursor {
    path: String,
}

impl View for InboxCursor {
    type V = Seq<char>;

    closed spec fn view(&self) -> Seq<char> {
        self.path@
    }
}

impl InboxCursor {
    /// The cursor file for `role` under the broker's `state_dir`.
    pub fn new(state_dir: &str, role: &RoleId) -> (r: Self)
        ensures
            r@ == role_file(state_dir@, role@, ".cursor"@),
    {
        InboxCursor { path: file_of(state_dir, role, ".cursor") }
    }

    /// The file's path.
    pub fn path(&self) -> (r: &str)
        ensures
            r@ == self@,
    {
        self.path.as_str()
    }

    /// The saved cursor, given the file's text where it could be read: `0` for
    /// a missing, unreadable, or malformed file, so a first call, or a corrupt
    /// cursor, safely shows the whole inbox.
    pub fn load(&self, saved: Option<&str>) -> (r: usize)
        ensures
            r == cursor_in(text::opt_text(saved)),
    {
        let read = match saved {
            Some(s) => number::parse_unsigned(text::trim(s), usize::MAX as u64),
            None => None,
        };
        match read {
            Some(n) => n as usize,
            None => 0,
        }
    }

    /// The text to save for a new cursor.
    pub fn save(&self, read_through: usize) -> (r: String)
        ensures
            r@ == number::decimal(read_through as nat),
    {
        number::decimal_usize(read_through)
    }
}

/// The task that a file's text holds: none where there is no file or it is
/// malformed.
pub open spec fn task_in(saved: Option<Seq<char>>) -> Option<TaskId> {
    match saved {
        Some(s) => match json::json_parse(text::trimmed(s)) {
            Some(JsonView::Text(written)) => match id::uuid_parse(written) {
                Some(u) => Some(TaskId(u)),
                None => None,
            },
            _ => None,
        },
        None => None,
    }
}

/// A per-role task-context file: the task the role adopted from an order, so a
/// later invocation stamps it on the messages it sends.
#[derive(Debug)]
pub struct TaskContext {
    path: String,
}

impl View for TaskContext {
    type V = Seq<char>;

    closed spec fn view(&self) -> Seq<char> {
        self.path@
    }
}

impl TaskContext {
    /// The task-context file for `role` under the broker's `state_dir`.
    pub fn new(state_dir: &str, role: &RoleId) -> (r: Self)
        ensures
            r@ == role_file(state_dir@, role@, ".task"@),
    {
        TaskContext { path: file_of(state_dir, role, ".task") }
    }

    /// The file's path.
    pub fn path(&self) -> (r: &str)
        ensures
            r@ == self@,
    {
        self.path.as_str()
    }

    /// The saved task, given the file's text where it could be read: none for a
    /// missing, unreadable, or malformed file, so a role that has not been
    /// ordered yet simply sends without a task.
    pub fn load(&self, saved: Option<&str>) -> (r: Option<TaskId>)
        ensures
            r == task_in(text::opt_text(saved)),
    {
        match saved {
            Some(s) => match json::parse(text::trim(s)) {
                Some(value) => task_of(&value),
                None => None,
            },
            None => None,
        }
    }

    /// The text to save for a task, which [`TaskContext::load`] reads back.
    pub fn save(&self, task: TaskId) -> (r: String)
        ensures
            r@ == json::json_text(JsonView::Text(id::uuid_text(task.0))),
            task_in(Some(r@)) == Some(task),
    {
        let written = task.to_string();
        let value = Json::Text(written);
        assert(json::tidy(value@));
        let saved = json::print(&value);
        proof {
            text::lemma_trimmed_is(saved@);
        }
        saved
    }
}

/// The task that a JSON value writes.
pub fn task_of(value: &Json) -> (r: Option<TaskId>)
    ensures
        match value@ {
            JsonView::Text(written) => match id::uuid_parse(written) {
                Some(u) => r == Some(TaskId(u)),
                None => r is None,
            },
            _ => r is None,
        },
{
    match value.as_str() {
        Some(written) => match TaskId::parse(written) {
            Ok(task) => Some(task),
            Err(_) => None,
        },
        None => None,
    }
}

/// A saved cursor reads back as the count that was saved.
pub proof fn a_saved_cursor_reads_back(read_through: nat)
    requires
        read_through <= usize::MAX,
    ensures
        cursor_in(Some(number::decimal(read_through))) == read_through,
{
    let s = number::decimal(read_through);
    number::lemma_decimal(read_through);
    assert(number::is_digit(s[0]));
    assert(number::is_digit(s[s.len() - 1]));
    text::lemma_trimmed_is(s);
    number::decimal_reads_back(read_through, usize::MAX as nat);
}

/// A made-safe name holds safe characters only, so no path separator, and
/// making it safe again changes nothing; a name of safe characters is kept.
pub proof fn safe_names_are_safe(role: Seq<char>)
    ensures
        safe_name(role).len() == role.len(),
        forall|i: int| 0 <= i < role.len() ==> safe_char(#[trigger] safe_name(role)[i]),
        !safe_name(role).contains('/'),
        safe_name(safe_name(role)) == safe_name(role),
        (forall|i: int| 0 <= i < role.len() ==> safe_char(#[trigger] role[i])) ==> safe_name(role)
            == role,
{
    assert(safe_name(safe_name(role)) =~= safe_name(role));
    if forall|i: int| 0 <= i < role.len() ==> safe_char(#[trigger] role[i]) {
        assert(safe_name(role) =~= role);
    }
}

/// A role's files lie directly in the cursor directory, whatever its name.
pub proof fn a_role_never_escapes_the_directory(
    state_dir: Seq<char>,
    role: Seq<char>,
    suffix: Seq<char>,
)
    requires
        suffix == ".cursor"@ || suffix == ".task"@,
    ensures
        ({
            let dir = path::under_dir(state_dir, CURSOR_DIR@);
            role_file(state_dir, role, suffix) == dir + seq!['/'] + (safe_name(role) + suffix)
        }),
        !(safe_name(role) + suffix).contains('/'),
{
    reveal_strlit("shim-cursors");
    reveal_strlit(".cursor");
    reveal_strlit(".task");
    safe_names_are_safe(role);
    let dir = path::under_dir(state_dir, CURSOR_DIR@);
    let name = safe_name(role) + suffix;
    assert(".cursor"@.len() == 7 && ".task"@.len() == 5);
    assert("shim-cursors"@[0] == 's' && "shim-cursors"@.len() == 12 && "shim-cursors"@[11] == 's');
    assert(dir.last() == 's');
    assert forall|i: int| 0 <= i < name.len() implies name[i] != '/' by {
        if i < role.len() {
            assert(safe_char(safe_name(role)[i]));
        } else {
            assert(name[i] == suffix[i - role.len()]);
        }
    }
}

/// Each role keeps its own files: two roles whose made-safe names differ have
/// different files.
pub proof fn each_role_keeps_its_own_file(
    state_dir: Seq<char>,
    first: Seq<char>,
    second: Seq<char>,
    suffix: Seq<char>,
)
    requires
        suffix == ".cursor"@ || suffix == ".task"@,
        safe_name(first) != safe_name(second),
    ensures
        role_file(state_dir, first, suffix) != role_file(state_dir, second, suffix),
{
    a_role_never_escapes_the_directory(state_dir, first, suffix);
    a_role_never_escapes_the_directory(state_dir, second, suffix);
    let dir = path::under_dir(state_dir, CURSOR_DIR@);
    let a = role_file(state_dir, first, suffix);
    let b = role_file(state_dir, second, suffix);
    if a == b {
        let n = dir.len() + 1;
        assert(a.skip(n as int) =~= safe_name(first) + suffix);
        assert(b.skip(n as int) =~= safe_name(second) + suffix);
        let k = safe_name(first).len();
        assert((safe_name(first) + suffix).len() == (safe_name(second) + suffix).len());
        assert(safe_name(first) =~= (safe_name(first) + suffix).take(k as int));
        assert(safe_name(second) =~= (safe_name(second) + suffix).take(k as int));
    }
}

/// A saved cursor and a saved task are what the next load gives back; without a file,
/// the inbox is read from the start and there is no task.
pub proof fn what_is_saved_is_loaded(
    cursor: InboxCursor,
    context: TaskContext,
    read_through: usize,
    task: TaskId,
    cursor_text: String,
    task_text: String,
    a: &str,
    b: &str,
    loaded: usize,
    unread: usize,
    kept: Option<TaskId>,
    none: Option<TaskId>,
)
    requires
        call_ensures(InboxCursor::save, (&cursor, read_through), cursor_text),
        call_ensures(TaskContext::save, (&context, task), task_text),
        a@ == cursor_text@,
        b@ == task_text@,
        call_ensures(InboxCursor::load, (&cursor, Some(a)), loaded),
        call_ensures(InboxCursor::load, (&cursor, None), unread),
        call_ensures(TaskContext::load, (&context, Some(b)), kept),
        call_ensures(TaskContext::load, (&context, None), none),
    ensures
        loaded == read_through,
        unread == 0,
        kept == Some(task),
        none is None,
{
    a_saved_cursor_reads_back(read_through as nat);
}

/// A cursor file that holds no number is read as the start of the inbox, so nothing
/// is skipped.
pub proof fn a_corrupt_cursor_skips_nothing(cursor: InboxCursor, saved: &str, at: int, r: usize)
    requires
        call_ensures(InboxCursor::load, (&cursor, Some(saved)), r),
        0 <= at < text::trimmed(saved@).len(),
        !('0' <= text::trimmed(saved@)[at] <= '9') && text::trimmed(saved@)[at] != '+',
    ensures
        r == 0,
{
    number::a_number_is_read_digit_by_digit(text::trimmed(saved@), '0', usize::MAX as nat, at);
}

/// A name is made safe character by character: letters, digits, dots, hyphens and
/// underscores stay, and everything else becomes an underscore.
pub proof fn a_name_is_made_safe(role: &str, r: String, i: int)
    requires
        call_ensures(sanitize, (role,), r),
        0 <= i < role@.len(),
    ensures
        r@.len() == role@.len(),
        ({
            let c = role@[i];
            let plain = ('a' <= c && c <= 'z') || ('A' <= c && c <= 'Z') || ('0' <= c && c <= '9')
                || c == '.' || c == '-' || c == '_';
            r@[i] == if plain {
                c
            } else {
                '_'
            }
        }),
{
}

} // verus!
