//! The pidfile that a running crew leaves, with a marker of the process it
//! names, so that standing a crew down never signals a reused, unrelated PID.
use vstd::prelude::*;

use crate::number;
use crate::path;
use crate::paths;
use crate::text;

verus! {

/// A parsed pidfile: the crew's PID and, when the platform supplied one, the
/// marker pinning that process instance.
#[derive(Debug, PartialEq, Eq)]
pub struct Record {
    /// The crew's PID.
    pub pid: u32,
    /// The identity marker, or none when it could not be captured (skipping
    /// verification).
    pub marker: Option<String>,
}

/// What a record holds.
pub struct RecordView {
    /// The crew's PID.
    pub pid: u32,
    /// The identity marker.
    pub marker: Option<Seq<char>>,
}

impl View for Record {
    type V = RecordView;

    open spec fn view(&self) -> RecordView {
        RecordView { pid: self.pid, marker: text::opt_string(self.marker) }
    }
}

impl RecordView {
    /// The pidfile's text: the PID on the first line, the marker (if any) on
    /// the second.
    pub open spec fn file_text(self) -> Seq<char> {
        let first = number::decimal(self.pid as nat) + "\n"@;
        match self.marker {
            Some(marker) => first + marker + "\n"@,
            None => first,
        }
    }

    /// The record that a pidfile's lines hold: a PID on the first line, and a
    /// marker where the second says something.
    pub open spec fn in_lines(lines: Seq<Seq<char>>) -> Option<RecordView> {
        if lines.len() == 0 {
            None
        } else {
            match number::unsigned(text::trimmed(lines[0]), u32::MAX as nat) {
                Some(pid) => Some(
                    RecordView {
                        pid: pid as u32,
                        marker: if lines.len() > 1 && !text::blank(lines[1]) {
                            Some(text::trimmed(lines[1]))
                        } else {
                            None
                        },
                    },
                ),
                None => None,
            }
        }
    }

    /// The record that a pidfile's text holds.
    pub open spec fn in_text(s: Seq<char>) -> Option<RecordView> {
        RecordView::in_lines(text::lines_of(s))
    }
}

/// What an optional record holds.
pub open spec fn opt_record(o: Option<Record>) -> Option<RecordView> {
    match o {
        Some(record) => Some(record@),
        None => None,
    }
}

impl Record {
    /// Renders the pidfile: the PID on the first line, the marker (if any) on
    /// the second.
    pub fn render(&self) -> (r: String)
        ensures
            r@ == self@.file_text(),
    {
        let first = number::decimal_u64(self.pid as u64).concat("\n");
        match &self.marker {
            Some(marker) => first.concat(marker.as_str()).concat("\n"),
            None => first,
        }
    }

    /// Parses a pidfile, tolerating the old single-line PID form (no marker).
    /// Nothing comes back when the first line does not hold a PID.
    pub fn parse(s: &str) -> (r: Option<Self>)
        ensures
            opt_record(r) == RecordView::in_text(s@),
    {
        let lines = text::lines(s);
        assert(text::texts(lines@).len() == lines@.len());
        if lines.len() == 0 {
            return None;
        }
        assert(text::texts(lines@)[0] == lines@[0]@);
        let pid = match number::parse_unsigned(text::trim(lines[0].as_str()), u32::MAX as u64) {
            Some(pid) => pid as u32,
            None => {
                return None;
            },
        };
        let marker = if lines.len() > 1 {
            assert(text::texts(lines@)[1] == lines@[1]@);
            let marker = text::trim(lines[1].as_str());
            if marker.is_empty() {
                None
            } else {
                Some(marker.to_owned())
            }
        } else {
            None
        };
        Some(Record { pid, marker })
    }
}

/// What to do with a pidfile, given the marker of the process its PID currently
/// names.
#[derive(Debug, Clone, Copy, PartialEq, Eq, Structural)]
pub enum Decision {
    /// Signal this PID: the marker matched, or there is none to check.
    Signal(u32),
    /// The named process is gone; the pidfile is stale.
    Gone,
    /// The PID now names a different process; the pidfile is stale.
    Replaced,
}

/// What to do with a record: with no marker there is nothing to verify; with
/// one, signal only when the live process matches.
pub open spec fn decision(record: RecordView, live: Option<Seq<char>>) -> Decision {
    match (record.marker, live) {
        (None, _) => Decision::Signal(record.pid),
        (Some(marker), Some(live)) => if live == marker {
            Decision::Signal(record.pid)
        } else {
            Decision::Replaced
        },
        (Some(_), None) => Decision::Gone,
    }
}

/// Decides what to do with `record`, given `live` (the marker of the process
/// its PID currently names, or none if that process is gone).
pub fn classify(record: &Record, live: Option<&str>) -> (r: Decision)
    ensures
        r == decision(record@, text::opt_text(live)),
{
    match &record.marker {
        None => Decision::Signal(record.pid),
        Some(marker) => match live {
            Some(live) => {
                if text::same(live, marker.as_str()) {
                    Decision::Signal(record.pid)
                } else {
                    Decision::Replaced
                }
            },
            None => Decision::Gone,
        },
    }
}

/// The process start time in a `/proc/<pid>/stat` line: the twentieth field
/// after the last closing parenthesis.
pub open spec fn start_time_in(stat: Seq<char>) -> Option<nat> {
    match text::split_at_last(stat, ')') {
        Some((_, fields)) => if text::words(fields).len() > 19 {
            number::unsigned(text::words(fields)[19], u64::MAX as nat)
        } else {
            None
        },
        None => None,
    }
}

/// The process start time (clock ticks since boot) from a `/proc/<pid>/stat`
/// line: field 22, read after the parenthesized `comm`.
///
/// `comm` may itself contain spaces and parentheses (a process can rename
/// itself), so the scan goes to the last `)`; the fields after it are at fixed
/// offsets.
pub fn parse_start_time(stat: &str) -> (r: Option<u64>)
    ensures
        match r {
            Some(n) => start_time_in(stat@) == Some(n as nat),
            None => start_time_in(stat@) is None,
        },
{
    match text::rsplit_once(stat, ')') {
        Some((_, fields)) => {
            let words = text::split_whitespace(fields);
            assert(text::texts(words@).len() == words@.len());
            if words.len() > 19 {
                assert(text::texts(words@)[19] == words@[19]@);
                number::parse_unsigned(words[19].as_str(), u64::MAX)
            } else {
                None
            }
        },
        None => None,
    }
}

/// The marker of a process: the boot id and the process start time.
pub open spec fn marker_of(boot_id: Option<Seq<char>>, stat: Option<Seq<char>>) -> Option<
    Seq<char>,
> {
    match (boot_id, stat) {
        (Some(boot_id), Some(stat)) => match start_time_in(stat) {
            Some(start) => Some(text::trimmed(boot_id) + ":"@ + number::decimal(start)),
            None => None,
        },
        _ => None,
    }
}

/// A token identifying a specific process instance, so a reused PID cannot
/// masquerade as the original: the boot id plus the process start time, where
/// both could be read.
pub fn process_marker(boot_id: Option<&str>, stat: Option<&str>) -> (r: Option<String>)
    ensures
        text::opt_string(r) == marker_of(text::opt_text(boot_id), text::opt_text(stat)),
{
    match boot_id {
        Some(boot_id) => match stat {
            Some(stat) => match parse_start_time(stat) {
                Some(start) => Some(
                    text::trim(boot_id).to_owned().concat(":").concat(
                        number::decimal_u64(start).as_str(),
                    ),
                ),
                None => None,
            },
            None => None,
        },
        None => None,
    }
}

/// The pidfile's path under the broker's state directory.
pub fn path(state_dir: &str) -> (r: String)
    ensures
        r@ == path::under_dir(state_dir@, paths::PIDFILE@),
{
    paths::pidfile(state_dir)
}

/// Which process a pidfile names, once verified.
#[derive(Debug, PartialEq, Eq)]
pub enum Target {
    /// The live crew's PID.
    Running(u32),
    /// No crew to signal.
    Refused {
        /// Why.
        why: String,
        /// Whether the pidfile is stale and to be removed.
        stale: bool,
    },
}

impl Target {
    /// Whether this is a refusal.
    pub open spec fn refuses(self, saying: Seq<char>, remove: bool) -> bool {
        self matches Target::Refused { why, stale } && why@ == saying && stale == remove
    }
}

/// Which process a pidfile at `path` with the text `saved` names, given the
/// marker `live` of the process its PID currently names.
pub open spec fn verified(
    path: Seq<char>,
    saved: Option<Seq<char>>,
    live: Option<Seq<char>>,
    r: Target,
) -> bool {
    match saved {
        None => r.refuses("no crew is running (no pidfile at "@ + path + ")"@, false),
        Some(s) => match RecordView::in_text(s) {
            None => r.refuses("the pidfile "@ + path + " does not hold a PID"@, false),
            Some(record) => match decision(record, live) {
                Decision::Signal(pid) => r == Target::Running(pid),
                Decision::Gone => r.refuses(
                    "no crew is running (process "@ + number::decimal(record.pid as nat)
                        + " is gone; removed the stale pidfile "@ + path + ")"@,
                    true,
                ),
                Decision::Replaced => r.refuses(
                    "the pidfile named crew process "@ + number::decimal(record.pid as nat)
                        + REPLACED@ + path + ")"@,
                    true,
                ),
            },
        },
    }
}

/// What a replaced process is reported as, between the PID and the path.
pub const REPLACED: &'static str =
    ", but that PID is now a different process; the crew is not running (removed the \
     stale pidfile ";

/// The PID of the live crew this pidfile names, verified against its identity
/// marker.
///
/// A marker that no longer matches the live process (a crashed crew whose PID
/// was reused) or names a process that is gone marks the pidfile stale: it is
/// to be removed, and nothing is signaled. A pidfile with no marker falls back
/// to signaling by PID alone.
pub fn verified_target(path: &str, saved: Option<&str>, live: Option<&str>) -> (r: Target)
    ensures
        verified(path@, text::opt_text(saved), text::opt_text(live), r),
{
    let saved = match saved {
        Some(saved) => saved,
        None => {
            return Target::Refused {
                why: "no crew is running (no pidfile at ".to_owned().concat(path).concat(")"),
                stale: false,
            };
        },
    };
    let record = match Record::parse(saved) {
        Some(record) => record,
        None => {
            return Target::Refused {
                why: "the pidfile ".to_owned().concat(path).concat(" does not hold a PID"),
                stale: false,
            };
        },
    };
    let pid = number::decimal_u64(record.pid as u64);
    match classify(&record, live) {
        Decision::Signal(pid) => Target::Running(pid),
        Decision::Gone => Target::Refused {
            why: "no crew is running (process ".to_owned().concat(pid.as_str()).concat(
                " is gone; removed the stale pidfile ",
            ).concat(path).concat(")"),
            stale: true,
        },
        Decision::Replaced => Target::Refused {
            why: "the pidfile named crew process ".to_owned().concat(pid.as_str()).concat(
                REPLACED,
            ).concat(path).concat(")"),
            stale: true,
        },
    }
}

/// Whether a marker survives being written to a line and read back: it is one
/// line, and trimmed, and says something.
pub open spec fn writable(marker: Seq<char>) -> bool {
    marker.len() > 0 && text::trimmed(marker) == marker && !marker.contains('\n')
}

/// A number's decimal text is a trimmed line.
proof fn lemma_decimal_line(n: nat)
    ensures
        text::trimmed(number::decimal(n)) == number::decimal(n),
        !number::decimal(n).contains('\n'),
        text::without_return(number::decimal(n)) == number::decimal(n),
{
    let s = number::decimal(n);
    number::lemma_decimal(n);
    assert(number::is_digit(s[0]));
    assert(number::is_digit(s[s.len() - 1]));
    text::lemma_trimmed_is(s);
    if s.contains('\n') {
        let i = s.index_of('\n');
        assert(number::is_digit(s[i]));
    }
}

/// A written record reads back, with its marker where it has a writable one.
pub proof fn a_record_reads_back(record: RecordView)
    requires
        record.marker matches Some(marker) ==> writable(marker),
    ensures
        RecordView::in_text(record.file_text()) == Some(record),
{
    reveal_strlit("\n");
    assert("\n"@ =~= seq!['\n']);
    let pid = number::decimal(record.pid as nat);
    lemma_decimal_line(record.pid as nat);
    number::decimal_reads_back(record.pid as nat, u32::MAX as nat);
    let none = Seq::<char>::empty();
    assert(text::lines_of(none) =~= Seq::<Seq<char>>::empty());
    match record.marker {
        None => {
            text::lemma_first_line(pid, none);
            assert(record.file_text() =~= pid + seq!['\n'] + none);
            let lines = text::lines_of(record.file_text());
            assert(lines =~= seq![pid]);
        },
        Some(marker) => {
            text::lemma_first_line(pid, marker + seq!['\n']);
            text::lemma_first_line(marker, none);
            assert(record.file_text() =~= pid + seq!['\n'] + (marker + seq!['\n']));
            assert(marker + seq!['\n'] =~= marker + seq!['\n'] + none);
            let lines = text::lines_of(record.file_text());
            assert(text::without_return(marker) == marker) by {
                if marker.last() == '\r' {
                    text::lemma_run(marker, text::white());
                    let a = text::drop_run(marker, text::white());
                    text::lemma_run_back(a, text::white());
                    let t = text::trimmed(marker);
                    assert(t.last() == a[a.len() - text::run_back(a, text::white()) - 1]);
                    assert(!text::white()(t.last()));
                    assert(text::white_space('\r'));
                }
            }
            assert(lines =~= seq![pid, marker]);
        },
    }
}

/// A reused PID is never signaled: where a marker was recorded, only a process
/// with that very marker is.
pub proof fn a_reused_pid_is_never_signaled(
    path: Seq<char>,
    saved: Seq<char>,
    live: Option<Seq<char>>,
    r: Target,
)
    requires
        verified(path, Some(saved), live, r),
        r is Running,
        RecordView::in_text(saved) matches Some(record) && record.marker is Some,
    ensures
        live == RecordView::in_text(saved)->0.marker,
        r->Running_0 == RecordView::in_text(saved)->0.pid,
{
}

/// A recorded crew is signaled only while it is the process recorded: with the marker
/// it left, only a process with that very marker is signaled, and a process that is
/// gone or is another makes the pidfile stale. Without a pidfile there is nothing to
/// signal and nothing to remove.
pub proof fn only_the_recorded_process_is_signaled(
    record: Record,
    written: String,
    path: &str,
    saved: &str,
    live: Option<&str>,
    r: Target,
    none: Target,
)
    requires
        call_ensures(Record::render, (&record,), written),
        saved@ == written@,
        record.marker matches Some(marker) ==> writable(marker@),
        call_ensures(verified_target, (path, Some(saved), live), r),
        call_ensures(verified_target, (path, None, live), none),
    ensures
        record.marker is None ==> r == Target::Running(record.pid),
        record.marker is Some && live is Some && live->0@ == record.marker->0@ ==> r
            == Target::Running(record.pid),
        record.marker is Some && (live is None || live->0@ != record.marker->0@) ==> (
        r matches Target::Refused { stale, .. } && stale),
        none matches Target::Refused { stale, .. } && !stale,
{
    a_record_reads_back(record@);
}

/// A pidfile that starts with no number names no process, and is left alone.
pub proof fn a_pidfile_without_a_number_is_left_alone(
    path: &str,
    saved: &str,
    live: Option<&str>,
    at: int,
    r: Target,
)
    requires
        call_ensures(verified_target, (path, Some(saved), live), r),
        text::lines_of(saved@).len() > 0,
        0 <= at < text::trimmed(text::lines_of(saved@)[0]).len(),
        !('0' <= text::trimmed(text::lines_of(saved@)[0])[at] <= '9') && text::trimmed(
            text::lines_of(saved@)[0],
        )[at] != '+',
    ensures
        r matches Target::Refused { stale, .. } && !stale,
{
    number::a_number_is_read_digit_by_digit(
        text::trimmed(text::lines_of(saved@)[0]),
        '0',
        u32::MAX as nat,
        at,
    );
}

/// A process's start time is the twentieth field behind the last closing parenthesis,
/// whatever its name holds before it.
pub proof fn the_start_time_is_behind_the_name(
    name: Seq<char>,
    fields: Seq<char>,
    n: u64,
    stat: &str,
    r: Option<u64>,
)
    requires
        call_ensures(parse_start_time, (stat,), r),
        stat@ == name + seq![')'] + fields,
        !fields.contains(')'),
    ensures
        text::words(fields).len() > 19 && text::words(fields)[19] == number::decimal(n as nat) ==> r
            == Some(n),
        text::words(fields).len() <= 19 ==> r is None,
{
    let s = stat@;
    let p = text::other_than(')');
    assert forall|j: int| s.len() - fields.len() <= j < s.len() implies p(#[trigger] s[j]) by {
        assert(s[j] == fields[j - name.len() - 1]);
        assert(fields.contains(fields[j - name.len() - 1]));
    }
    assert(s[name.len() as int] == ')');
    text::lemma_run_back_is(s, p, fields.len() as int);
    assert(s.skip(name.len() as int + 1) =~= fields);
    number::decimal_reads_back(n as nat, u64::MAX as nat);
}

/// A process's marker is made of the boot and of its start: where either is unknown
/// there is none, and two processes of one boot that started at different times have
/// different markers.
pub proof fn a_marker_tells_processes_apart(
    boot: &str,
    first: &str,
    second: &str,
    a: Option<u64>,
    b: Option<u64>,
    marker_a: Option<String>,
    marker_b: Option<String>,
    unbooted: Option<String>,
    gone: Option<String>,
)
    requires
        call_ensures(parse_start_time, (first,), a),
        call_ensures(parse_start_time, (second,), b),
        call_ensures(process_marker, (Some(boot), Some(first)), marker_a),
        call_ensures(process_marker, (Some(boot), Some(second)), marker_b),
        call_ensures(process_marker, (None, Some(first)), unbooted),
        call_ensures(process_marker, (Some(boot), None), gone),
    ensures
        marker_a is Some <==> a is Some,
        unbooted is None && gone is None,
        a is Some && b is Some && a != b ==> marker_a->0@ != marker_b->0@,
        a is Some && a == b ==> marker_a->0@ == marker_b->0@,
        a is Some ==> (text::trimmed(boot@) + ":"@).is_prefix_of(marker_a->0@),
{
    if a is Some && b is Some {
        let front = text::trimmed(boot@) + ":"@;
        let x = number::decimal(a->0 as nat);
        let y = number::decimal(b->0 as nat);
        if marker_a->0@ == marker_b->0@ {
            assert((front + x).skip(front.len() as int) =~= x);
            assert((front + y).skip(front.len() as int) =~= y);
            number::lemma_decimal(a->0 as nat);
            number::lemma_decimal(b->0 as nat);
        }
    }
    if a is Some {
        text::lemma_pieces(text::trimmed(boot@) + ":"@, number::decimal(a->0 as nat));
    }
}

} // verus!
