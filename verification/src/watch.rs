//! Watching the event stream: the lines of a server-sent event stream, the
//! cursor that survives a reconnect, and the one-line rendering of an event.
use vstd::prelude::*;

use crate::base;
use crate::budget::BudgetScope;
use crate::card::BrokerEndpoint;
use crate::event::{
    message_kind_label, Activity, BoardEvent, BoundaryEvent, BudgetEvent, Event, EventKind,
    LedgerEvent, MissionEvent, StallEvent, StallStatus, TelemetryEvent, UsageEvent, Verdict,
    VerificationEvent,
};
use crate::id::{Sender, TaskId};
use crate::event;
use crate::id;
use crate::number;
use crate::text;
use crate::time;

verus! {

/// The path a watch reads: one role's self-filtered inbox, or the firehose.
pub open spec fn stream_path(role: Option<Seq<char>>) -> Seq<char> {
    match role {
        Some(role) => "/inbox?role="@ + text::trimmed(role),
        None => "/stream"@,
    }
}

/// The path a watch reads: one role's self-filtered inbox, or the firehose.
pub fn watch_path(role: Option<&str>) -> (r: String)
    ensures
        r@ == stream_path(text::opt_text(role)),
{
    match role {
        Some(role) => "/inbox?role=".to_owned().concat(text::trim(role)),
        None => "/stream".to_owned(),
    }
}

/// The URL that a watch tails, for a role's inbox or the whole firehose.
pub fn watch(broker: Option<&str>, endpoint: &BrokerEndpoint, role: Option<&str>) -> (r: String)
    ensures
        r@ == base::chosen_base(text::opt_text(broker), *endpoint) + stream_path(
            text::opt_text(role),
        ),
{
    base::resolve_base(broker, endpoint).concat(watch_path(role).as_str())
}

/// The cursor that an `id:` line carries.
pub open spec fn cursor_of(line: Seq<char>) -> Option<nat> {
    match text::after_prefix(line, "id:"@) {
        Some(rest) => number::unsigned(text::trimmed(rest), u64::MAX as nat),
        None => None,
    }
}

/// The payload that a `data:` line carries.
pub open spec fn payload_of(line: Seq<char>) -> Option<Seq<char>> {
    match text::after_prefix(line, "data:"@) {
        Some(rest) => Some(text::drop_run(rest, text::white())),
        None => None,
    }
}

/// The sequence cursor of an `id:` line, if it is one.
pub fn parse_id_line(line: &str) -> (r: Option<u64>)
    ensures
        match r {
            Some(id) => cursor_of(line@) == Some(id as nat),
            None => cursor_of(line@) is None,
        },
{
    match text::strip_prefix(line, "id:") {
        Some(rest) => number::parse_unsigned(text::trim(rest), u64::MAX),
        None => None,
    }
}

/// The payload of a `data:` line, if it is one.
pub fn data_payload<'a>(line: &'a str) -> (r: Option<&'a str>)
    ensures
        text::opt_text(r) == payload_of(line@),
{
    match text::strip_prefix(line, "data:") {
        Some(rest) => Some(text::trim_start(rest)),
        None => None,
    }
}

/// What a tail knows of its place in the stream.
#[derive(Debug, Clone, Copy, PartialEq, Eq, Structural)]
pub struct Tail {
    /// The cursor armed by the last `id:` line, until its event is delivered.
    pub pending: Option<u64>,
    /// The id of the last event delivered, for the next reconnect.
    pub last_id: Option<u64>,
}

impl Tail {
    /// Whether the line delivers an event: it is no cursor, and its payload was
    /// decoded as one.
    pub open spec fn delivers(line: Seq<char>, decoded: bool) -> bool {
        cursor_of(line) is None && payload_of(line) is Some && decoded
    }

    /// The tail after a line, where `decoded` says whether the line's payload
    /// was decoded as an event.
    pub open spec fn after_line(self, line: Seq<char>, decoded: bool) -> Tail {
        match cursor_of(line) {
            Some(id) => Tail { pending: Some(id as u64), last_id: self.last_id },
            None => if Tail::delivers(line, decoded) {
                Tail {
                    pending: None,
                    last_id: if self.pending is Some {
                        self.pending
                    } else {
                        self.last_id
                    },
                }
            } else {
                self
            },
        }
    }

    /// The tail after a series of lines.
    pub open spec fn after(self, lines: Seq<(Seq<char>, bool)>) -> Tail
        decreases lines.len(),
    {
        if lines.len() == 0 {
            self
        } else {
            self.after(lines.drop_last()).after_line(lines.last().0, lines.last().1)
        }
    }

    /// A tail that resumes after `last_id`.
    pub fn resuming(last_id: Option<u64>) -> (r: Self)
        ensures
            r == (Tail { pending: None, last_id }),
    {
        Tail { pending: None, last_id }
    }

    /// Applies one line, saying whether it delivers an event.
    ///
    /// An `id:` line arms the pending cursor; a `data:` line whose payload was
    /// decoded as an event delivers it and only then commits the cursor, so a
    /// connection that drops between the two replays the event on reconnect.
    pub fn apply_line(&mut self, line: &str, decoded: bool) -> (r: bool)
        ensures
            *final(self) == old(self).after_line(line@, decoded),
            r == Tail::delivers(line@, decoded),
    {
        if let Some(id) = parse_id_line(line) {
            self.pending = Some(id);
            return false;
        }
        if data_payload(line).is_none() || !decoded {
            return false;
        }
        if let Some(id) = self.pending {
            self.last_id = Some(id);
            self.pending = None;
        }
        true
    }
}

/// The cursor never advances past an event that was not delivered: lines that
/// deliver nothing leave it where it was.
pub proof fn the_cursor_waits_for_delivery(tail: Tail, lines: Seq<(Seq<char>, bool)>)
    requires
        forall|i: int|
            0 <= i < lines.len() ==> !Tail::delivers((#[trigger] lines[i]).0, lines[i].1),
    ensures
        tail.after(lines).last_id == tail.last_id,
    decreases lines.len(),
{
    if lines.len() > 0 {
        let shorter = lines.drop_last();
        assert forall|i: int| 0 <= i < shorter.len() implies !Tail::delivers(
            (#[trigger] shorter[i]).0,
            shorter[i].1,
        ) by {
            assert(shorter[i] == lines[i]);
        }
        the_cursor_waits_for_delivery(tail, shorter);
    }
}

/// A delivered event commits the cursor armed right before it.
pub proof fn delivery_commits_the_cursor(tail: Tail, id_line: Seq<char>, data_line: Seq<char>)
    requires
        cursor_of(id_line) is Some,
        Tail::delivers(data_line, true),
    ensures
        tail.after_line(id_line, false).after_line(data_line, true) == (Tail {
            pending: None,
            last_id: Some(cursor_of(id_line)->0 as u64),
        }),
{
}

/// What a following reader does once a connection has ended.
#[derive(Debug, Clone, Copy, PartialEq, Eq, Structural)]
pub enum NextStep {
    /// Wait a moment, then connect again.
    Reconnect,
    /// Give up and report why the connection failed.
    Fail,
}

/// A reader that follows a stream across reconnects.
#[derive(Debug, Clone, Copy, PartialEq, Eq, Structural)]
pub struct Follow {
    /// The event to resume after.
    pub resume_from: Option<u64>,
    /// Whether a connection was ever opened.
    pub connected: bool,
}

impl Follow {
    /// A reader that has not connected yet.
    pub fn start() -> (r: Self)
        ensures
            r == (Follow { resume_from: None, connected: false }),
    {
        Follow { resume_from: None, connected: false }
    }

    /// A connection was opened and has ended, with the id of the last event
    /// delivered.
    pub fn ended(&mut self, last_id: Option<u64>) -> (r: NextStep)
        ensures
            final(self).connected,
            final(self).resume_from == (if last_id is Some {
                last_id
            } else {
                old(self).resume_from
            }),
            r == NextStep::Reconnect,
    {
        self.connected = true;
        if last_id.is_some() {
            self.resume_from = last_id;
        }
        NextStep::Reconnect
    }

    /// A connection could not be opened: the first one fails the reader, a
    /// later one is tried again.
    pub fn refused(&self) -> (r: NextStep)
        ensures
            r == (if self.connected {
                NextStep::Reconnect
            } else {
                NextStep::Fail
            }),
    {
        if self.connected {
            NextStep::Reconnect
        } else {
            NextStep::Fail
        }
    }
}

/// The display label for a task: its human title, or its id where that is
/// empty.
pub open spec fn task_text(title: Seq<char>, task: TaskId) -> Seq<char> {
    if title.len() == 0 {
        id::uuid_text(task.0)
    } else {
        title
    }
}

/// The display label for a task: its human title, or its id where that is
/// empty.
pub fn task_label(title: &str, task: TaskId) -> (r: String)
    ensures
        r@ == task_text(title@, task),
{
    if title.is_empty() {
        task.to_string()
    } else {
        title.to_owned()
    }
}

/// A short description of a claim on the ledger.
pub open spec fn ledger_text(ledger: LedgerEvent) -> Seq<char> {
    ledger.owner@ + " "@ + ledger.state.label_text() + " "@ + task_text(ledger.title@, ledger.task)
}

/// A short description of a claim on the ledger.
pub fn ledger_body(ledger: &LedgerEvent) -> (r: String)
    ensures
        r@ == ledger_text(*ledger),
{
    ledger.owner.as_str().to_owned().concat(" ").concat(ledger.state.label()).concat(" ").concat(
        task_label(ledger.title.as_str(), ledger.task).as_str(),
    )
}

/// A short description of a lane crossing.
pub open spec fn boundary_text(boundary: BoundaryEvent) -> Seq<char> {
    boundary.role@ + " reached "@ + boundary.path@ + " ("@ + (if boundary.blocked {
        "blocked"@
    } else {
        "warned"@
    }) + ")"@
}

/// A short description of a lane crossing.
pub fn boundary_body(boundary: &BoundaryEvent) -> (r: String)
    ensures
        r@ == boundary_text(*boundary),
{
    boundary.role.as_str().to_owned().concat(" reached ").concat(boundary.path.as_str()).concat(
        " (",
    ).concat(
        if boundary.blocked {
            "blocked"
        } else {
            "warned"
        },
    ).concat(")")
}

/// A short description of a coordination stall.
pub open spec fn stall_text(stall: StallEvent) -> Seq<char> {
    (if stall.status == StallStatus::Detected {
        "detected"@
    } else {
        "resolved"@
    }) + " "@ + stall.kind.label_text() + ": "@ + stall.detail@
}

/// A short description of a coordination stall the monitor surfaced.
pub fn stall_body(stall: &StallEvent) -> (r: String)
    ensures
        r@ == stall_text(*stall),
{
    let verb = match stall.status {
        StallStatus::Detected => "detected",
        StallStatus::Resolved => "resolved",
    };
    verb.to_owned().concat(" ").concat(stall.kind.label()).concat(": ").concat(
        stall.detail.as_str(),
    )
}

/// A short description of a subscription usage reading.
pub open spec fn usage_text(usage: UsageEvent) -> Seq<char> {
    let reading = "subscription at "@ + number::decimal(usage.percent as nat);
    if usage.paused {
        match usage.window_reset {
            Some(reset) => reading + "%; new work paused until "@ + time::clock_text(reset),
            None => reading + "%; new work paused"@,
        }
    } else {
        reading + "%; work resumed"@
    }
}

/// A short description of a shared-subscription usage reading.
pub fn usage_body(usage: &UsageEvent) -> (r: String)
    ensures
        r@ == usage_text(*usage),
{
    let reading = "subscription at ".to_owned().concat(
        number::decimal_u64(usage.percent).as_str(),
    );
    if usage.paused {
        match usage.window_reset {
            Some(reset) => reading.concat("%; new work paused until ").concat(
                reset.clock().as_str(),
            ),
            None => reading.concat("%; new work paused"),
        }
    } else {
        reading.concat("%; work resumed")
    }
}

/// A cost in millionths of a dollar as dollars and cents.
pub open spec fn dollars_text(micro_usd: u64) -> Seq<char> {
    "$"@ + number::decimal((micro_usd / 1_000_000) as nat) + "."@ + time::two_digits(
        ((micro_usd % 1_000_000) / 10_000) as nat,
    )
}

/// A cost in millionths of a dollar as dollars and cents.
pub fn dollars(micro_usd: u64) -> (r: String)
    ensures
        r@ == dollars_text(micro_usd),
{
    "$".to_owned().concat(number::decimal_u64(micro_usd / 1_000_000).as_str()).concat(".").concat(
        time::pad_two((micro_usd % 1_000_000) / 10_000).as_str(),
    )
}

/// A short description of a token-and-cost usage report.
pub open spec fn telemetry_text(telemetry: TelemetryEvent) -> Seq<char> {
    telemetry.role@ + " spent "@ + number::decimal(telemetry.tokens as nat) + " tokens ("@
        + dollars_text(telemetry.cost_micro_usd) + ")"@
}

/// A short description of a per-turn token-and-cost usage report.
pub fn telemetry_body(telemetry: &TelemetryEvent) -> (r: String)
    ensures
        r@ == telemetry_text(*telemetry),
{
    telemetry.role.as_str().to_owned().concat(" spent ").concat(
        number::decimal_u64(telemetry.tokens).as_str(),
    ).concat(" tokens (").concat(dollars(telemetry.cost_micro_usd).as_str()).concat(")")
}

/// A spend against its ceiling, or alone where there is none.
pub open spec fn spend_text(spent: u64, cap: Option<u64>) -> Seq<char> {
    match cap {
        Some(cap) => number::decimal(spent as nat) + "/"@ + number::decimal(cap as nat),
        None => number::decimal(spent as nat),
    }
}

fn spend_body(spent: u64, cap: Option<u64>) -> (r: String)
    ensures
        r@ == spend_text(spent, cap),
{
    match cap {
        Some(cap) => number::decimal_u64(spent).concat("/").concat(
            number::decimal_u64(cap).as_str(),
        ),
        None => number::decimal_u64(spent),
    }
}

/// A short description of a spend report against the crew budget.
pub open spec fn budget_text(budget: BudgetEvent) -> Seq<char> {
    let role = budget.role@ + " spent "@ + spend_text(budget.role_spent, budget.role_cap)
        + " tokens"@;
    let crew = "crew "@ + spend_text(budget.crew_spent, budget.crew_budget);
    match budget.breach {
        Some(BudgetScope::Role) => role + " (cap reached, idle-stopped); "@ + crew,
        Some(BudgetScope::Crew) => role + "; "@ + crew + " (budget reached, crew idle-stopped)"@,
        None => role + "; "@ + crew,
    }
}

/// A short description of a token-spend report against the crew budget.
pub fn budget_body(budget: &BudgetEvent) -> (r: String)
    ensures
        r@ == budget_text(*budget),
{
    let role = budget.role.as_str().to_owned().concat(" spent ").concat(
        spend_body(budget.role_spent, budget.role_cap).as_str(),
    ).concat(" tokens");
    let crew = "crew ".to_owned().concat(
        spend_body(budget.crew_spent, budget.crew_budget).as_str(),
    );
    match budget.breach {
        Some(BudgetScope::Role) => role.concat(" (cap reached, idle-stopped); ").concat(
            crew.as_str(),
        ),
        Some(BudgetScope::Crew) => role.concat("; ").concat(crew.as_str()).concat(
            " (budget reached, crew idle-stopped)",
        ),
        None => role.concat("; ").concat(crew.as_str()),
    }
}

/// A short description of a situation-board change.
pub open spec fn board_text(board: BoardEvent) -> Seq<char> {
    if board.retracted {
        board.author@ + " retracted `"@ + board.key@ + "` ("@ + board.section.label_text() + ")"@
    } else {
        board.author@ + " recorded `"@ + board.key@ + "` ("@ + board.section.label_text() + "): "@
            + board.body@
    }
}

/// A short description of a situation-board change.
pub fn board_body(board: &BoardEvent) -> (r: String)
    ensures
        r@ == board_text(*board),
{
    if board.retracted {
        board.author.as_str().to_owned().concat(" retracted `").concat(board.key.as_str()).concat(
            "` (",
        ).concat(board.section.label()).concat(")")
    } else {
        board.author.as_str().to_owned().concat(" recorded `").concat(board.key.as_str()).concat(
            "` (",
        ).concat(board.section.label()).concat("): ").concat(board.body.as_str())
    }
}

/// A short description of a done-gate verification step.
pub open spec fn verification_text(verification: VerificationEvent) -> Seq<char> {
    let task = task_text(verification.title@, verification.task);
    let owner = verification.owner@;
    let verifier = match verification.verifier {
        Some(role) => role@,
        None => "the verifier"@,
    };
    let detail = verification.detail@;
    match verification.verdict {
        Verdict::Submitted => if detail.len() == 0 {
            owner + " submitted `"@ + task + "` for verification"@
        } else {
            owner + " submitted `"@ + task + "` for verification: "@ + detail
        },
        Verdict::Passed => verifier + " passed `"@ + task + "` (owner "@ + owner
            + "); it is done"@,
        Verdict::Failed => if detail.len() == 0 {
            verifier + " failed `"@ + task + "` (owner "@ + owner + ")"@
        } else {
            verifier + " failed `"@ + task + "` (owner "@ + owner + "): "@ + detail
        },
    }
}

/// A short description of a done-gate verification step, naming the task by its
/// human title.
pub fn verification_body(verification: &VerificationEvent) -> (r: String)
    ensures
        r@ == verification_text(*verification),
{
    let task = task_label(verification.title.as_str(), verification.task);
    let owner = verification.owner.as_str();
    let verifier = match &verification.verifier {
        Some(role) => role.as_str(),
        None => "the verifier",
    };
    let detail = verification.detail.as_str();
    match verification.verdict {
        Verdict::Submitted => {
            if detail.is_empty() {
                owner.to_owned().concat(" submitted `").concat(task.as_str()).concat(
                    "` for verification",
                )
            } else {
                owner.to_owned().concat(" submitted `").concat(task.as_str()).concat(
                    "` for verification: ",
                ).concat(detail)
            }
        },
        Verdict::Passed => verifier.to_owned().concat(" passed `").concat(task.as_str()).concat(
            "` (owner ",
        ).concat(owner).concat("); it is done"),
        Verdict::Failed => {
            if detail.is_empty() {
                verifier.to_owned().concat(" failed `").concat(task.as_str()).concat(
                    "` (owner ",
                ).concat(owner).concat(")")
            } else {
                verifier.to_owned().concat(" failed `").concat(task.as_str()).concat(
                    "` (owner ",
                ).concat(owner).concat("): ").concat(detail)
            }
        },
    }
}

/// A short description of an activity.
pub open spec fn activity_text(activity: Activity) -> Seq<char> {
    match activity {
        Activity::TurnStarted => "turn started"@,
        Activity::TurnEnded => "turn ended"@,
        Activity::ToolCall { tool } => "tool "@ + tool@,
        Activity::Output { text } => text@,
        Activity::Other { raw } => "("@ + raw@ + ")"@,
    }
}

/// A short description of an activity event.
pub fn activity_body(activity: &Activity) -> (r: String)
    ensures
        r@ == activity_text(*activity),
{
    match activity {
        Activity::TurnStarted => "turn started".to_owned(),
        Activity::TurnEnded => "turn ended".to_owned(),
        Activity::ToolCall { tool } => "tool ".to_owned().concat(tool.as_str()),
        Activity::Output { text } => text.clone(),
        Activity::Other { raw } => "(".to_owned().concat(raw.as_str()).concat(")"),
    }
}

/// A short description of the mission's completion.
pub open spec fn mission_text(mission: MissionEvent) -> Seq<char> {
    if text::blank(mission.summary@) {
        "complete"@
    } else {
        "complete: "@ + text::trimmed(mission.summary@)
    }
}

/// A short description of the mission's completion.
pub fn mission_body(mission: &MissionEvent) -> (r: String)
    ensures
        r@ == mission_text(*mission),
{
    let summary = text::trim(mission.summary.as_str());
    if summary.is_empty() {
        "complete".to_owned()
    } else {
        "complete: ".to_owned().concat(summary)
    }
}

/// The kind label and the body shown for an event's payload.
pub open spec fn description(kind: EventKind) -> (Seq<char>, Seq<char>) {
    match kind {
        EventKind::Message(message) => (message.kind.label_text(), message.body@),
        EventKind::Lifecycle(lifecycle) => ("lifecycle"@, lifecycle.name_text()),
        EventKind::Activity(activity) => ("activity"@, activity_text(activity)),
        EventKind::Ledger(ledger) => ("ledger"@, ledger_text(ledger)),
        EventKind::Boundary(boundary) => ("boundary"@, boundary_text(boundary)),
        EventKind::Verification(verification) => (
            "verification"@,
            verification_text(verification),
        ),
        EventKind::Board(board) => ("board"@, board_text(board)),
        EventKind::Budget(budget) => ("budget"@, budget_text(budget)),
        EventKind::Telemetry(telemetry) => ("telemetry"@, telemetry_text(telemetry)),
        EventKind::Usage(usage) => ("usage"@, usage_text(usage)),
        EventKind::Stall(stall) => ("stall"@, stall_text(stall)),
        EventKind::Mission(mission) => ("mission"@, mission_text(mission)),
    }
}

/// The kind label and body text to show for an event's payload.
pub fn describe(kind: &EventKind) -> (r: (&'static str, String))
    ensures
        (r.0@, r.1@) == description(*kind),
{
    match kind {
        EventKind::Message(message) => (message_kind_label(&message.kind), message.body.clone()),
        EventKind::Lifecycle(lifecycle) => ("lifecycle", lifecycle.name().to_owned()),
        EventKind::Activity(activity) => ("activity", activity_body(activity)),
        EventKind::Ledger(ledger) => ("ledger", ledger_body(ledger)),
        EventKind::Boundary(boundary) => ("boundary", boundary_body(boundary)),
        EventKind::Verification(verification) => ("verification", verification_body(verification)),
        EventKind::Board(board) => ("board", board_body(board)),
        EventKind::Budget(budget) => ("budget", budget_body(budget)),
        EventKind::Telemetry(telemetry) => ("telemetry", telemetry_body(telemetry)),
        EventKind::Usage(usage) => ("usage", usage_body(usage)),
        EventKind::Stall(stall) => ("stall", stall_body(stall)),
        EventKind::Mission(mission) => ("mission", mission_body(mission)),
    }
}

/// An event on one line: when, who said what, and on which channel.
pub open spec fn event_line(e: Event) -> Seq<char> {
    let (kind, body) = description(e.kind);
    let head = "["@ + time::clock_text(e.ts) + "] "@ + event::sender_text(e.from) + " -> "@
        + e.channel@ + " ("@ + kind + ")"@;
    if body.len() == 0 {
        head
    } else {
        head + " "@ + body
    }
}

/// Renders an event for a watch: who said what, on which channel.
pub fn render_event(e: &Event) -> (r: String)
    ensures
        r@ == event_line(*e),
{
    let from = match &e.from {
        Sender::General => "general",
        Sender::Role(role) => role.as_str(),
    };
    let (kind, body) = describe(&e.kind);
    let head = "[".to_owned().concat(e.ts.clock().as_str()).concat("] ").concat(from).concat(
        " -> ",
    ).concat(e.channel.as_str()).concat(" (").concat(kind).concat(")");
    if body.as_str().is_empty() {
        head
    } else {
        head.concat(" ").concat(body.as_str())
    }
}

/// A stream's lines say what they are: `id:` and a number is a cursor, `data:` and a
/// text is a payload, and a line that starts with neither is neither.
pub proof fn a_line_says_what_it_is(
    line: &str,
    id: Option<u64>,
    data: Option<&str>,
    n: u64,
    payload: Seq<char>,
)
    requires
        call_ensures(parse_id_line, (line,), id),
        call_ensures(data_payload, (line,), data),
    ensures
        line@ == "id:"@ + number::decimal(n as nat) ==> id == Some(n),
        line@ == "id: "@ + number::decimal(n as nat) ==> id == Some(n),
        !"id:"@.is_prefix_of(line@) ==> id is None,
        payload.len() > 0 && !text::white_space(payload[0]) && (line@ == "data:"@ + payload || line@
            == "data: "@ + payload) ==> (data matches Some(said) && said@ == payload),
        !"data:"@.is_prefix_of(line@) ==> data is None,
        data is Some <==> "data:"@.is_prefix_of(line@),
{
    reveal_strlit("id:");
    reveal_strlit("id: ");
    reveal_strlit("data:");
    reveal_strlit("data: ");
    let d = number::decimal(n as nat);
    number::lemma_decimal(n as nat);
    number::decimal_reads_back(n as nat, u64::MAX as nat);
    assert(number::is_digit(d[0]) && number::is_digit(d[d.len() - 1]));
    if line@ == "id:"@ + d {
        assert(line@.subrange(0, 3) =~= "id:"@);
        assert(line@.skip(3) =~= d);
        text::lemma_trimmed_is(d);
    }
    if line@ == "id: "@ + d {
        assert(line@.subrange(0, 3) =~= "id:"@);
        let rest = line@.skip(3);
        assert(rest =~= seq![' '] + d);
        assert(text::white()(rest[0]));
        assert(!text::white()(rest[1]));
        text::lemma_run_is(rest, text::white(), 1);
        assert(rest.skip(1) =~= d);
        text::lemma_run_back_is(d, text::white(), 0);
        assert(d.take(d.len() as int) =~= d);
    }
    if payload.len() > 0 && !text::white_space(payload[0]) {
        if line@ == "data:"@ + payload {
            assert(line@.subrange(0, 5) =~= "data:"@);
            assert(line@.skip(5) =~= payload);
            text::lemma_run_is(payload, text::white(), 0);
            assert(payload.skip(0) =~= payload);
        }
        if line@ == "data: "@ + payload {
            assert(line@.subrange(0, 5) =~= "data:"@);
            let rest = line@.skip(5);
            assert(rest =~= seq![' '] + payload);
            assert(text::white()(rest[0]));
            assert(!text::white()(rest[1]));
            text::lemma_run_is(rest, text::white(), 1);
            assert(rest.skip(1) =~= payload);
        }
    }
}

/// A cursor line arms its cursor and delivers nothing; a payload that was decoded is
/// delivered and commits the armed cursor; any other line changes nothing.
pub proof fn a_line_moves_the_tail(tail: Tail, line: Seq<char>, decoded: bool)
    ensures
        cursor_of(line) matches Some(n) ==> tail.after_line(line, decoded).pending == Some(
            n as u64,
        ) && tail.after_line(line, decoded).last_id == tail.last_id && !Tail::delivers(
            line,
            decoded,
        ),
        cursor_of(line) is None && "data:"@.is_prefix_of(line) && decoded ==> {
            &&& Tail::delivers(line, decoded)
            &&& tail.after_line(line, decoded).pending is None
            &&& tail.pending is Some ==> tail.after_line(line, decoded).last_id == tail.pending
            &&& tail.pending is None ==> tail.after_line(line, decoded).last_id == tail.last_id
        },
        cursor_of(line) is None && !("data:"@.is_prefix_of(line) && decoded) ==> !Tail::delivers(
            line,
            decoded,
        ) && tail.after_line(line, decoded) == tail,
{
}

/// A reader that has been connected keeps trying; one that never was gives up.
pub proof fn only_a_first_connection_fails(follow: Follow, step: NextStep)
    requires
        call_ensures(Follow::refused, (&follow,), step),
    ensures
        step == NextStep::Reconnect <==> follow.connected,
{
}

/// A watch of a role reads that role's inbox, and any other the whole stream, at the
/// broker asked for.
pub proof fn a_watch_reads_what_was_asked(
    broker: Option<&str>,
    endpoint: BrokerEndpoint,
    role: &str,
    at: String,
    one: String,
    all: String,
)
    requires
        call_ensures(base::resolve_base, (broker, &endpoint), at),
        call_ensures(watch, (broker, &endpoint, Some(role)), one),
        call_ensures(watch, (broker, &endpoint, None), all),
    ensures
        one@ == at@ + ("/inbox?role="@ + text::trimmed(role@)),
        all@ == at@ + "/stream"@,
{
}

/// A claim is told by its owner, its state and its task: the title, or the id where
/// there is none.
pub proof fn a_claim_is_told(claim: LedgerEvent, said: String)
    requires
        call_ensures(ledger_body, (&claim,), said),
    ensures
        claim.owner@.is_prefix_of(said@),
        text::mentions(said@, claim.state.label_text()),
        claim.title@.len() > 0 ==> claim.title@.is_suffix_of(said@),
        claim.title@.len() == 0 ==> id::uuid_text(claim.task.0).is_suffix_of(said@),
{
    let label = claim.state.label_text();
    let task = task_text(claim.title@, claim.task);
    text::lemma_four_pieces(claim.owner@ + " "@, label, " "@, task);
    text::lemma_pieces(claim.owner@, " "@ + label + " "@ + task);
    assert(claim.owner@ + (" "@ + label + " "@ + task) =~= said@);
}

/// A lane crossing is told by its role and its path, as blocked exactly where the
/// edit was refused.
#[verifier::rlimit(40)]
pub proof fn a_crossing_is_told(crossing: BoundaryEvent, said: String)
    requires
        call_ensures(boundary_body, (&crossing,), said),
    ensures
        (crossing.role@ + " reached "@ + crossing.path@).is_prefix_of(said@),
        crossing.blocked ==> " (blocked)"@.is_suffix_of(said@),
        !crossing.blocked ==> " (warned)"@.is_suffix_of(said@),
{
    let front = crossing.role@ + " reached "@ + crossing.path@;
    let end = if crossing.blocked {
        " (blocked)"@
    } else {
        " (warned)"@
    };
    let word = if crossing.blocked {
        "blocked"@
    } else {
        "warned"@
    };
    assert(" ("@ + word + ")"@ == end) by {
        reveal_strlit(" (");
        reveal_strlit(")");
        reveal_strlit("blocked");
        reveal_strlit("warned");
        reveal_strlit(" (blocked)");
        reveal_strlit(" (warned)");
        assert(" ("@ + word + ")"@ =~= end);
    }
    assert(front + (" ("@ + word + ")"@) =~= front + " ("@ + word + ")"@);
    text::lemma_pieces(front, end);
}

/// A stall is told as detected or as resolved, whichever it is, with its kind and
/// its cause.
#[verifier::rlimit(40)]
pub proof fn a_stall_is_told(stall: StallEvent, said: String)
    requires
        call_ensures(stall_body, (&stall,), said),
    ensures
        stall.status == StallStatus::Detected ==> "detected "@.is_prefix_of(said@),
        stall.status == StallStatus::Resolved ==> "resolved "@.is_prefix_of(said@),
        text::mentions(said@, stall.kind.label_text()),
        stall.detail@.is_suffix_of(said@),
{
    reveal_strlit("detected");
    reveal_strlit("resolved");
    reveal_strlit(" ");
    reveal_strlit("detected ");
    reveal_strlit("resolved ");
    let verb = (if stall.status == StallStatus::Detected {
        "detected"@
    } else {
        "resolved"@
    }) + " "@;
    assert(verb =~= (if stall.status == StallStatus::Detected {
        "detected "@
    } else {
        "resolved "@
    }));
    text::lemma_four_pieces(verb, stall.kind.label_text(), ": "@, stall.detail@);
}

/// A usage reading is told by its percentage, and says that work is paused exactly
/// where it is, and until when where that is known.
pub proof fn a_usage_reading_is_told(usage: UsageEvent, said: String)
    requires
        call_ensures(usage_body, (&usage,), said),
    ensures
        ("subscription at "@ + number::decimal(usage.percent as nat)).is_prefix_of(said@),
        !usage.paused ==> "%; work resumed"@.is_suffix_of(said@),
        usage.paused && usage.window_reset is None ==> "%; new work paused"@.is_suffix_of(said@),
        usage.paused && usage.window_reset is Some ==> ("%; new work paused until "@
            + time::clock_text(usage.window_reset->0)).is_suffix_of(said@),
{
    let reading = "subscription at "@ + number::decimal(usage.percent as nat);
    if usage.paused && usage.window_reset is Some {
        let end = "%; new work paused until "@ + time::clock_text(usage.window_reset->0);
        text::lemma_pieces(reading, end);
        assert(reading + end =~= said@);
    } else if usage.paused {
        text::lemma_pieces(reading, "%; new work paused"@);
    } else {
        text::lemma_pieces(reading, "%; work resumed"@);
    }
}

/// A cost is told in whole dollars and whole cents, of which what is less than a cent
/// is left out.
pub proof fn a_cost_is_told_in_cents(micro_usd: u64, said: String) -> (parts: (nat, nat))
    requires
        call_ensures(dollars, (micro_usd,), said),
    ensures
        parts.1 < 100,
        parts.0 * 1_000_000 + parts.1 * 10_000 <= micro_usd,
        micro_usd < parts.0 * 1_000_000 + (parts.1 + 1) * 10_000,
        said@ == "$"@ + number::decimal(parts.0) + "."@ + time::two_digits(parts.1),
{
    ((micro_usd / 1_000_000) as nat, ((micro_usd % 1_000_000) / 10_000) as nat)
}

/// A spend is told by its role, its tokens and its cost.
pub proof fn a_turn_is_told_by_what_it_spent(report: TelemetryEvent, cost: String, said: String)
    requires
        call_ensures(dollars, (report.cost_micro_usd,), cost),
        call_ensures(telemetry_body, (&report,), said),
    ensures
        (report.role@ + " spent "@ + number::decimal(report.tokens as nat)).is_prefix_of(said@),
        text::mentions(said@, cost@),
{
    let front = report.role@ + " spent "@ + number::decimal(report.tokens as nat);
    text::lemma_four_pieces(front, " tokens ("@, cost@, ")"@);
}

/// A budget report tells both totals against their ceilings, and says which ceiling
/// was reached, if one was.
#[verifier::rlimit(60)]
pub proof fn a_budget_report_is_told(report: BudgetEvent, said: String)
    requires
        call_ensures(budget_body, (&report,), said),
    ensures
        (report.role@ + " spent "@ + number::decimal(report.role_spent as nat)).is_prefix_of(said@),
        report.breach == Some(BudgetScope::Crew) ==> " (budget reached, crew idle-stopped)"@.is_suffix_of(
            said@,
        ),
        report.breach == Some(BudgetScope::Role) ==> text::mentions(
            said@,
            " (cap reached, idle-stopped); crew "@,
        ),
        report.breach is None ==> ("; crew "@ + spend_text(
            report.crew_spent,
            report.crew_budget,
        )).is_suffix_of(said@),
        report.breach == Some(BudgetScope::Role) ==> spend_text(
            report.crew_spent,
            report.crew_budget,
        ).is_suffix_of(said@),
        report.role_cap matches Some(cap) ==> text::mentions(
            said@,
            number::decimal(report.role_spent as nat) + ("/"@ + number::decimal(cap as nat)),
        ),
{
    assert("; crew "@ == "; "@ + "crew "@ && " (cap reached, idle-stopped); crew "@
        == " (cap reached, idle-stopped); "@ + "crew "@) by {
        reveal_strlit("; ");
        reveal_strlit("crew ");
        reveal_strlit("; crew ");
        reveal_strlit(" (cap reached, idle-stopped); ");
        reveal_strlit(" (cap reached, idle-stopped); crew ");
        assert("; crew "@ =~= "; "@ + "crew "@);
        assert(" (cap reached, idle-stopped); crew "@ =~= " (cap reached, idle-stopped); "@
            + "crew "@);
    }
    let spent = number::decimal(report.role_spent as nat);
    let against = spend_text(report.role_spent, report.role_cap);
    let crew = spend_text(report.crew_spent, report.crew_budget);
    let rest = match report.role_cap {
        Some(cap) => "/"@ + number::decimal(cap as nat),
        None => Seq::empty(),
    };
    assert(against =~= spent + rest);
    let mark = match report.breach {
        Some(BudgetScope::Role) => " (cap reached, idle-stopped); crew "@,
        _ => "; crew "@,
    };
    let end = match report.breach {
        Some(BudgetScope::Crew) => " (budget reached, crew idle-stopped)"@,
        _ => Seq::empty(),
    };
    lemma_report_told(report.role@, " spent "@, spent, rest, " tokens"@, mark, crew, end);
    let told = report.role@ + " spent "@ + (spent + rest) + " tokens"@ + mark + crew + end;
    let role = report.role@ + " spent "@ + against + " tokens"@;
    match report.breach {
        Some(BudgetScope::Role) => {
            assert(role + (" (cap reached, idle-stopped); "@ + "crew "@) + crew + end =~= role
                + " (cap reached, idle-stopped); "@ + ("crew "@ + crew));
        },
        Some(BudgetScope::Crew) => {
            assert(role + ("; "@ + "crew "@) + crew + end =~= role + "; "@ + ("crew "@ + crew)
                + end);
        },
        None => {
            assert(role + ("; "@ + "crew "@) + crew + end =~= role + "; "@ + ("crew "@ + crew));
        },
    }
    assert(said@ == told);
}

proof fn lemma_report_told(
    role: Seq<char>,
    verb: Seq<char>,
    spent: Seq<char>,
    rest: Seq<char>,
    unit: Seq<char>,
    mark: Seq<char>,
    crew: Seq<char>,
    end: Seq<char>,
)
    ensures
        ({
            let told = role + verb + (spent + rest) + unit + mark + crew + end;
            &&& (role + verb + spent).is_prefix_of(told)
            &&& end.is_suffix_of(told)
            &&& text::mentions(told, mark)
            &&& text::mentions(told, spent + rest)
            &&& end.len() == 0 ==> (mark + crew).is_suffix_of(told) && crew.is_suffix_of(told)
        }),
{
    let front = role + verb;
    let counted = front + (spent + rest);
    let full = counted + unit;
    let marked = full + mark;
    text::lemma_associative(front, spent, rest);
    text::lemma_pieces(front + spent, rest);
    text::lemma_extends(counted, unit, front + spent);
    text::lemma_extends(full, mark, front + spent);
    text::lemma_extends(marked, crew, front + spent);
    text::lemma_extends(marked + crew, end, front + spent);
    text::lemma_pieces(front, spent + rest);
    text::lemma_extends(counted, unit, spent + rest);
    text::lemma_extends(full, mark, spent + rest);
    text::lemma_extends(marked, crew, spent + rest);
    text::lemma_extends(marked + crew, end, spent + rest);
    text::lemma_pieces(full, mark);
    text::lemma_extends(marked, crew, mark);
    text::lemma_extends(marked + crew, end, mark);
    text::lemma_pieces(marked + crew, end);
    if end.len() == 0 {
        assert(marked + crew + end == marked + crew) by {
            assert(marked + crew + end =~= marked + crew);
        }
        text::lemma_pieces(marked, crew);
        text::lemma_associative(full, mark, crew);
        text::lemma_pieces(full, mark + crew);
    }
}

/// A board change is told by its author and its key, as a retraction exactly where
/// it is one, and an entry with what it says.
#[verifier::rlimit(40)]
pub proof fn a_board_change_is_told(change: BoardEvent, said: String)
    requires
        call_ensures(board_body, (&change,), said),
    ensures
        change.retracted ==> (change.author@ + " retracted `"@ + change.key@).is_prefix_of(said@),
        !change.retracted ==> (change.author@ + " recorded `"@ + change.key@).is_prefix_of(said@)
            && change.body@.is_suffix_of(said@),
        text::mentions(said@, change.section.label_text()),
{
    let section = change.section.label_text();
    if change.retracted {
        text::lemma_four_pieces(
            change.author@ + " retracted `"@ + change.key@,
            "` ("@,
            section,
            ")"@,
        );
    } else {
        let front = change.author@ + " recorded `"@ + change.key@;
        text::lemma_four_pieces(front, "` ("@, section, "): "@ + change.body@);
        assert(front + "` ("@ + section + ("): "@ + change.body@) =~= said@);
        text::lemma_pieces(front + "` ("@ + section + "): "@, change.body@);
    }
}

/// A verification step is told as what it is: a submission by its owner, a pass and a
/// failure by the one who gave the verdict, and only a pass says that the task is
/// done. The acceptance claimed and the failure found are told with them.
#[verifier::rlimit(60)]
pub proof fn a_verification_is_told(step: VerificationEvent, said: String)
    requires
        call_ensures(verification_body, (&step,), said),
    ensures
        ({
            let task = if step.title@.len() == 0 {
                id::uuid_text(step.task.0)
            } else {
                step.title@
            };
            let by = match step.verifier {
                Some(role) => role@,
                None => "the verifier"@,
            };
            &&& step.verdict == Verdict::Submitted ==> (step.owner@ + " submitted `"@
                + task).is_prefix_of(said@)
            &&& step.verdict == Verdict::Passed ==> (by + " passed `"@ + task).is_prefix_of(said@)
                && "); it is done"@.is_suffix_of(said@)
            &&& step.verdict == Verdict::Failed ==> (by + " failed `"@ + task).is_prefix_of(said@)
            &&& step.verdict != Verdict::Passed && step.detail@.len() > 0 ==> (": "@
                + step.detail@).is_suffix_of(said@)
            &&& step.verdict != Verdict::Submitted ==> text::mentions(
                said@,
                "` (owner "@ + step.owner@ + ")"@,
            )
        }),
{
    reveal_strlit("): ");
    reveal_strlit("); it is done");
    reveal_strlit("` for verification: ");
    reveal_strlit("` for verification");
    reveal_strlit(": ");
    reveal_strlit(")");
    let task = task_text(step.title@, step.task);
    let by = match step.verifier {
        Some(role) => role@,
        None => "the verifier"@,
    };
    let owner = "` (owner "@ + step.owner@ + ")"@;
    match step.verdict {
        Verdict::Submitted => {
            let front = step.owner@ + " submitted `"@ + task;
            if step.detail@.len() == 0 {
                text::lemma_pieces(front, "` for verification"@);
            } else {
                let end = ": "@ + step.detail@;
                assert("` for verification: "@ =~= "` for verification"@ + ": "@);
                text::lemma_pieces(front, "` for verification"@ + end);
                assert(front + ("` for verification"@ + end) =~= said@);
                text::lemma_pieces(front + "` for verification"@, end);
                assert(front + "` for verification"@ + end =~= said@);
            }
        },
        Verdict::Passed => {
            let front = by + " passed `"@ + task;
            let done = "); it is done"@.skip(1);
            assert("); it is done"@ =~= ")"@ + done);
            assert(front + owner + done =~= said@);
            text::lemma_mentions(front, owner, done);
            text::lemma_pieces(front, owner + done);
            assert(front + (owner + done) =~= said@);
            let before = front + "` (owner "@ + step.owner@;
            text::lemma_pieces(before, "); it is done"@);
        },
        Verdict::Failed => {
            let front = by + " failed `"@ + task;
            let end = if step.detail@.len() == 0 {
                Seq::<char>::empty()
            } else {
                ": "@ + step.detail@
            };
            assert("): "@ =~= ")"@ + ": "@);
            assert(front + owner + end =~= said@);
            text::lemma_mentions(front, owner, end);
            text::lemma_pieces(front, owner + end);
            assert(front + (owner + end) =~= said@);
            text::lemma_pieces(front + owner, end);
        },
    }
}

/// A completed mission is told with its summary, where it has one.
pub proof fn a_mission_is_told(mission: MissionEvent, said: String)
    requires
        call_ensures(mission_body, (&mission,), said),
    ensures
        "complete"@.is_prefix_of(said@),
        text::trimmed(mission.summary@).is_suffix_of(said@),
        text::trimmed(mission.summary@).len() == 0 ==> said@ == "complete"@,
{
    let summary = text::trimmed(mission.summary@);
    assert("complete: "@ == "complete"@ + ": "@) by {
        reveal_strlit("complete");
        reveal_strlit("complete: ");
        reveal_strlit(": ");
        assert("complete: "@ =~= "complete"@ + ": "@);
    }
    if summary.len() == 0 {
        text::lemma_pieces("complete"@, summary);
        assert("complete"@ + summary =~= "complete"@);
    } else {
        text::lemma_pieces("complete: "@, summary);
        text::lemma_pieces("complete"@, ": "@ + summary);
        assert("complete"@ + (": "@ + summary) =~= "complete: "@ + summary);
    }
}

/// An event is shown under what it is, with what it says, by whom and on which
/// channel.
#[verifier::rlimit(40)]
pub proof fn an_event_is_shown_whole(
    e: Event,
    described: (&'static str, String),
    line: String,
    sender: String,
)
    requires
        call_ensures(describe, (&e.kind,), described),
        call_ensures(render_event, (&e,), line),
        call_ensures(event::sender_label, (&e.from,), sender),
    ensures
        ("["@ + time::clock_text(e.ts) + "] "@ + sender@ + " -> "@ + e.channel@).is_prefix_of(line@),
        described.1@.is_suffix_of(line@),
        text::mentions(line@, " ("@ + described.0@ + ")"@),
        e.kind matches EventKind::Message(message) ==> described.0@ == message.kind.label_text()
            && described.1@ == message.body@,
        e.kind is Lifecycle ==> described.0@ == "lifecycle"@ && described.1@
            == e.kind->Lifecycle_0.name_text(),
        e.kind is Activity ==> described.0@ == "activity"@,
        e.kind is Ledger ==> described.0@ == "ledger"@ && described.1@ == ledger_text(
            e.kind->Ledger_0,
        ),
        e.kind is Boundary ==> described.0@ == "boundary"@ && described.1@ == boundary_text(
            e.kind->Boundary_0,
        ),
        e.kind is Verification ==> described.0@ == "verification"@ && described.1@
            == verification_text(e.kind->Verification_0),
        e.kind is Board ==> described.0@ == "board"@ && described.1@ == board_text(e.kind->Board_0),
        e.kind is Budget ==> described.0@ == "budget"@ && described.1@ == budget_text(
            e.kind->Budget_0,
        ),
        e.kind is Telemetry ==> described.0@ == "telemetry"@ && described.1@ == telemetry_text(
            e.kind->Telemetry_0,
        ),
        e.kind is Usage ==> described.0@ == "usage"@ && described.1@ == usage_text(e.kind->Usage_0),
        e.kind is Stall ==> described.0@ == "stall"@ && described.1@ == stall_text(e.kind->Stall_0),
        e.kind is Mission ==> described.0@ == "mission"@ && described.1@ == mission_text(
            e.kind->Mission_0,
        ),
        e.kind matches EventKind::Activity(Activity::ToolCall { tool }) ==> tool@.is_suffix_of(
            described.1@,
        ),
        e.kind matches EventKind::Activity(Activity::Output { text: said }) ==> described.1@
            == said@,
{
    let front = "["@ + time::clock_text(e.ts) + "] "@ + sender@ + " -> "@ + e.channel@;
    let label = " ("@ + described.0@ + ")"@;
    let body = described.1@;
    let end = if body.len() == 0 {
        Seq::<char>::empty()
    } else {
        " "@ + body
    };
    assert(front + label + end =~= line@);
    text::lemma_mentions(front, label, end);
    text::lemma_pieces(front, label + end);
    assert(front + (label + end) =~= line@);
    if body.len() > 0 {
        text::lemma_pieces(front + label + " "@, body);
        assert(front + label + " "@ + body =~= line@);
    } else {
        assert(line@.subrange(line@.len() as int, line@.len() as int) =~= body);
    }
    if let EventKind::Activity(Activity::ToolCall { tool }) = e.kind {
        text::lemma_pieces("tool "@, tool@);
    }
}

/// A tail that takes a line in commits the place of an event only with the event, and
/// a connection that ended is taken up again where it left off.
pub proof fn a_line_is_taken_in(
    tail: &mut Tail,
    line: &str,
    decoded: bool,
    delivered: bool,
    follow: &mut Follow,
    last_id: Option<u64>,
    step: NextStep,
)
    requires
        call_ensures(Tail::apply_line, (tail, line, decoded), delivered),
        call_ensures(Follow::ended, (follow, last_id), step),
    ensures
        cursor_of(line@) matches Some(n) ==> final(tail).pending == Some(n as u64)
            && final(tail).last_id == old(tail).last_id && !delivered,
        cursor_of(line@) is None && "data:"@.is_prefix_of(line@) && decoded ==> {
            &&& delivered && final(tail).pending is None
            &&& old(tail).pending is Some ==> final(tail).last_id == old(tail).pending
            &&& old(tail).pending is None ==> final(tail).last_id == old(tail).last_id
        },
        cursor_of(line@) is None && !("data:"@.is_prefix_of(line@) && decoded) ==> !delivered
            && *final(tail) == *old(tail),
        step == NextStep::Reconnect && final(follow).connected,
        last_id is Some ==> final(follow).resume_from == last_id,
        last_id is None ==> final(follow).resume_from == old(follow).resume_from,
{
    a_line_moves_the_tail(*old(tail), line@, decoded);
}

/// A reader whose very first connection is refused gives up; one that has been
/// connected tries again, from the last event it was given.
pub proof fn a_reader_that_was_connected_tries_again(
    started: Follow,
    refused: NextStep,
    follow: &mut Follow,
    last_id: Option<u64>,
    ended: NextStep,
    later: NextStep,
)
    requires
        call_ensures(Follow::start, (), started),
        call_ensures(Follow::refused, (&started,), refused),
        call_ensures(Follow::ended, (follow, last_id), ended),
        call_ensures(Follow::refused, (final(follow),), later),
    ensures
        refused == NextStep::Fail && started.resume_from is None,
        ended == NextStep::Reconnect && later == NextStep::Reconnect,
        last_id is Some ==> final(follow).resume_from == last_id,
{
}

} // verus!
