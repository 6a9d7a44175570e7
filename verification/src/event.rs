//! The event model: one typed stream item, and the kinds it can carry.
use vstd::prelude::*;

use crate::budget::BudgetScope;
use crate::id::{ChannelId, MessageId, RoleId, Sender, TaskId};
use crate::time::Timestamp;

verus! {

/// A single, typed, addressed item on the crew event stream.
#[derive(Debug, Clone, PartialEq, Eq)]
pub struct Event {
    /// When the event occurred.
    pub ts: Timestamp,
    /// Who emitted it: a role, or the General (the human).
    pub from: Sender,
    /// The channel it was addressed to.
    pub channel: ChannelId,
    /// The task it belongs to, when a task context applies.
    pub task: Option<TaskId>,
    /// The payload: what kind of event this is.
    pub kind: EventKind,
}

/// The kinds of item on the event stream.
#[derive(Debug, Clone, PartialEq, Eq)]
pub enum EventKind {
    /// Inter-agent communication.
    Message(Message),
    /// An agent's supervised lifecycle transition.
    Lifecycle(Lifecycle),
    /// An agent's own work.
    Activity(Activity),
    /// A claim on the work ledger.
    Ledger(LedgerEvent),
    /// A lane crossing.
    Boundary(BoundaryEvent),
    /// A done-gate verification step.
    Verification(VerificationEvent),
    /// A situation-board change.
    Board(BoardEvent),
    /// A token-spend report against the crew budget.
    Budget(BudgetEvent),
    /// A per-turn token-and-cost usage report.
    Telemetry(TelemetryEvent),
    /// A shared-subscription usage reading.
    Usage(UsageEvent),
    /// A coordination stall.
    Stall(StallEvent),
    /// The mission's completion.
    Mission(MissionEvent),
}

/// An inter-agent message: a typed intent, its per-kind fields, and a markdown
/// body.
#[derive(Debug, Clone, PartialEq, Eq)]
pub struct Message {
    /// The message's unique id, referenced when an `answer` replies to a
    /// `question`.
    pub id: MessageId,
    /// The typed intent and its per-kind structured fields.
    pub kind: MessageKind,
    /// The markdown body: freeform detail alongside the structured fields.
    pub body: String,
}

/// The typed intent of a [`Message`] and its per-kind structured fields.
#[derive(Debug, Clone, PartialEq, Eq)]
pub enum MessageKind {
    /// Gives a task to a role.
    Order {
        /// A short title for the task.
        title: String,
        /// What is in and out of scope.
        scope: String,
        /// The paths the role owns while working the task.
        owned_paths: Vec<String>,
        /// How the task is judged done.
        acceptance: String,
    },
    /// Asks for a decision, with optional suggested options.
    Question {
        /// Suggested options for the answer, if any.
        options: Vec<String>,
    },
    /// Responds to a question.
    Answer,
    /// Reports progress without asking anything.
    Status,
    /// References a produced thing: a branch, a PR, a file, or a route.
    Artifact {
        /// The reference to the produced thing.
        reference: String,
        /// What kind of artifact the reference points to.
        artifact_kind: ArtifactKind,
    },
    /// Freeform prose for anything the other kinds do not cover.
    Note,
    /// Steers a role mid-task without stopping it.
    Redirect,
    /// Halts a role's current work and re-tasks it.
    Belay,
    /// Asks the General to sign off a risky action.
    ApprovalRequest {
        /// The action's label.
        action: String,
    },
    /// Grants or denies an approval request.
    ApprovalDecision {
        /// The request it answers.
        in_reply_to: MessageId,
        /// Whether the request is granted.
        granted: bool,
    },
}

impl MessageKind {
    /// The wire label of the intent.
    pub open spec fn label_text(self) -> Seq<char> {
        match self {
            MessageKind::Order { .. } => "order"@,
            MessageKind::Question { .. } => "question"@,
            MessageKind::Answer => "answer"@,
            MessageKind::Status => "status"@,
            MessageKind::Artifact { .. } => "artifact"@,
            MessageKind::Note => "note"@,
            MessageKind::Redirect => "redirect"@,
            MessageKind::Belay => "belay"@,
            MessageKind::ApprovalRequest { .. } => "approval_request"@,
            MessageKind::ApprovalDecision { .. } => "approval_decision"@,
        }
    }

    /// Whether the message is a directive: a `redirect` or a `belay`.
    pub open spec fn directive(self) -> bool {
        self is Redirect || self is Belay
    }

    /// Whether the role must honor the message at once: a `redirect` or a
    /// `belay`.
    pub fn is_directive(&self) -> (r: bool)
        ensures
            r == self.directive(),
    {
        match self {
            MessageKind::Redirect | MessageKind::Belay => true,
            _ => false,
        }
    }
}

/// What a [`MessageKind::Artifact`] reference points to.
#[derive(Debug, Clone, Copy, PartialEq, Eq, Hash, Structural)]
pub enum ArtifactKind {
    /// A git branch.
    Branch,
    /// A pull request.
    PullRequest,
    /// A file.
    File,
    /// A route: a URL path the crew produced or touched.
    Route,
}

/// An agent's supervised lifecycle state.
#[derive(Debug, Clone, Copy, PartialEq, Eq, Hash, Structural)]
pub enum Lifecycle {
    /// The agent process started.
    Started,
    /// The agent went idle, with no work in flight.
    Idle,
    /// The agent was stopped.
    Stopped,
    /// The agent was restarted.
    Restarted,
    /// The agent died mid-flight.
    Died,
    /// The agent recovered.
    Recovered,
    /// The role was paused.
    Paused,
    /// The role was resumed.
    Resumed,
    /// The crew stood down.
    StoodDown,
    /// The mission was reported complete.
    MissionComplete,
}

impl Lifecycle {
    /// The state's name in lower case.
    pub open spec fn name_text(self) -> Seq<char> {
        match self {
            Lifecycle::Started => "started"@,
            Lifecycle::Idle => "idle"@,
            Lifecycle::Stopped => "stopped"@,
            Lifecycle::Restarted => "restarted"@,
            Lifecycle::Died => "died"@,
            Lifecycle::Recovered => "recovered"@,
            Lifecycle::Paused => "paused"@,
            Lifecycle::Resumed => "resumed"@,
            Lifecycle::StoodDown => "stooddown"@,
            Lifecycle::MissionComplete => "missioncomplete"@,
        }
    }

    /// The state's name in lower case.
    pub fn name(self) -> (r: &'static str)
        ensures
            r@ == self.name_text(),
    {
        match self {
            Lifecycle::Started => "started",
            Lifecycle::Idle => "idle",
            Lifecycle::Stopped => "stopped",
            Lifecycle::Restarted => "restarted",
            Lifecycle::Died => "died",
            Lifecycle::Recovered => "recovered",
            Lifecycle::Paused => "paused",
            Lifecycle::Resumed => "resumed",
            Lifecycle::StoodDown => "stooddown",
            Lifecycle::MissionComplete => "missioncomplete",
        }
    }
}

/// An agent's own work item.
#[derive(Debug, Clone, PartialEq, Eq)]
pub enum Activity {
    /// A turn began.
    TurnStarted,
    /// A turn ended.
    TurnEnded,
    /// The agent called a tool.
    ToolCall {
        /// The tool's name.
        tool: String,
    },
    /// The agent produced text output.
    Output {
        /// The output text.
        text: String,
    },
    /// Anything else on the agent's stream.
    Other {
        /// The item as it came.
        raw: String,
    },
}

/// The state of a claim on the work ledger.
#[derive(Debug, Clone, Copy, PartialEq, Eq, Structural)]
pub enum LedgerState {
    /// Claimed, not started.
    Claimed,
    /// Under way.
    InProgress,
    /// Stuck.
    Blocked,
    /// Finished.
    Done,
}

impl LedgerState {
    /// The wire label.
    pub open spec fn label_text(self) -> Seq<char> {
        match self {
            LedgerState::Claimed => "claimed"@,
            LedgerState::InProgress => "in_progress"@,
            LedgerState::Blocked => "blocked"@,
            LedgerState::Done => "done"@,
        }
    }

    /// The wire label.
    pub fn label(self) -> (r: &'static str)
        ensures
            r@ == self.label_text(),
    {
        match self {
            LedgerState::Claimed => "claimed",
            LedgerState::InProgress => "in_progress",
            LedgerState::Blocked => "blocked",
            LedgerState::Done => "done",
        }
    }
}

/// A claim on the work ledger, or its move to another state.
#[derive(Debug, Clone, PartialEq, Eq)]
pub struct LedgerEvent {
    /// The task.
    pub task: TaskId,
    /// The task's human title, or empty.
    pub title: String,
    /// The role that owns the claim.
    pub owner: RoleId,
    /// The claim's state.
    pub state: LedgerState,
}

/// A role reaching a path outside its lane.
#[derive(Debug, Clone, PartialEq, Eq)]
pub struct BoundaryEvent {
    /// The role.
    pub role: RoleId,
    /// The path it reached.
    pub path: String,
    /// Whether the edit was refused.
    pub blocked: bool,
}

/// Where a task stands in the done-gate.
#[derive(Debug, Clone, Copy, PartialEq, Eq, Structural)]
pub enum Verdict {
    /// Submitted for verification.
    Submitted,
    /// Passed by an independent role.
    Passed,
    /// Failed and returned to its owner.
    Failed,
}

/// A done-gate verification step.
#[derive(Debug, Clone, PartialEq, Eq)]
pub struct VerificationEvent {
    /// The task.
    pub task: TaskId,
    /// The task's human title, or empty.
    pub title: String,
    /// The role that submitted the work.
    pub owner: RoleId,
    /// The role that returned the verdict, if one has.
    pub verifier: Option<RoleId>,
    /// Where the task stands.
    pub verdict: Verdict,
    /// The acceptance claimed, or the failure on a handback.
    pub detail: String,
}

/// A section of the situation board.
#[derive(Debug, Clone, Copy, PartialEq, Eq, Structural)]
pub enum BoardSection {
    /// A decision and its rationale.
    Decision,
    /// An agreed interface.
    Interface,
    /// A known gotcha.
    Gotcha,
}

impl BoardSection {
    /// The wire label.
    pub open spec fn label_text(self) -> Seq<char> {
        match self {
            BoardSection::Decision => "decision"@,
            BoardSection::Interface => "interface"@,
            BoardSection::Gotcha => "gotcha"@,
        }
    }

    /// The wire label.
    pub fn label(self) -> (r: &'static str)
        ensures
            r@ == self.label_text(),
    {
        match self {
            BoardSection::Decision => "decision",
            BoardSection::Interface => "interface",
            BoardSection::Gotcha => "gotcha",
        }
    }
}

/// A situation-board change.
#[derive(Debug, Clone, PartialEq, Eq)]
pub struct BoardEvent {
    /// The entry's key.
    pub key: String,
    /// The entry's section.
    pub section: BoardSection,
    /// The role that changed it.
    pub author: RoleId,
    /// The entry's content.
    pub body: String,
    /// Whether the entry was retracted.
    pub retracted: bool,
}

/// A token-spend report against the crew budget.
#[derive(Debug, Clone, PartialEq, Eq)]
pub struct BudgetEvent {
    /// The role whose turn this spend belongs to.
    pub role: RoleId,
    /// The role's cumulative spend.
    pub role_spent: u64,
    /// The role's cap, if it has one.
    pub role_cap: Option<u64>,
    /// The crew's cumulative spend.
    pub crew_spent: u64,
    /// The crew-wide budget, if there is one.
    pub crew_budget: Option<u64>,
    /// The ceiling newly crossed, if any.
    pub breach: Option<BudgetScope>,
}

/// A per-turn token-and-cost usage report.
#[derive(Debug, Clone, PartialEq, Eq)]
pub struct TelemetryEvent {
    /// The role.
    pub role: RoleId,
    /// The tokens the turn spent.
    pub tokens: u64,
    /// The cost in millionths of a dollar.
    pub cost_micro_usd: u64,
}

/// A shared-subscription usage reading.
#[derive(Debug, Clone, PartialEq, Eq)]
pub struct UsageEvent {
    /// The reading, in percent.
    pub percent: u64,
    /// Whether new work is paused.
    pub paused: bool,
    /// When the window resets, if known.
    pub window_reset: Option<Timestamp>,
}

/// What kind of coordination stall the monitor saw.
#[derive(Debug, Clone, Copy, PartialEq, Eq, Structural)]
pub enum StallKind {
    /// Roles wait on each other in a circle.
    Deadlock,
    /// A question has waited too long for its answer.
    UnansweredQuestion,
    /// A claim on the ledger does not move.
    LedgerStall,
}

impl StallKind {
    /// The wire label.
    pub open spec fn label_text(self) -> Seq<char> {
        match self {
            StallKind::Deadlock => "deadlock"@,
            StallKind::UnansweredQuestion => "unanswered_question"@,
            StallKind::LedgerStall => "ledger_stall"@,
        }
    }

    /// The wire label.
    pub fn label(self) -> (r: &'static str)
        ensures
            r@ == self.label_text(),
    {
        match self {
            StallKind::Deadlock => "deadlock",
            StallKind::UnansweredQuestion => "unanswered_question",
            StallKind::LedgerStall => "ledger_stall",
        }
    }
}

/// Whether a stall was detected or has cleared.
#[derive(Debug, Clone, Copy, PartialEq, Eq, Structural)]
pub enum StallStatus {
    /// Newly detected.
    Detected,
    /// Cleared.
    Resolved,
}

/// A coordination stall the monitor surfaced.
#[derive(Debug, Clone, PartialEq, Eq)]
pub struct StallEvent {
    /// What kind of stall it is.
    pub kind: StallKind,
    /// Whether it was detected or has cleared.
    pub status: StallStatus,
    /// The roles involved.
    pub roles: Vec<RoleId>,
    /// The specific cause.
    pub detail: String,
}

/// The mission's completion.
#[derive(Debug, Clone, PartialEq, Eq)]
pub struct MissionEvent {
    /// What the mission shipped, or empty.
    pub summary: String,
}

/// A sender's label: a role's id, or `general`.
pub open spec fn sender_text(from: Sender) -> Seq<char> {
    match from {
        Sender::Role(role) => role@,
        Sender::General => "general"@,
    }
}

/// A sender's label: a role's id, or `general`.
pub fn sender_label(from: &Sender) -> (r: String)
    ensures
        r@ == sender_text(*from),
{
    match from {
        Sender::Role(role) => role.as_str().to_owned(),
        Sender::General => "general".to_owned(),
    }
}

/// The wire label for a message's typed intent.
pub fn message_kind_label(kind: &MessageKind) -> (r: &'static str)
    ensures
        r@ == kind.label_text(),
{
    match kind {
        MessageKind::Order { .. } => "order",
        MessageKind::Question { .. } => "question",
        MessageKind::Answer => "answer",
        MessageKind::Status => "status",
        MessageKind::Artifact { .. } => "artifact",
        MessageKind::Note => "note",
        MessageKind::Redirect => "redirect",
        MessageKind::Belay => "belay",
        MessageKind::ApprovalRequest { .. } => "approval_request",
        MessageKind::ApprovalDecision { .. } => "approval_decision",
    }
}

/// No two intents share a label, and only a redirect and a belay must be honored at
/// once.
pub proof fn an_intent_has_its_own_label(
    a: MessageKind,
    b: MessageKind,
    label_a: &'static str,
    label_b: &'static str,
    urgent: bool,
)
    requires
        call_ensures(message_kind_label, (&a,), label_a),
        call_ensures(message_kind_label, (&b,), label_b),
        call_ensures(MessageKind::is_directive, (&a,), urgent),
    ensures
        label_a@ == label_b@ ==> (a is Order <==> b is Order) && (a is Question <==> b is Question)
            && (a is Answer <==> b is Answer) && (a is Status <==> b is Status) && (a is Artifact
            <==> b is Artifact) && (a is Note <==> b is Note) && (a is Redirect <==> b is Redirect)
            && (a is Belay <==> b is Belay) && (a is ApprovalRequest <==> b is ApprovalRequest) && (
        a is ApprovalDecision <==> b is ApprovalDecision),
        urgent <==> a is Redirect || a is Belay,
        a is Redirect <==> label_a@ == "redirect"@,
        a is Belay <==> label_a@ == "belay"@,
        a is Order <==> label_a@ == "order"@,
{
    reveal_strlit("order");
    reveal_strlit("question");
    reveal_strlit("answer");
    reveal_strlit("status");
    reveal_strlit("artifact");
    reveal_strlit("note");
    reveal_strlit("redirect");
    reveal_strlit("belay");
    reveal_strlit("approval_request");
    reveal_strlit("approval_decision");
    assert("order"@[0] == 'o' && "question"@[0] == 'q' && "answer"@[0] == 'a' && "status"@[0] == 's'
        && "artifact"@[0] == 'a' && "note"@[0] == 'n' && "redirect"@[0] == 'r' && "belay"@[0] == 'b');
    assert("order"@.len() == 5 && "question"@.len() == 8 && "answer"@.len() == 6 && "status"@.len()
        == 6 && "artifact"@.len() == 8 && "note"@.len() == 4 && "redirect"@.len() == 8
        && "belay"@.len() == 5 && "approval_request"@.len() == 16 && "approval_decision"@.len()
        == 17);
}

/// No two states of a claim share a label, nor two sections of the board, nor two
/// kinds of stall, nor two lifecycle states.
pub proof fn labels_tell_states_apart(
    a: LedgerState,
    b: LedgerState,
    c: BoardSection,
    d: BoardSection,
    e: StallKind,
    f: StallKind,
    g: Lifecycle,
    h: Lifecycle,
)
    ensures
        a.label_text() == b.label_text() ==> a == b,
        c.label_text() == d.label_text() ==> c == d,
        e.label_text() == f.label_text() ==> e == f,
        g.name_text() == h.name_text() ==> g == h,
{
    reveal_strlit("claimed");
    reveal_strlit("in_progress");
    reveal_strlit("blocked");
    reveal_strlit("done");
    assert("claimed"@[0] == 'c' && "in_progress"@[0] == 'i' && "blocked"@[0] == 'b' && "done"@[0]
        == 'd');
    reveal_strlit("decision");
    reveal_strlit("interface");
    reveal_strlit("gotcha");
    assert("decision"@[0] == 'd' && "interface"@[0] == 'i' && "gotcha"@[0] == 'g');
    reveal_strlit("deadlock");
    reveal_strlit("unanswered_question");
    reveal_strlit("ledger_stall");
    assert("deadlock"@[0] == 'd' && "unanswered_question"@[0] == 'u' && "ledger_stall"@[0] == 'l');
    reveal_strlit("started");
    reveal_strlit("idle");
    reveal_strlit("stopped");
    reveal_strlit("restarted");
    reveal_strlit("died");
    reveal_strlit("recovered");
    reveal_strlit("paused");
    reveal_strlit("resumed");
    reveal_strlit("stooddown");
    reveal_strlit("missioncomplete");
    assert("started"@[2] == 'a' && "stopped"@[2] == 'o' && "stooddown"@.len() == 9
        && "stopped"@.len() == 7 && "started"@.len() == 7 && "idle"@[0] == 'i' && "died"@[0] == 'd'
        && "paused"@[0] == 'p' && "missioncomplete"@[0] == 'm' && "restarted"@[0] == 'r'
        && "recovered"@[0] == 'r' && "resumed"@[0] == 'r' && "restarted"@[2] == 's'
        && "recovered"@[2] == 'c' && "resumed"@.len() == 7 && "restarted"@.len() == 9
        && "started"@[0] == 's' && "stopped"@[0] == 's' && "stooddown"@[0] == 's'
        && "idle"@.len() == 4);
}

/// A sender is shown by its role's name, the General as `general`.
pub proof fn a_sender_is_shown_by_name(from: Sender, label: String)
    requires
        call_ensures(sender_label, (&from,), label),
    ensures
        from matches Sender::Role(role) ==> label@ == role@,
        from == Sender::General ==> label@ == "general"@,
{
}

} // verus!
