//! The crew's tools, as an agent sees them: their names, what they say of
//! themselves, and the arguments they take.
use vstd::prelude::*;

use crate::client;
use crate::json::{Fields, Items, Json, JsonView};
use crate::text;

verus! {

/// What `crew_send` says of itself.
pub const SEND_DOC: &'static str =
    "Send a message to a teammate or a channel, as your role. By default it goes to the \
     commander (the unit's router), so an unaddressed note reaches the lead. Set `to` to \
     direct-message one role (for example `to: \"backend\"` reaches only backend). Set \
     `channel` to post to a named channel: `all-units` reaches the whole unit, and a pair \
     like `frontend+backend` reaches just those two. Give at most one of `to` or \
     `channel`; give neither to reach the commander. Use crew_order, not this, to assign \
     a scoped task. `body` is the message text.";

/// What `crew_order` says of itself.
pub const ORDER_DOC: &'static str =
    "Issue an order: assign a scoped task to one specialist, as your role. This is the \
     commander's fan-out handle for decomposing the General's brief into work. It \
     direct-messages `to` an `order` the specialist can act on: `title` names the task, \
     `scope` says what is in and out, `owned_paths` are the paths it owns while working, \
     and `acceptance` is how it is judged done. `body` adds any freeform detail. The \
     order also claims the task for the specialist on the work ledger, so assigned work \
     shows up without a manual crew_claim; the specialist moves that claim forward as it \
     works. Use crew_send for a plain message.";

/// What `crew_redirect` says of itself.
pub const REDIRECT_DOC: &'static str =
    "Steer a specialist mid-task without stopping it, as your role: a typed `redirect` \
     the specialist honors at its next tool boundary, keeping its current task and \
     adjusting course. Use this, not crew_send, to nudge a role already working: it is a \
     first-class directive a front-end flags and the specialist acts on at once. It \
     direct-messages one role, like crew_order; `to` is the specialist and `body` is the \
     new direction. Use crew_belay instead to halt and re-task it.";

/// What `crew_belay` says of itself.
pub const BELAY_DOC: &'static str =
    "Halt a specialist's current work and re-task it, as your role: a typed `belay` the \
     specialist honors at its next tool boundary, stopping what it is doing and taking \
     `body` as its new order. Use this, not crew_send, when a role must abandon its \
     current task, not just adjust it. It direct-messages one role, like crew_order; `to` \
     is the specialist and `body` is the new order. Use crew_redirect instead to steer \
     without stopping.";

/// What `crew_ask` says of itself.
pub const ASK_DOC: &'static str =
    "Ask a typed question and wait on a decision, as your role. Use this, not crew_send, \
     when you need an answer before you can proceed: a question is a first-class message \
     the unit tracks, so an unanswered one surfaces a coordination stall or deadlock \
     instead of stalling silently. Target it like crew_send: `to` a single role, \
     `channel` for `all-units` or a pair, or neither to reach the commander. `body` is \
     the question; `options` optionally lists suggested answers.";

/// What `crew_answer` says of itself.
pub const ANSWER_DOC: &'static str =
    "Answer a question a teammate asked, as your role, clearing the wait it was blocked \
     on. `in_reply_to` is the id of the question you are answering, shown in your inbox \
     as `[id ...]`; naming it threads the reply to its question. Target it like \
     crew_send: `to` the asker, or a `channel`. `body` is the answer.";

/// What `crew_status` says of itself.
pub const STATUS_DOC: &'static str =
    "Report progress as your role, without asking anything: a typed `status`, not a plain \
     note, so a front-end renders it as a progress update and a view that keys on status \
     sees it. Use crew_ask instead when you need an answer to proceed. Target it like \
     crew_send: `to` a role, a `channel`, or neither to reach the commander. `body` is \
     the progress note.";

/// What `crew_artifact` says of itself.
pub const ARTIFACT_DOC: &'static str =
    "Reference a thing you produced, as your role: a typed `artifact` pointing at a \
     branch, a pull request, a file, or a route, so a teammate or a front-end can find \
     and link it rather than parse it out of prose. `reference` is the thing (a branch \
     name, a PR URL, a file path, or a route) and `artifact_kind` says which of the four \
     it is. Target it like crew_send: `to` a role, a `channel`, or neither to reach the \
     commander. `body` adds any freeform detail.";

/// What `crew_inbox` says of itself.
pub const INBOX_DOC: &'static str =
    "Read the messages addressed to you since you last called this. Returns messages on \
     your direct `@role` channel, any pair channel you belong to, and `all-units`, and \
     never your own. Each carries an `[id ...]` you can pass to crew_answer to reply to a \
     question. Call it to catch up on what teammates have sent you.";

/// What `crew_roster` says of itself.
pub const ROSTER_DOC: &'static str =
    "List the unit's roles: each teammate, the paths (lanes) it owns, and whether it is \
     working, idle, stopped, or dead. Use it to see who is on the team and what they own \
     before sending or claiming work.";

/// What `crew_lane` says of itself.
pub const LANE_DOC: &'static str =
    "Check whether a file `path` is inside your owned lane before you edit it, so you do \
     not wander into a teammate's lane. An in-lane path is yours: proceed. An out-of-lane \
     path is reported to the unit; do not edit it silently, route the change through the \
     commander (crew_send) instead. Under a blocking policy the edit is refused. Call it \
     before editing outside your obvious lane.";

/// What `crew_claim` says of itself.
pub const CLAIM_DOC: &'static str =
    "Claim a piece of work before you start it, so no two roles touch the same work. \
     `task` is a stable key the crew agrees on (a path, a feature, an order's title). If \
     another role already holds it, this fails and names the holder: coordinate, do not \
     race. Call it again with `state` to move your claim forward: `in_progress` when you \
     start, `blocked` if you are stuck, and `done` when you finish (which frees the \
     task). `title` is an optional human label.";

/// What `crew_ledger` says of itself.
pub const LEDGER_DOC: &'static str =
    "Read the work ledger: every claimed task, who owns it, and its state. Check it \
     before claiming, so you never grab work a teammate already holds.";

/// What `crew_submit` says of itself.
pub const SUBMIT_DOC: &'static str =
    "Submit your finished work for adversarial verification instead of reporting it done \
     yourself. Done means verified, not asserted: an independent role tries to break it \
     against the acceptance criteria before it counts as done. `task` is the task title \
     (match the order's title), `acceptance` restates the criteria the work must meet, \
     and `to` optionally names the verifier to notify (for example `to: \"qa\"`). This \
     does not mark the task done; wait for the verdict, and if it fails, fix the specific \
     failure and resubmit.";

/// What `crew_verdict` says of itself.
pub const VERDICT_DOC: &'static str =
    "Return a verdict on a task another role submitted for verification. You are the \
     skeptic: actively try to break the work against its acceptance criteria. Set `pass` \
     true only if you could not break it, which marks the task done. Set `pass` false and \
     give the specific, actionable `failure` if you broke it, which returns the work to \
     its owner to fix. You cannot verify your own work: an independent role must judge \
     it. `task` is the task title.";

/// What `crew_gate` says of itself.
pub const GATE_DOC: &'static str =
    "Read the done-gate: every task under verification, who owns it, who is verifying it, \
     and whether it is submitted, passed, or failed. Use it to see what is awaiting an \
     independent verifier and what has been proven done.";

/// What `crew_complete` says of itself.
pub const COMPLETE_DOC: &'static str =
    "Report the whole mission gracefully complete, the crew's version of signing off. \
     Call this, typically as the commander, only when the work is truly done (every task \
     verified through the done-gate), so the General is pulled back on a real finish. \
     This is a graceful completion, not the emergency stand-down, and it does not halt \
     the crew; it announces the mission is done. Pass a short `summary` of what shipped: \
     it is rendered in the completion notification, so the General reads the outcome at a \
     glance.";

/// What `crew_board` says of itself.
pub const BOARD_DOC: &'static str =
    "Read the shared situation board: the crew's durable memory of agreed interfaces, \
     decisions and their rationale, and known gotchas. Check it before you re-derive a \
     settled decision or re-litigate a choice; it outlives the message stream and \
     survives a restart. Pass `section` to read just `decision`, `interface`, or \
     `gotcha`.";

/// What `crew_record` says of itself.
pub const RECORD_DOC: &'static str =
    "Record a decision, an agreed interface, or a known gotcha on the shared situation \
     board, so the crew stops re-deriving it. `key` is a stable topic (for example \
     `auth-strategy`); recording the same key again updates the entry. `section` is \
     `decision`, `interface`, or `gotcha`, and `body` is the content (for a decision, \
     include the rationale). Set `retract: true` with just the `key` to remove an entry \
     the crew no longer holds. The commander curates the board: only the entry's author \
     or the commander may retract one, so route a retraction of another role's entry \
     through the commander.";

/// What `crew_briefing` says of itself.
pub const BRIEFING_DOC: &'static str =
    "Get your bounded briefing packet: the current decision board and a rolling summary \
     scoped to your lane (what has been said to you and about your work), instead of \
     reading the whole log. Call this first thing when you boot to catch up in seconds. \
     `budget` optionally caps the packet size in bytes; `task` optionally narrows the \
     summary to one task's id.";

/// A tool of the crew.
#[derive(Debug, Clone, Copy, PartialEq, Eq, Structural)]
pub enum Tool {
    /// Send a message.
    Send,
    /// Assign a scoped task.
    Order,
    /// Steer a specialist without stopping it.
    Redirect,
    /// Halt a specialist and re-task it.
    Belay,
    /// Ask a typed question.
    Ask,
    /// Answer a question.
    Answer,
    /// Report progress.
    Status,
    /// Reference a produced thing.
    Artifact,
    /// Read the new messages.
    Inbox,
    /// List the roles.
    Roster,
    /// Check a path against the lane.
    Lane,
    /// Claim work, or move a claim forward.
    Claim,
    /// Read the work ledger.
    Ledger,
    /// Submit work for verification.
    Submit,
    /// Judge submitted work.
    Verdict,
    /// Read the done-gate.
    Gate,
    /// Report the mission complete.
    Complete,
    /// Read the situation board.
    Board,
    /// Record or retract a board entry.
    Record,
    /// Get the briefing packet.
    Briefing,
}

/// The schema of an argument of some type.
pub open spec fn property(of: Seq<char>, description: Seq<char>) -> JsonView {
    JsonView::Object(
        seq![client::says("type"@, of), client::says("description"@, description)],
    )
}

/// The schema of a list of strings.
pub open spec fn list_property(description: Seq<char>) -> JsonView {
    JsonView::Object(
        seq![
            client::says("type"@, "array"@),
            client::member("items"@, JsonView::Object(seq![client::says("type"@, "string"@)])),
            client::says("description"@, description),
        ],
    )
}

/// The schema of a string out of a few.
pub open spec fn choice_property(choices: Seq<Seq<char>>, description: Seq<char>) -> JsonView {
    JsonView::Object(
        seq![
            client::says("type"@, "string"@),
            client::member("enum"@, JsonView::Array(client::all_texts(choices))),
            client::says("description"@, description),
        ],
    )
}

/// The board's sections.
pub open spec fn sections() -> Seq<Seq<char>> {
    seq!["decision"@, "interface"@, "gotcha"@]
}

/// The kinds of artifact.
pub open spec fn artifact_kinds() -> Seq<Seq<char>> {
    seq!["branch"@, "pull_request"@, "file"@, "route"@]
}

/// The states of a claim.
pub open spec fn ledger_states() -> Seq<Seq<char>> {
    seq!["claimed"@, "in_progress"@, "blocked"@, "done"@]
}

impl Tool {
    /// The name it is called by.
    pub open spec fn name_text(self) -> Seq<char> {
        match self {
            Tool::Send => "crew_send"@,
            Tool::Order => "crew_order"@,
            Tool::Redirect => "crew_redirect"@,
            Tool::Belay => "crew_belay"@,
            Tool::Ask => "crew_ask"@,
            Tool::Answer => "crew_answer"@,
            Tool::Status => "crew_status"@,
            Tool::Artifact => "crew_artifact"@,
            Tool::Inbox => "crew_inbox"@,
            Tool::Roster => "crew_roster"@,
            Tool::Lane => "crew_lane"@,
            Tool::Claim => "crew_claim"@,
            Tool::Ledger => "crew_ledger"@,
            Tool::Submit => "crew_submit"@,
            Tool::Verdict => "crew_verdict"@,
            Tool::Gate => "crew_gate"@,
            Tool::Complete => "crew_complete"@,
            Tool::Board => "crew_board"@,
            Tool::Record => "crew_record"@,
            Tool::Briefing => "crew_briefing"@,
        }
    }

    /// What it says of itself.
    pub open spec fn description_text(self) -> Seq<char> {
        match self {
            Tool::Send => SEND_DOC@,
            Tool::Order => ORDER_DOC@,
            Tool::Redirect => REDIRECT_DOC@,
            Tool::Belay => BELAY_DOC@,
            Tool::Ask => ASK_DOC@,
            Tool::Answer => ANSWER_DOC@,
            Tool::Status => STATUS_DOC@,
            Tool::Artifact => ARTIFACT_DOC@,
            Tool::Inbox => INBOX_DOC@,
            Tool::Roster => ROSTER_DOC@,
            Tool::Lane => LANE_DOC@,
            Tool::Claim => CLAIM_DOC@,
            Tool::Ledger => LEDGER_DOC@,
            Tool::Submit => SUBMIT_DOC@,
            Tool::Verdict => VERDICT_DOC@,
            Tool::Gate => GATE_DOC@,
            Tool::Complete => COMPLETE_DOC@,
            Tool::Board => BOARD_DOC@,
            Tool::Record => RECORD_DOC@,
            Tool::Briefing => BRIEFING_DOC@,
        }
    }

    /// The arguments it takes, each with its schema.
    pub open spec fn properties(self) -> Seq<(Seq<char>, JsonView)> {
        match self {
            Tool::Send => seq![
                client::member("to"@, property("string"@, "A role to direct-message (its @role channel)."@)),
                client::member("channel"@, property("string"@, "A channel name: `all-units`, or a pair like `frontend+backend`."@)),
                client::member("body"@, property("string"@, "The message text (markdown)."@)),
            ],
            Tool::Order => seq![
                client::member("to"@, property("string"@, "The specialist role to order (its @role channel)."@)),
                client::member("title"@, property("string"@, "A short title for the task."@)),
                client::member("scope"@, property("string"@, "What is in and out of scope."@)),
                client::member("owned_paths"@, list_property("The paths the role owns while working the task."@)),
                client::member("acceptance"@, property("string"@, "How the task is judged done."@)),
                client::member("body"@, property("string"@, "Optional freeform detail (markdown)."@)),
            ],
            Tool::Redirect => seq![
                client::member("to"@, property("string"@, "The specialist role to steer (its @role channel)."@)),
                client::member("body"@, property("string"@, "The new direction to fold into the current task (markdown)."@)),
            ],
            Tool::Belay => seq![
                client::member("to"@, property("string"@, "The specialist role to halt and re-task (its @role channel)."@)),
                client::member("body"@, property("string"@, "The new order that replaces the current task (markdown)."@)),
            ],
            Tool::Ask => seq![
                client::member("to"@, property("string"@, "A role to ask directly (its @role channel)."@)),
                client::member("channel"@, property("string"@, "A channel name: `all-units`, or a pair like `frontend+backend`."@)),
                client::member("body"@, property("string"@, "The question (markdown)."@)),
                client::member("options"@, list_property("Optional suggested answers to choose from."@)),
            ],
            Tool::Answer => seq![
                client::member("to"@, property("string"@, "The role to answer (usually the asker's @role channel)."@)),
                client::member("channel"@, property("string"@, "A channel name, if the question was asked on one."@)),
                client::member("body"@, property("string"@, "The answer (markdown)."@)),
                client::member("in_reply_to"@, property("string"@, "The id of the question being answered (from your inbox)."@)),
            ],
            Tool::Status => seq![
                client::member("to"@, property("string"@, "A role to report to (its @role channel)."@)),
                client::member("channel"@, property("string"@, "A channel name: `all-units`, or a pair like `frontend+backend`."@)),
                client::member("body"@, property("string"@, "The progress note (markdown)."@)),
            ],
            Tool::Artifact => seq![
                client::member("to"@, property("string"@, "A role to send to (its @role channel)."@)),
                client::member("channel"@, property("string"@, "A channel name: `all-units`, or a pair like `frontend+backend`."@)),
                client::member("reference"@, property("string"@, "The produced thing: a branch name, a PR URL, a file path, or a route."@)),
                client::member("artifact_kind"@, choice_property(artifact_kinds(), "Which kind of thing `reference` points to."@)),
                client::member("body"@, property("string"@, "Optional freeform detail (markdown)."@)),
            ],
            Tool::Inbox => seq![],
            Tool::Roster => seq![],
            Tool::Lane => seq![
                client::member("path"@, property("string"@, "The repo-relative file path you are about to edit."@)),
            ],
            Tool::Claim => seq![
                client::member("task"@, property("string"@, "The work item's key (a path, feature, or order title)."@)),
                client::member("state"@, choice_property(ledger_states(), "The state to move it to; defaults to `claimed`."@)),
                client::member("title"@, property("string"@, "An optional short label for the ledger."@)),
            ],
            Tool::Ledger => seq![],
            Tool::Submit => seq![
                client::member("task"@, property("string"@, "The task title, matching the order it came from."@)),
                client::member("acceptance"@, property("string"@, "The acceptance criteria the work claims to meet."@)),
                client::member("to"@, property("string"@, "An optional verifier role to notify (for example `qa`)."@)),
            ],
            Tool::Verdict => seq![
                client::member("task"@, property("string"@, "The task title under verification."@)),
                client::member("pass"@, property("boolean"@, "True if you could not break it (marks it done); false if you broke it."@)),
                client::member("failure"@, property("string"@, "The specific failure when `pass` is false, so the handback is actionable."@)),
            ],
            Tool::Gate => seq![],
            Tool::Complete => seq![
                client::member("summary"@, property("string"@, "A short summary of what the mission shipped, shown in the completion notification."@)),
            ],
            Tool::Board => seq![
                client::member("section"@, choice_property(sections(), "Read just this section; omit for the whole board."@)),
            ],
            Tool::Record => seq![
                client::member("key"@, property("string"@, "The entry's stable topic key."@)),
                client::member("section"@, choice_property(sections(), "The section; required unless retracting."@)),
                client::member("body"@, property("string"@, "The entry's content; required unless retracting."@)),
                client::member("retract"@, property("boolean"@, "Remove the entry named by `key` instead of recording one."@)),
            ],
            Tool::Briefing => seq![
                client::member("budget"@, property("integer"@, "Cap the packet size in bytes (defaults to a few KB)."@)),
                client::member("task"@, property("string"@, "Narrow the summary to the task id, if you have one."@)),
            ],
        }
    }

    /// The arguments it cannot do without.
    pub open spec fn required(self) -> Seq<Seq<char>> {
        match self {
            Tool::Send => seq!["body"@],
            Tool::Order => seq!["to"@, "title"@],
            Tool::Redirect => seq!["to"@, "body"@],
            Tool::Belay => seq!["to"@, "body"@],
            Tool::Ask => seq!["body"@],
            Tool::Answer => seq!["body"@, "in_reply_to"@],
            Tool::Status => seq!["body"@],
            Tool::Artifact => seq!["reference"@, "artifact_kind"@],
            Tool::Inbox => seq![],
            Tool::Roster => seq![],
            Tool::Lane => seq!["path"@],
            Tool::Claim => seq!["task"@],
            Tool::Ledger => seq![],
            Tool::Submit => seq!["task"@],
            Tool::Verdict => seq!["task"@, "pass"@],
            Tool::Gate => seq![],
            Tool::Complete => seq![],
            Tool::Board => seq![],
            Tool::Record => seq!["key"@],
            Tool::Briefing => seq![],
        }
    }

    /// The tool as it is listed: its name, its description, and the schema of
    /// its arguments.
    pub open spec fn schema(self) -> JsonView {
        let arguments = seq![
            client::says("type"@, "object"@),
            client::member("properties"@, JsonView::Object(self.properties())),
        ];
        let required = client::member("required"@, JsonView::Array(client::all_texts(self.required())));
        JsonView::Object(
            seq![
                client::says("name"@, self.name_text()),
                client::says("description"@, self.description_text()),
                client::member(
                    "inputSchema"@,
                    JsonView::Object(
                        if self.required().len() == 0 {
                            arguments
                        } else {
                            arguments.push(required)
                        },
                    ),
                ),
            ],
        )
    }

    /// The tool called by a name.
    pub open spec fn named(name: Seq<char>) -> Option<Tool> {
        if name == Tool::Send.name_text() {
            Some(Tool::Send)
        } else if name == Tool::Order.name_text() {
            Some(Tool::Order)
        } else if name == Tool::Redirect.name_text() {
            Some(Tool::Redirect)
        } else if name == Tool::Belay.name_text() {
            Some(Tool::Belay)
        } else if name == Tool::Ask.name_text() {
            Some(Tool::Ask)
        } else if name == Tool::Answer.name_text() {
            Some(Tool::Answer)
        } else if name == Tool::Status.name_text() {
            Some(Tool::Status)
        } else if name == Tool::Artifact.name_text() {
            Some(Tool::Artifact)
        } else if name == Tool::Inbox.name_text() {
            Some(Tool::Inbox)
        } else if name == Tool::Roster.name_text() {
            Some(Tool::Roster)
        } else if name == Tool::Lane.name_text() {
            Some(Tool::Lane)
        } else if name == Tool::Claim.name_text() {
            Some(Tool::Claim)
        } else if name == Tool::Ledger.name_text() {
            Some(Tool::Ledger)
        } else if name == Tool::Submit.name_text() {
            Some(Tool::Submit)
        } else if name == Tool::Verdict.name_text() {
            Some(Tool::Verdict)
        } else if name == Tool::Gate.name_text() {
            Some(Tool::Gate)
        } else if name == Tool::Complete.name_text() {
            Some(Tool::Complete)
        } else if name == Tool::Board.name_text() {
            Some(Tool::Board)
        } else if name == Tool::Record.name_text() {
            Some(Tool::Record)
        } else if name == Tool::Briefing.name_text() {
            Some(Tool::Briefing)
        } else {
            None
        }
    }

    /// The tool called by `name`.
    pub fn parse(name: &str) -> (r: Option<Tool>)
        ensures
            r == Tool::named(name@),
    {
        if text::same(name, Tool::Send.name()) {
            Some(Tool::Send)
        } else if text::same(name, Tool::Order.name()) {
            Some(Tool::Order)
        } else if text::same(name, Tool::Redirect.name()) {
            Some(Tool::Redirect)
        } else if text::same(name, Tool::Belay.name()) {
            Some(Tool::Belay)
        } else if text::same(name, Tool::Ask.name()) {
            Some(Tool::Ask)
        } else if text::same(name, Tool::Answer.name()) {
            Some(Tool::Answer)
        } else if text::same(name, Tool::Status.name()) {
            Some(Tool::Status)
        } else if text::same(name, Tool::Artifact.name()) {
            Some(Tool::Artifact)
        } else if text::same(name, Tool::Inbox.name()) {
            Some(Tool::Inbox)
        } else if text::same(name, Tool::Roster.name()) {
            Some(Tool::Roster)
        } else if text::same(name, Tool::Lane.name()) {
            Some(Tool::Lane)
        } else if text::same(name, Tool::Claim.name()) {
            Some(Tool::Claim)
        } else if text::same(name, Tool::Ledger.name()) {
            Some(Tool::Ledger)
        } else if text::same(name, Tool::Submit.name()) {
            Some(Tool::Submit)
        } else if text::same(name, Tool::Verdict.name()) {
            Some(Tool::Verdict)
        } else if text::same(name, Tool::Gate.name()) {
            Some(Tool::Gate)
        } else if text::same(name, Tool::Complete.name()) {
            Some(Tool::Complete)
        } else if text::same(name, Tool::Board.name()) {
            Some(Tool::Board)
        } else if text::same(name, Tool::Record.name()) {
            Some(Tool::Record)
        } else if text::same(name, Tool::Briefing.name()) {
            Some(Tool::Briefing)
        } else {
            None
        }
    }

    /// The name it is called by.
    pub fn name(self) -> (r: &'static str)
        ensures
            r@ == self.name_text(),
    {
        match self {
            Tool::Send => "crew_send",
            Tool::Order => "crew_order",
            Tool::Redirect => "crew_redirect",
            Tool::Belay => "crew_belay",
            Tool::Ask => "crew_ask",
            Tool::Answer => "crew_answer",
            Tool::Status => "crew_status",
            Tool::Artifact => "crew_artifact",
            Tool::Inbox => "crew_inbox",
            Tool::Roster => "crew_roster",
            Tool::Lane => "crew_lane",
            Tool::Claim => "crew_claim",
            Tool::Ledger => "crew_ledger",
            Tool::Submit => "crew_submit",
            Tool::Verdict => "crew_verdict",
            Tool::Gate => "crew_gate",
            Tool::Complete => "crew_complete",
            Tool::Board => "crew_board",
            Tool::Record => "crew_record",
            Tool::Briefing => "crew_briefing",
        }
    }

    /// What it says of itself.
    pub fn description(self) -> (r: &'static str)
        ensures
            r@ == self.description_text(),
    {
        match self {
            Tool::Send => SEND_DOC,
            Tool::Order => ORDER_DOC,
            Tool::Redirect => REDIRECT_DOC,
            Tool::Belay => BELAY_DOC,
            Tool::Ask => ASK_DOC,
            Tool::Answer => ANSWER_DOC,
            Tool::Status => STATUS_DOC,
            Tool::Artifact => ARTIFACT_DOC,
            Tool::Inbox => INBOX_DOC,
            Tool::Roster => ROSTER_DOC,
            Tool::Lane => LANE_DOC,
            Tool::Claim => CLAIM_DOC,
            Tool::Ledger => LEDGER_DOC,
            Tool::Submit => SUBMIT_DOC,
            Tool::Verdict => VERDICT_DOC,
            Tool::Gate => GATE_DOC,
            Tool::Complete => COMPLETE_DOC,
            Tool::Board => BOARD_DOC,
            Tool::Record => RECORD_DOC,
            Tool::Briefing => BRIEFING_DOC,
        }
    }

    /// The arguments it takes, under construction.
    fn argument_schemas(self) -> (r: Fields)
        ensures
            r@ == self.properties(),
    {
        let fields = match self {
            Tool::Send => Fields::new()
                .with("to", of_type("string", "A role to direct-message (its @role channel)."))
                .with("channel", of_type("string", "A channel name: `all-units`, or a pair like `frontend+backend`."))
                .with("body", of_type("string", "The message text (markdown).")),
            Tool::Order => Fields::new()
                .with("to", of_type("string", "The specialist role to order (its @role channel)."))
                .with("title", of_type("string", "A short title for the task."))
                .with("scope", of_type("string", "What is in and out of scope."))
                .with("owned_paths", of_list("The paths the role owns while working the task."))
                .with("acceptance", of_type("string", "How the task is judged done."))
                .with("body", of_type("string", "Optional freeform detail (markdown).")),
            Tool::Redirect => Fields::new()
                .with("to", of_type("string", "The specialist role to steer (its @role channel)."))
                .with("body", of_type("string", "The new direction to fold into the current task (markdown).")),
            Tool::Belay => Fields::new()
                .with("to", of_type("string", "The specialist role to halt and re-task (its @role channel)."))
                .with("body", of_type("string", "The new order that replaces the current task (markdown).")),
            Tool::Ask => Fields::new()
                .with("to", of_type("string", "A role to ask directly (its @role channel)."))
                .with("channel", of_type("string", "A channel name: `all-units`, or a pair like `frontend+backend`."))
                .with("body", of_type("string", "The question (markdown)."))
                .with("options", of_list("Optional suggested answers to choose from.")),
            Tool::Answer => Fields::new()
                .with("to", of_type("string", "The role to answer (usually the asker's @role channel)."))
                .with("channel", of_type("string", "A channel name, if the question was asked on one."))
                .with("body", of_type("string", "The answer (markdown)."))
                .with("in_reply_to", of_type("string", "The id of the question being answered (from your inbox).")),
            Tool::Status => Fields::new()
                .with("to", of_type("string", "A role to report to (its @role channel)."))
                .with("channel", of_type("string", "A channel name: `all-units`, or a pair like `frontend+backend`."))
                .with("body", of_type("string", "The progress note (markdown).")),
            Tool::Artifact => Fields::new()
                .with("to", of_type("string", "A role to send to (its @role channel)."))
                .with("channel", of_type("string", "A channel name: `all-units`, or a pair like `frontend+backend`."))
                .with("reference", of_type("string", "The produced thing: a branch name, a PR URL, a file path, or a route."))
                .with("artifact_kind", of_choice(artifact_kind_names(), "Which kind of thing `reference` points to."))
                .with("body", of_type("string", "Optional freeform detail (markdown).")),
            Tool::Inbox => Fields::new(),
            Tool::Roster => Fields::new(),
            Tool::Lane => Fields::new()
                .with("path", of_type("string", "The repo-relative file path you are about to edit.")),
            Tool::Claim => Fields::new()
                .with("task", of_type("string", "The work item's key (a path, feature, or order title)."))
                .with("state", of_choice(ledger_state_names(), "The state to move it to; defaults to `claimed`."))
                .with("title", of_type("string", "An optional short label for the ledger.")),
            Tool::Ledger => Fields::new(),
            Tool::Submit => Fields::new()
                .with("task", of_type("string", "The task title, matching the order it came from."))
                .with("acceptance", of_type("string", "The acceptance criteria the work claims to meet."))
                .with("to", of_type("string", "An optional verifier role to notify (for example `qa`).")),
            Tool::Verdict => Fields::new()
                .with("task", of_type("string", "The task title under verification."))
                .with("pass", of_type("boolean", "True if you could not break it (marks it done); false if you broke it."))
                .with("failure", of_type("string", "The specific failure when `pass` is false, so the handback is actionable.")),
            Tool::Gate => Fields::new(),
            Tool::Complete => Fields::new()
                .with("summary", of_type("string", "A short summary of what the mission shipped, shown in the completion notification.")),
            Tool::Board => Fields::new()
                .with("section", of_choice(section_names(), "Read just this section; omit for the whole board.")),
            Tool::Record => Fields::new()
                .with("key", of_type("string", "The entry's stable topic key."))
                .with("section", of_choice(section_names(), "The section; required unless retracting."))
                .with("body", of_type("string", "The entry's content; required unless retracting."))
                .with("retract", of_type("boolean", "Remove the entry named by `key` instead of recording one.")),
            Tool::Briefing => Fields::new()
                .with("budget", of_type("integer", "Cap the packet size in bytes (defaults to a few KB)."))
                .with("task", of_type("string", "Narrow the summary to the task id, if you have one.")),
        };
        assert(fields@ =~= self.properties());
        fields
    }

    /// The arguments it cannot do without, under construction.
    fn required_names(self) -> (r: Items)
        ensures
            r@ == client::all_texts(self.required()),
    {
        let names = match self {
            Tool::Send => Items::new().with(Json::text("body")),
            Tool::Order => Items::new().with(Json::text("to")).with(Json::text("title")),
            Tool::Redirect => Items::new().with(Json::text("to")).with(Json::text("body")),
            Tool::Belay => Items::new().with(Json::text("to")).with(Json::text("body")),
            Tool::Ask => Items::new().with(Json::text("body")),
            Tool::Answer => Items::new().with(Json::text("body")).with(Json::text("in_reply_to")),
            Tool::Status => Items::new().with(Json::text("body")),
            Tool::Artifact => Items::new().with(Json::text("reference")).with(Json::text("artifact_kind")),
            Tool::Inbox => Items::new(),
            Tool::Roster => Items::new(),
            Tool::Lane => Items::new().with(Json::text("path")),
            Tool::Claim => Items::new().with(Json::text("task")),
            Tool::Ledger => Items::new(),
            Tool::Submit => Items::new().with(Json::text("task")),
            Tool::Verdict => Items::new().with(Json::text("task")).with(Json::text("pass")),
            Tool::Gate => Items::new(),
            Tool::Complete => Items::new(),
            Tool::Board => Items::new(),
            Tool::Record => Items::new().with(Json::text("key")),
            Tool::Briefing => Items::new(),
        };
        assert(names@ =~= client::all_texts(self.required()));
        names
    }

    /// The tool as it is listed.
    pub fn listing(self) -> (r: Json)
        ensures
            r@ == self.schema(),
    {
        let arguments = Fields::new().with("type", Json::text("object")).with(
            "properties",
            self.argument_schemas().build(),
        );
        let required = self.required_names();
        let arguments = if required.is_empty() {
            arguments.build()
        } else {
            arguments.with("required", required.build()).build()
        };
        let whole = Fields::new().with("name", Json::text(self.name())).with(
            "description",
            Json::text(self.description()),
        ).with("inputSchema", arguments).build();
        proof {
            let plain = seq![
                client::says("type"@, "object"@),
                client::member("properties"@, JsonView::Object(self.properties())),
            ];
            let required = client::member(
                "required"@,
                JsonView::Array(client::all_texts(self.required())),
            );
            if self.required().len() == 0 {
                assert(arguments@->Object_0 =~= plain);
            } else {
                assert(arguments@->Object_0 =~= plain.push(required));
            }
            assert(whole@->Object_0 =~= self.schema()->Object_0);
        }
        whole
    }
}

/// The schema of an argument of some type.
fn of_type(of: &str, description: &str) -> (r: Json)
    ensures
        r@ == property(of@, description@),
{
    let schema = Fields::new().with("type", Json::text(of)).with(
        "description",
        Json::text(description),
    ).build();
    assert(schema@->Object_0 =~= property(of@, description@)->Object_0);
    schema
}

/// The schema of a list of strings.
fn of_list(description: &str) -> (r: Json)
    ensures
        r@ == list_property(description@),
{
    let items = Fields::new().with("type", Json::text("string")).build();
    assert(items@->Object_0 =~= seq![client::says("type"@, "string"@)]);
    let schema = Fields::new().with("type", Json::text("array")).with("items", items).with(
        "description",
        Json::text(description),
    ).build();
    assert(schema@->Object_0 =~= list_property(description@)->Object_0);
    schema
}

/// The schema of a string out of a few.
fn of_choice(choices: Items, description: &str) -> (r: Json)
    ensures
        forall|texts: Seq<Seq<char>>|
            choices@ == #[trigger] client::all_texts(texts) ==> r@ == choice_property(texts, description@),
{
    let schema = Fields::new().with("type", Json::text("string")).with("enum", choices.build()).with(
        "description",
        Json::text(description),
    ).build();
    assert forall|texts: Seq<Seq<char>>| choices@ == #[trigger] client::all_texts(texts) implies schema@
        == choice_property(texts, description@) by {
        assert(schema@->Object_0 =~= choice_property(texts, description@)->Object_0);
    }
    schema
}

/// The board's sections, under construction.
fn section_names() -> (r: Items)
    ensures
        r@ == client::all_texts(sections()),
{
    let names = Items::new().with(Json::text("decision")).with(Json::text("interface")).with(
        Json::text("gotcha"),
    );
    assert(names@ =~= client::all_texts(sections()));
    names
}

/// The kinds of artifact, under construction.
fn artifact_kind_names() -> (r: Items)
    ensures
        r@ == client::all_texts(artifact_kinds()),
{
    let names = Items::new().with(Json::text("branch")).with(Json::text("pull_request")).with(
        Json::text("file"),
    ).with(Json::text("route"));
    assert(names@ =~= client::all_texts(artifact_kinds()));
    names
}

/// The states of a claim, under construction.
fn ledger_state_names() -> (r: Items)
    ensures
        r@ == client::all_texts(ledger_states()),
{
    let names = Items::new().with(Json::text("claimed")).with(Json::text("in_progress")).with(
        Json::text("blocked"),
    ).with(Json::text("done"));
    assert(names@ =~= client::all_texts(ledger_states()));
    names
}

/// The listings of some tools.
pub open spec fn listings(tools: Seq<Tool>) -> Seq<JsonView> {
    tools.map_values(|tool: Tool| tool.schema())
}

/// The messaging tools: send a note, order a specialist, steer or halt one, ask
/// and answer a question, and report a status or an artifact.
pub open spec fn messaging_group() -> Seq<Tool> {
    seq![Tool::Send, Tool::Order, Tool::Redirect, Tool::Belay, Tool::Ask, Tool::Answer, Tool::Status, Tool::Artifact]
}

/// The messaging tools: send a note, order a specialist, steer or halt one, ask
/// and answer a question, and report a status or an artifact.
pub fn messaging_tools() -> (r: Items)
    ensures
        r@ == listings(messaging_group()),
{
    let tools = Items::new()
        .with(Tool::Send.listing())
        .with(Tool::Order.listing())
        .with(Tool::Redirect.listing())
        .with(Tool::Belay.listing())
        .with(Tool::Ask.listing())
        .with(Tool::Answer.listing())
        .with(Tool::Status.listing())
        .with(Tool::Artifact.listing());
    assert(tools@ =~= listings(messaging_group()));
    tools
}

/// The coordination tools: read the inbox and roster, and check a lane.
pub open spec fn coordination_group() -> Seq<Tool> {
    seq![Tool::Inbox, Tool::Roster, Tool::Lane]
}

/// The coordination tools: read the inbox and roster, and check a lane.
pub fn coordination_tools() -> (r: Items)
    ensures
        r@ == listings(coordination_group()),
{
    let tools = Items::new()
        .with(Tool::Inbox.listing())
        .with(Tool::Roster.listing())
        .with(Tool::Lane.listing());
    assert(tools@ =~= listings(coordination_group()));
    tools
}

/// The work-ledger tools: claim a task or move a claim forward, and read the
/// ledger.
pub open spec fn ledger_group() -> Seq<Tool> {
    seq![Tool::Claim, Tool::Ledger]
}

/// The work-ledger tools: claim a task or move a claim forward, and read the
/// ledger.
pub fn ledger_tools() -> (r: Items)
    ensures
        r@ == listings(ledger_group()),
{
    let tools = Items::new()
        .with(Tool::Claim.listing())
        .with(Tool::Ledger.listing());
    assert(tools@ =~= listings(ledger_group()));
    tools
}

/// The done-gate tools: submit work, judge it, read where it stands, and report
/// the mission complete.
pub open spec fn done_gate_group() -> Seq<Tool> {
    seq![Tool::Submit, Tool::Verdict, Tool::Gate, Tool::Complete]
}

/// The done-gate tools: submit work, judge it, read where it stands, and report
/// the mission complete.
pub fn done_gate_tools() -> (r: Items)
    ensures
        r@ == listings(done_gate_group()),
{
    let tools = Items::new()
        .with(Tool::Submit.listing())
        .with(Tool::Verdict.listing())
        .with(Tool::Gate.listing())
        .with(Tool::Complete.listing());
    assert(tools@ =~= listings(done_gate_group()));
    tools
}

/// The situation-board tools: read the crew's durable memory, and record or
/// retract an entry.
pub open spec fn board_group() -> Seq<Tool> {
    seq![Tool::Board, Tool::Record]
}

/// The situation-board tools: read the crew's durable memory, and record or
/// retract an entry.
pub fn board_tools() -> (r: Items)
    ensures
        r@ == listings(board_group()),
{
    let tools = Items::new()
        .with(Tool::Board.listing())
        .with(Tool::Record.listing());
    assert(tools@ =~= listings(board_group()));
    tools
}

/// The briefing tool: catch up with a bounded packet instead of the whole log.
pub open spec fn briefing_group() -> Seq<Tool> {
    seq![Tool::Briefing]
}

/// The briefing tool: catch up with a bounded packet instead of the whole log.
pub fn briefing_tools() -> (r: Items)
    ensures
        r@ == listings(briefing_group()),
{
    let tools = Items::new()
        .with(Tool::Briefing.listing());
    assert(tools@ =~= listings(briefing_group()));
    tools
}

/// Every tool, in the order they are listed.
pub open spec fn all_tools() -> Seq<Tool> {
    messaging_group() + coordination_group() + ledger_group() + done_gate_group() + board_group() + briefing_group()
}

/// The tool catalog: messaging, coordination, work ledger, done-gate, board,
/// briefing.
pub fn tool_catalog() -> (r: Json)
    ensures
        r@ == JsonView::Array(listings(all_tools())),
{
    let tools = messaging_tools()
        .extended(coordination_tools())
        .extended(ledger_tools())
        .extended(done_gate_tools())
        .extended(board_tools())
        .extended(briefing_tools());
    assert(tools@ =~= listings(all_tools()));
    tools.build()
}

/// Every tool's name leads back to the tool, so no two tools share one.
pub proof fn names_lead_back(tool: Tool)
    ensures
        Tool::named(tool.name_text()) == Some(tool),
{
    reveal_strlit("crew_send");
    reveal_strlit("crew_order");
    reveal_strlit("crew_redirect");
    reveal_strlit("crew_belay");
    reveal_strlit("crew_ask");
    reveal_strlit("crew_answer");
    reveal_strlit("crew_status");
    reveal_strlit("crew_artifact");
    reveal_strlit("crew_inbox");
    reveal_strlit("crew_roster");
    reveal_strlit("crew_lane");
    reveal_strlit("crew_claim");
    reveal_strlit("crew_ledger");
    reveal_strlit("crew_submit");
    reveal_strlit("crew_verdict");
    reveal_strlit("crew_gate");
    reveal_strlit("crew_complete");
    reveal_strlit("crew_board");
    reveal_strlit("crew_record");
    reveal_strlit("crew_briefing");
    assert("crew_send"@.len() == 9);
    assert("crew_order"@.len() == 10);
    assert("crew_redirect"@.len() == 13);
    assert("crew_belay"@.len() == 10);
    assert("crew_ask"@.len() == 8);
    assert("crew_answer"@.len() == 11);
    assert("crew_status"@.len() == 11);
    assert("crew_artifact"@.len() == 13);
    assert("crew_inbox"@.len() == 10);
    assert("crew_roster"@.len() == 11);
    assert("crew_lane"@.len() == 9);
    assert("crew_claim"@.len() == 10);
    assert("crew_ledger"@.len() == 11);
    assert("crew_submit"@.len() == 11);
    assert("crew_verdict"@.len() == 12);
    assert("crew_gate"@.len() == 9);
    assert("crew_complete"@.len() == 13);
    assert("crew_board"@.len() == 10);
    assert("crew_record"@.len() == 11);
    assert("crew_briefing"@.len() == 13);
    assert("crew_send"@[5] != "crew_lane"@[5]);
    assert("crew_send"@[5] != "crew_gate"@[5]);
    assert("crew_order"@[5] != "crew_belay"@[5]);
    assert("crew_order"@[5] != "crew_inbox"@[5]);
    assert("crew_order"@[5] != "crew_claim"@[5]);
    assert("crew_order"@[5] != "crew_board"@[5]);
    assert("crew_redirect"@[5] != "crew_artifact"@[5]);
    assert("crew_redirect"@[5] != "crew_complete"@[5]);
    assert("crew_redirect"@[5] != "crew_briefing"@[5]);
    assert("crew_belay"@[5] != "crew_inbox"@[5]);
    assert("crew_belay"@[5] != "crew_claim"@[5]);
    assert("crew_belay"@[6] != "crew_board"@[6]);
    assert("crew_answer"@[5] != "crew_status"@[5]);
    assert("crew_answer"@[5] != "crew_roster"@[5]);
    assert("crew_answer"@[5] != "crew_ledger"@[5]);
    assert("crew_answer"@[5] != "crew_submit"@[5]);
    assert("crew_answer"@[5] != "crew_record"@[5]);
    assert("crew_status"@[5] != "crew_roster"@[5]);
    assert("crew_status"@[5] != "crew_ledger"@[5]);
    assert("crew_status"@[6] != "crew_submit"@[6]);
    assert("crew_status"@[5] != "crew_record"@[5]);
    assert("crew_artifact"@[5] != "crew_complete"@[5]);
    assert("crew_artifact"@[5] != "crew_briefing"@[5]);
    assert("crew_inbox"@[5] != "crew_claim"@[5]);
    assert("crew_inbox"@[5] != "crew_board"@[5]);
    assert("crew_roster"@[5] != "crew_ledger"@[5]);
    assert("crew_roster"@[5] != "crew_submit"@[5]);
    assert("crew_roster"@[6] != "crew_record"@[6]);
    assert("crew_lane"@[5] != "crew_gate"@[5]);
    assert("crew_claim"@[5] != "crew_board"@[5]);
    assert("crew_ledger"@[5] != "crew_submit"@[5]);
    assert("crew_ledger"@[5] != "crew_record"@[5]);
    assert("crew_submit"@[5] != "crew_record"@[5]);
    assert("crew_complete"@[5] != "crew_briefing"@[5]);
}

/// The catalog lists every tool, each once.
pub proof fn the_catalog_lists_every_tool(tool: Tool)
    ensures
        exists|i: int|
            0 <= i < all_tools().len() && all_tools()[i] == tool && forall|j: int|
                0 <= j < all_tools().len() && #[trigger] all_tools()[j] == tool ==> j == i,
{
    let all = all_tools();
    let i: int = match tool {
        Tool::Send => 0,
        Tool::Order => 1,
        Tool::Redirect => 2,
        Tool::Belay => 3,
        Tool::Ask => 4,
        Tool::Answer => 5,
        Tool::Status => 6,
        Tool::Artifact => 7,
        Tool::Inbox => 8,
        Tool::Roster => 9,
        Tool::Lane => 10,
        Tool::Claim => 11,
        Tool::Ledger => 12,
        Tool::Submit => 13,
        Tool::Verdict => 14,
        Tool::Gate => 15,
        Tool::Complete => 16,
        Tool::Board => 17,
        Tool::Record => 18,
        Tool::Briefing => 19,
    };
    assert(all =~= seq![Tool::Send, Tool::Order, Tool::Redirect, Tool::Belay, Tool::Ask, Tool::Answer, Tool::Status, Tool::Artifact, Tool::Inbox, Tool::Roster, Tool::Lane, Tool::Claim, Tool::Ledger, Tool::Submit, Tool::Verdict, Tool::Gate, Tool::Complete, Tool::Board, Tool::Record, Tool::Briefing]);
    assert(all[i] == tool);
    assert forall|j: int| 0 <= j < all.len() && #[trigger] all[j] == tool implies j == i by {
    }
}

/// A tool is called by the name it is listed under, and no other tool is.
pub proof fn a_tool_is_called_by_its_listed_name(
    tool: Tool,
    listing: Json,
    name: &str,
    called: Option<Tool>,
)
    requires
        call_ensures(Tool::listing, (tool,), listing),
        call_ensures(Tool::parse, (name,), called),
    ensures
        listing@.get("name"@) matches Some(JsonView::Text(listed)) && (called == Some(tool) <==> name@
            == listed),
{
    let whole = listing@->Object_0;
    client::lemma_lookup_at(whole, "name"@, 0);
    names_lead_back(tool);
}

/// A tool's listing says what each argument is, and every argument the tool cannot do
/// without is among them.
pub proof fn a_required_argument_is_described(tool: Tool, listing: Json, k: int) -> (at: int)
    requires
        call_ensures(Tool::listing, (tool,), listing),
        0 <= k < tool.required().len(),
    ensures
        listing@.get("inputSchema"@) matches Some(schema) && {
            &&& schema.get("properties"@) == Some(JsonView::Object(tool.properties()))
            &&& schema.get("required"@) matches Some(JsonView::Array(names)) && k < names.len()
                && names[k] == JsonView::Text(tool.required()[k])
        },
        0 <= at < tool.properties().len(),
        tool.properties()[at].0 == tool.required()[k],
{
    reveal_strlit("name");
    reveal_strlit("description");
    reveal_strlit("inputSchema");
    reveal_strlit("type");
    reveal_strlit("properties");
    reveal_strlit("required");
    let whole = listing@->Object_0;
    assert("name"@.len() == 4 && "description"@.len() == 11 && "inputSchema"@[0] == 'i');
    assert("description"@[0] == 'd');
    client::lemma_lookup_at(whole, "inputSchema"@, 2);
    let arguments = whole[2].1->Object_0;
    assert("type"@.len() == 4 && "properties"@.len() == 10 && "required"@.len() == 8);
    client::lemma_lookup_at(arguments, "properties"@, 1);
    client::lemma_lookup_at(arguments, "required"@, 2);
    match tool {
        Tool::Send => 2,
        Tool::Order => k,
        Tool::Redirect => k,
        Tool::Belay => k,
        Tool::Ask => 2,
        Tool::Answer => 2 + k,
        Tool::Status => 2,
        Tool::Artifact => 2 + k,
        _ => k,
    }
}

/// An argument is a string or a list of strings, but for the two switches and the
/// byte count.
pub proof fn an_argument_is_listed_with_its_type(tool: Tool, k: int)
    requires
        0 <= k < tool.properties().len(),
    ensures
        tool.properties()[k].1.get("type"@) matches Some(JsonView::Text(of)) && {
            let name = tool.properties()[k].0;
            &&& of == "boolean"@ <==> (name == "pass"@ || name == "retract"@)
            &&& of == "integer"@ <==> name == "budget"@
            &&& of == "array"@ <==> (name == "owned_paths"@ || name == "options"@)
            &&& of == "string"@ || of == "boolean"@ || of == "integer"@ || of == "array"@
        },
{
    reveal_strlit("string");
    reveal_strlit("boolean");
    reveal_strlit("integer");
    reveal_strlit("array");
    assert("string"@.len() == 6 && "boolean"@.len() == 7 && "integer"@.len() == 7 && "array"@.len()
        == 5);
    assert("boolean"@[0] == 'b' && "integer"@[0] == 'i');
    client::lemma_lookup_at(tool.properties()[k].1->Object_0, "type"@, 0);
    lemma_argument_names_differ(tool.properties()[k].0);
}

/// The last character and the length tell the named arguments from all others.
proof fn lemma_argument_names_differ(name: Seq<char>)
    ensures
        name == "to"@ || name == "channel"@ || name == "body"@ || name == "title"@ || name
            == "scope"@ || name == "acceptance"@ || name == "in_reply_to"@ || name == "reference"@
            || name == "artifact_kind"@ || name == "path"@ || name == "task"@ || name == "state"@
            || name == "failure"@ || name == "summary"@ || name == "section"@ || name == "key"@
            ==> name != "pass"@ && name != "retract"@ && name != "budget"@ && name
            != "owned_paths"@ && name != "options"@,
        "pass"@ != "retract"@ && "pass"@ != "budget"@ && "pass"@ != "owned_paths"@ && "pass"@
            != "options"@,
        "retract"@ != "budget"@ && "retract"@ != "owned_paths"@ && "retract"@ != "options"@,
        "budget"@ != "owned_paths"@ && "budget"@ != "options"@ && "owned_paths"@ != "options"@,
{
    reveal_strlit("to");
    reveal_strlit("channel");
    reveal_strlit("body");
    reveal_strlit("title");
    reveal_strlit("scope");
    reveal_strlit("acceptance");
    reveal_strlit("in_reply_to");
    reveal_strlit("reference");
    reveal_strlit("artifact_kind");
    reveal_strlit("path");
    reveal_strlit("task");
    reveal_strlit("state");
    reveal_strlit("failure");
    reveal_strlit("summary");
    reveal_strlit("section");
    reveal_strlit("key");
    reveal_strlit("pass");
    reveal_strlit("retract");
    reveal_strlit("budget");
    reveal_strlit("owned_paths");
    reveal_strlit("options");
    assert("pass"@.len() == 4 && "pass"@[3] == 's');
    assert("body"@[3] == 'y' && "path"@[3] == 'h' && "task"@[3] == 'k');
    assert("retract"@.len() == 7 && "retract"@[0] == 'r');
    assert("options"@.len() == 7 && "options"@[0] == 'o');
    assert("channel"@[0] == 'c' && "failure"@[0] == 'f' && "summary"@[0] == 's' && "section"@[0]
        == 's');
    assert("budget"@.len() == 6);
    assert("owned_paths"@.len() == 11 && "owned_paths"@[0] == 'o' && "in_reply_to"@[0] == 'i');
    assert("to"@.len() == 2 && "channel"@.len() == 7 && "body"@.len() == 4 && "title"@.len() == 5);
    assert("scope"@.len() == 5 && "acceptance"@.len() == 10 && "in_reply_to"@.len() == 11);
    assert("reference"@.len() == 9 && "artifact_kind"@.len() == 13 && "path"@.len() == 4);
    assert("task"@.len() == 4 && "state"@.len() == 5 && "failure"@.len() == 7);
    assert("summary"@.len() == 7 && "section"@.len() == 7 && "key"@.len() == 3);
}

} // verus!
