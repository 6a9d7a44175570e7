//! The tool server: JSON-RPC lines from an agent, turned into replies or into
//! the broker work that a tool call asks for.
//!
//! [`Server::handle_line`] decides what a line asks. A tool call that needs the
//! broker comes back as a [`Step`]; once the broker has answered,
//! [`Server::settle`] or one of the renderings gives the call's text and
//! [`tool_reply`] frames it.
use vstd::prelude::*;

use crate::client;
use crate::client::{Broker, BrokerView, Plan, Reply, Request};
use crate::config::LaneEnforcement;
use crate::error::Error;
use crate::event::Event;
use crate::id::TaskId;
use crate::inbox;
use crate::json;
use crate::json::{Fields, Items, Json, JsonView};
use crate::snapshot;
use crate::snapshot::render_inbox;
use crate::text;
use crate::tools;
use crate::tools::{tool_catalog, Tool};

verus! {

/// The protocol version this server implements.
pub const PROTOCOL_VERSION: &'static str = "2024-11-05";

/// The server name reported in the handshake.
pub const SERVER_NAME: &'static str = "crew-mcp";

/// The server version reported in the handshake.
pub const SERVER_VERSION: &'static str = "0.1.0";

/// What the agent is told when a message for it has been buffered.
pub const INBOX_NUDGE: &'static str =
    "A new message is addressed to you. Call crew_inbox to read it.";

/// A read whose answer is rendered for the agent.
#[derive(Debug, Clone, Copy, PartialEq, Eq, Structural)]
pub enum Reading {
    /// The roster.
    Roster,
    /// The work ledger.
    Ledger,
    /// The done-gate.
    Gate,
    /// The situation board.
    Board,
    /// The briefing packet.
    Briefing,
}

/// What a tool call asks of the broker.
#[derive(Debug, PartialEq, Eq)]
pub enum Step {
    /// A call to plan and settle.
    Act(Plan),
    /// A read to render.
    Read(Reading, Request),
    /// The messages that arrived since the last read.
    Inbox,
}

/// What a line asks of the server.
#[derive(Debug, PartialEq, Eq)]
pub enum Turn {
    /// Nothing: a notification gets no reply.
    Silent,
    /// A reply.
    Reply(Json),
    /// A tool call's work, to be answered under the request's id.
    Tool {
        /// The request's id.
        id: Json,
        /// The work.
        step: Step,
    },
}

/// A string that says something once trimmed.
pub open spec fn solid_text(value: JsonView) -> Option<Seq<char>> {
    match value.text() {
        Some(s) => if text::trimmed(s).len() > 0 {
            Some(text::trimmed(s))
        } else {
            None
        },
        None => None,
    }
}

/// A trimmed, non-blank string argument.
pub open spec fn argument(arguments: JsonView, key: Seq<char>) -> Option<Seq<char>> {
    solid_text(arguments.at(key))
}

/// A trimmed, non-blank string argument, or what stands for it.
pub open spec fn argument_or(arguments: JsonView, key: Seq<char>, other: Seq<char>) -> Seq<char> {
    match argument(arguments, key) {
        Some(s) => s,
        None => other,
    }
}

/// "is a string that says something" as a predicate.
pub open spec fn solid() -> spec_fn(JsonView) -> bool {
    |value: JsonView| solid_text(value) is Some
}

/// The strings of an array that say something, trimmed.
pub open spec fn solid_texts(items: Seq<JsonView>) -> Seq<Seq<char>> {
    items.filter(solid()).map_values(|value: JsonView| solid_text(value)->0)
}

/// A string-array argument, without the blanks; empty where it is absent.
pub open spec fn list_argument(arguments: JsonView, key: Seq<char>) -> Seq<Seq<char>> {
    solid_texts(arguments.at(key).items())
}

/// A count argument that fits the machine.
pub open spec fn count_argument(arguments: JsonView, key: Seq<char>) -> Option<usize> {
    match arguments.at(key).count() {
        Some(n) => if n <= usize::MAX {
            Some(n as usize)
        } else {
            None
        },
        None => None,
    }
}

/// A trimmed, non-blank string argument, if present.
pub fn str_arg<'a>(arguments: &'a Json, key: &str) -> (r: Option<&'a str>)
    ensures
        text::opt_text(r) == argument(arguments@, key@),
{
    match arguments.str_at(key) {
        Some(value) => {
            let value = text::trim(value);
            if value.is_empty() {
                None
            } else {
                Some(value)
            }
        },
        None => None,
    }
}

/// A trimmed, non-blank string argument, or `other` in its place.
fn str_arg_or<'a>(arguments: &'a Json, key: &str, other: &'a str) -> (r: &'a str)
    ensures
        r@ == argument_or(arguments@, key@, other@),
{
    match str_arg(arguments, key) {
        Some(value) => value,
        None => other,
    }
}

/// A boolean argument, if present and a JSON boolean.
pub fn bool_arg(arguments: &Json, key: &str) -> (r: Option<bool>)
    ensures
        r == arguments@.at(key@).truth(),
{
    match arguments.get(key) {
        Some(value) => value.as_bool(),
        None => None,
    }
}

/// A non-negative integer argument, if present and in range.
pub fn usize_arg(arguments: &Json, key: &str) -> (r: Option<usize>)
    ensures
        r == count_argument(arguments@, key@),
{
    let value = match arguments.get(key) {
        Some(value) => value.as_u64(),
        None => None,
    };
    match value {
        Some(n) => {
            if n <= usize::MAX as u64 {
                Some(n as usize)
            } else {
                None
            }
        },
        None => None,
    }
}

/// A string-array argument as owned strings, dropping blanks; empty if absent.
pub fn str_list_arg(arguments: &Json, key: &str) -> (r: Vec<String>)
    ensures
        text::texts(r@) == list_argument(arguments@, key@),
{
    let mut out: Vec<String> = Vec::new();
    let found = match arguments.get(key) {
        Some(value) => value.as_array(),
        None => None,
    };
    proof {
        reveal(Seq::filter);
        assert(text::texts(out@) =~= solid_texts(Seq::empty()));
    }
    if let Some(items) = found {
        let ghost all = json::items_of(items@);
        assert(arguments@.at(key@).items() == all);
        assert(all.take(0) =~= Seq::empty());
        let mut i: usize = 0;
        while i < items.len()
            invariant
                i <= items.len(),
                all == json::items_of(items@),
                text::texts(out@) == solid_texts(all.take(i as int)),
            decreases items.len() - i,
        {
            let ghost so_far = text::texts(out@);
            let ghost kept = all.take(i as int).filter(solid());
            proof {
                reveal(Seq::filter);
                let longer = all.take(i + 1);
                assert(longer.drop_last() =~= all.take(i as int));
                assert(longer.last() == items@[i as int]@);
            }
            if let Some(value) = items[i].as_str() {
                let value = text::trim(value);
                if !value.is_empty() {
                    out.push(value.to_owned());
                    assert(text::texts(out@) =~= so_far.push(value@));
                    assert(all.take(i + 1).filter(solid()) == kept.push(items@[i as int]@));
                    assert(solid_texts(all.take(i + 1)) =~= so_far.push(value@));
                }
            }
            i = i + 1;
        }
        assert(all.take(all.len() as int) =~= all);
    }
    out
}

/// What a server holds.
pub struct ServerView {
    /// Its broker client.
    pub broker: BrokerView,
    /// The role's owned lane.
    pub owned_paths: Seq<String>,
    /// How the crew enforces the lane.
    pub lane_enforcement: LaneEnforcement,
}

/// The crew's tool server, driving one agent role's tools.
#[derive(Debug)]
pub struct Server {
    broker: Broker,
    owned_paths: Vec<String>,
    lane_enforcement: LaneEnforcement,
}

impl View for Server {
    type V = ServerView;

    closed spec fn view(&self) -> ServerView {
        ServerView {
            broker: self.broker@,
            owned_paths: self.owned_paths@,
            lane_enforcement: self.lane_enforcement,
        }
    }
}

/// Whether a tool call is refused with a text.
pub open spec fn refused(r: Result<Step, String>, why: Seq<char>) -> bool {
    r matches Err(refusal) && refusal@ == why
}

/// Whether a tool call plans to post `what` to `to` and confirm with `saying`.
pub open spec fn sends(
    r: Result<Step, String>,
    to: Seq<char>,
    what: JsonView,
    saying: Seq<char>,
) -> bool {
    r matches Ok(Step::Act(plan)) && plan.sends(to, what, saying)
}

/// Whether a tool call is a broker call with the outcome `planned`, its error
/// as a text.
pub open spec fn acts(r: Result<Step, String>, planned: Result<Plan, Error>) -> bool {
    match planned {
        Ok(plan) => r == Ok::<Step, String>(Step::Act(plan)),
        Err(error) => r matches Err(why) && why@ == error.message_text(),
    }
}

/// A tool call as the broker call it is: a plan, or a refusal of its arguments.
pub open spec fn as_call(r: Result<Step, String>) -> Option<Result<Plan, Error>> {
    match r {
        Ok(Step::Act(plan)) => Some(Ok(plan)),
        Ok(_) => None,
        Err(why) => Some(Err(Error::Invalid(why))),
    }
}

/// Whether a tool call is a message to a role, a channel, or the commander.
pub open spec fn messages(
    broker: BrokerView,
    arguments: JsonView,
    kind: Seq<char>,
    own: Seq<(Seq<char>, JsonView)>,
    body: Seq<char>,
    r: Result<Step, String>,
) -> bool {
    as_call(r) matches Some(call) && broker.message_sent(
        argument(arguments, "to"@),
        argument(arguments, "channel"@),
        kind,
        own,
        body,
        call,
    )
}

/// Whether a tool call is a directive to one specialist.
pub open spec fn directs(
    broker: BrokerView,
    to: Seq<char>,
    kind: Seq<char>,
    body: Seq<char>,
    r: Result<Step, String>,
) -> bool {
    as_call(r) matches Some(call) && broker.directive_sent(to, kind, body, call)
}

/// A list of strings as a JSON member.
pub open spec fn listed(key: Seq<char>, list: Seq<Seq<char>>) -> (Seq<char>, JsonView) {
    client::member(key, JsonView::Array(client::all_texts(list)))
}

/// What `crew_send` does.
pub open spec fn send_step(b: BrokerView, a: JsonView, r: Result<Step, String>) -> bool {
    match argument(a, "body"@) {
        Some(body) => messages(b, a, "note"@, Seq::empty(), body, r),
        None => refused(r, "crew_send requires a non-empty `body`"@),
    }
}

/// What `crew_order` does.
pub open spec fn order_step(b: BrokerView, a: JsonView, r: Result<Step, String>) -> bool {
    match (argument(a, "to"@), argument(a, "title"@)) {
        (None, _) => refused(r, "crew_order requires a `to` role to order"@),
        (Some(_), None) => refused(r, "crew_order requires a `title` for the task"@),
        (Some(to), Some(title)) => as_call(r) matches Some(call) && exists|task: TaskId|
            #[trigger] b.may_order_under(task) && b.ordered(
                task,
                to,
                title,
                argument_or(a, "scope"@, ""@),
                list_argument(a, "owned_paths"@),
                argument_or(a, "acceptance"@, ""@),
                argument_or(a, "body"@, ""@),
                call,
            ),
    }
}

/// What `crew_redirect` does.
pub open spec fn redirect_step(b: BrokerView, a: JsonView, r: Result<Step, String>) -> bool {
    match (argument(a, "to"@), argument(a, "body"@)) {
        (None, _) => refused(r, "crew_redirect requires a `to` role to steer"@),
        (Some(_), None) => refused(r, "crew_redirect requires a `body` (the new direction)"@),
        (Some(to), Some(body)) => directs(b, to, "redirect"@, body, r),
    }
}

/// What `crew_belay` does.
pub open spec fn belay_step(b: BrokerView, a: JsonView, r: Result<Step, String>) -> bool {
    match (argument(a, "to"@), argument(a, "body"@)) {
        (None, _) => refused(r, "crew_belay requires a `to` role to halt"@),
        (Some(_), None) => refused(r, "crew_belay requires a `body` (the new order)"@),
        (Some(to), Some(body)) => directs(b, to, "belay"@, body, r),
    }
}

/// What `crew_ask` does.
pub open spec fn ask_step(b: BrokerView, a: JsonView, r: Result<Step, String>) -> bool {
    match argument(a, "body"@) {
        Some(body) => messages(
            b,
            a,
            "question"@,
            seq![listed("options"@, list_argument(a, "options"@))],
            body,
            r,
        ),
        None => refused(r, "crew_ask requires a non-empty `body`"@),
    }
}

/// What `crew_answer` does.
pub open spec fn answer_step(b: BrokerView, a: JsonView, r: Result<Step, String>) -> bool {
    match (argument(a, "body"@), argument(a, "in_reply_to"@)) {
        (None, _) => refused(r, "crew_answer requires a non-empty `body`"@),
        (Some(_), None) => refused(
            r,
            "crew_answer requires the `in_reply_to` id of the question it answers"@,
        ),
        (Some(body), Some(id)) => if crate::id::uuid_parse(id) is Some {
            messages(b, a, "answer"@, seq![client::says("in_reply_to"@, id)], body, r)
        } else {
            refused(
                r,
                client::not_an_id(
                    id,
                    crate::channel::ChannelView::addressed(
                        argument(a, "to"@),
                        argument(a, "channel"@),
                        b.commander,
                    ) is Some,
                ),
            )
        },
    }
}

/// What `crew_status` does.
pub open spec fn status_step(b: BrokerView, a: JsonView, r: Result<Step, String>) -> bool {
    match argument(a, "body"@) {
        Some(body) => messages(b, a, "status"@, Seq::empty(), body, r),
        None => refused(r, "crew_status requires a non-empty `body`"@),
    }
}

/// What `crew_artifact` does.
pub open spec fn artifact_step(b: BrokerView, a: JsonView, r: Result<Step, String>) -> bool {
    match (argument(a, "reference"@), argument(a, "artifact_kind"@)) {
        (None, _) => refused(r, "crew_artifact requires a `reference` to the produced thing"@),
        (Some(_), None) => refused(
            r,
            "crew_artifact requires an `artifact_kind` (branch, pull_request, file, or route)"@,
        ),
        (Some(reference), Some(kind)) => if client::artifact_kind_known(kind) {
            messages(
                b,
                a,
                "artifact"@,
                seq![client::says("reference"@, reference), client::says("artifact_kind"@, kind)],
                argument_or(a, "body"@, ""@),
                r,
            )
        } else {
            refused(
                r,
                "`"@ + kind
                    + "` is not an artifact kind; use branch, pull_request, file, or route"@,
            )
        },
    }
}

/// What `crew_lane` does.
pub open spec fn lane_step(s: ServerView, a: JsonView, r: Result<Step, String>) -> bool {
    match argument(a, "path"@) {
        Some(path) => r matches Ok(Step::Act(plan)) && client::lane_checked(
            s.broker.role,
            s.owned_paths,
            s.lane_enforcement,
            path,
            plan,
        ),
        None => refused(r, "crew_lane requires a `path` to check"@),
    }
}

/// What `crew_claim` does.
pub open spec fn claim_step(b: BrokerView, a: JsonView, r: Result<Step, String>) -> bool {
    match argument(a, "task"@) {
        Some(task) => {
            let state = argument_or(a, "state"@, "claimed"@);
            sends(
                r,
                "/ledger"@,
                client::claim_payload(b.role, task, state, argument_or(a, "title"@, ""@)),
                state + ": "@ + task,
            )
        },
        None => refused(r, "crew_claim requires a `task` to claim"@),
    }
}

/// What `crew_submit` does.
pub open spec fn submit_step(b: BrokerView, a: JsonView, r: Result<Step, String>) -> bool {
    match argument(a, "task"@) {
        Some(task) => sends(
            r,
            "/gate/submit"@,
            client::submit_payload(
                b.role,
                task,
                argument_or(a, "acceptance"@, ""@),
                argument(a, "to"@),
            ),
            "submitted `"@ + task + client::SUBMITTED@,
        ),
        None => refused(r, "crew_submit requires a `task` to submit"@),
    }
}

/// What `crew_verdict` does.
pub open spec fn verdict_step(b: BrokerView, a: JsonView, r: Result<Step, String>) -> bool {
    match (argument(a, "task"@), a.at("pass"@).truth()) {
        (None, _) => refused(r, "crew_verdict requires a `task` to judge"@),
        (Some(_), None) => refused(
            r,
            "crew_verdict requires a boolean `pass` (true if it holds)"@,
        ),
        (Some(task), Some(pass)) => sends(
            r,
            "/gate/verdict"@,
            client::verdict_payload(b.role, task, pass, argument_or(a, "failure"@, ""@)),
            client::verdict_done(task, pass),
        ),
    }
}

/// What `crew_complete` does.
pub open spec fn complete_step(b: BrokerView, a: JsonView, r: Result<Step, String>) -> bool {
    sends(
        r,
        "/complete"@,
        client::complete_payload(b.role, argument_or(a, "summary"@, ""@)),
        "reported the mission complete to the unit."@,
    )
}

/// What `crew_record` does.
pub open spec fn record_step(b: BrokerView, a: JsonView, r: Result<Step, String>) -> bool {
    match argument(a, "key"@) {
        None => refused(r, "crew_record requires a `key` (the entry's topic)"@),
        Some(key) => if a.at("retract"@).truth() == Some(true) {
            sends(
                r,
                "/board"@,
                client::retract_payload(b.role, key),
                "retracted `"@ + key + "` from the board."@,
            )
        } else {
            match (argument(a, "section"@), argument(a, "body"@)) {
                (None, _) => refused(
                    r,
                    "crew_record requires a `section` (decision, interface, or gotcha) unless retracting"@,
                ),
                (Some(_), None) => refused(
                    r,
                    "crew_record requires a `body` (the content) unless retracting"@,
                ),
                (Some(section), Some(body)) => sends(
                    r,
                    "/board"@,
                    client::record_payload(b.role, key, section, body),
                    "recorded `"@ + key + "` on the board ("@ + section + ")."@,
                ),
            }
        },
    }
}

/// Whether a tool call reads a path and renders it.
pub open spec fn reads(r: Result<Step, String>, what: Reading, from: Seq<char>) -> bool {
    r matches Ok(Step::Read(reading, request)) && reading == what && request.reads(from)
}

/// What `crew_board` does.
pub open spec fn board_step(a: JsonView, r: Result<Step, String>) -> bool {
    reads(
        r,
        Reading::Board,
        match argument(a, "section"@) {
            Some(section) => "/board?section="@ + section,
            None => "/board"@,
        },
    )
}

/// What `crew_briefing` does.
pub open spec fn briefing_step(b: BrokerView, a: JsonView, r: Result<Step, String>) -> bool {
    r matches Ok(Step::Read(Reading::Briefing, Request::Get { path, query })) && path@
        == "/briefing"@ && client::query_texts(query@) == client::briefing_query(
        b.role,
        argument(a, "task"@),
        count_argument(a, "budget"@),
    )
}

/// What a tool does with its arguments.
pub open spec fn tool_step(
    s: ServerView,
    tool: Tool,
    a: JsonView,
    r: Result<Step, String>,
) -> bool {
    match tool {
        Tool::Send => send_step(s.broker, a, r),
        Tool::Order => order_step(s.broker, a, r),
        Tool::Redirect => redirect_step(s.broker, a, r),
        Tool::Belay => belay_step(s.broker, a, r),
        Tool::Ask => ask_step(s.broker, a, r),
        Tool::Answer => answer_step(s.broker, a, r),
        Tool::Status => status_step(s.broker, a, r),
        Tool::Artifact => artifact_step(s.broker, a, r),
        Tool::Inbox => r == Ok::<Step, String>(Step::Inbox),
        Tool::Roster => reads(r, Reading::Roster, "/roster"@),
        Tool::Lane => lane_step(s, a, r),
        Tool::Claim => claim_step(s.broker, a, r),
        Tool::Ledger => reads(r, Reading::Ledger, "/ledger"@),
        Tool::Submit => submit_step(s.broker, a, r),
        Tool::Verdict => verdict_step(s.broker, a, r),
        Tool::Gate => reads(r, Reading::Gate, "/gate"@),
        Tool::Complete => complete_step(s.broker, a, r),
        Tool::Board => board_step(a, r),
        Tool::Record => record_step(s.broker, a, r),
        Tool::Briefing => briefing_step(s.broker, a, r),
    }
}

/// A planned broker call as a tool call, its error as a text.
fn act(planned: Result<Plan, Error>) -> (r: Result<Step, String>)
    ensures
        acts(r, planned),
{
    match planned {
        Ok(plan) => Ok(Step::Act(plan)),
        Err(error) => Err(error.to_string()),
    }
}

/// A refusal with a fixed text.
fn refuse(why: &str) -> (r: Result<Step, String>)
    ensures
        refused(r, why@),
{
    Err(why.to_owned())
}

/// The strings of a list, as JSON, are its texts as JSON.
proof fn lemma_listed(list: Seq<String>)
    ensures
        json::text_items(list) == client::all_texts(text::texts(list)),
{
    assert(json::text_items(list) =~= client::all_texts(text::texts(list)));
}

impl Server {
    /// A server that dispatches tool calls to `broker`, enforcing the role's
    /// lane (`owned_paths`, `lane_enforcement`) for `crew_lane`.
    pub fn new(
        broker: Broker,
        owned_paths: Vec<String>,
        lane_enforcement: LaneEnforcement,
    ) -> (r: Self)
        ensures
            r@ == (ServerView {
                broker: broker@,
                owned_paths: owned_paths@,
                lane_enforcement,
            }),
    {
        Server { broker, owned_paths, lane_enforcement }
    }

    /// Its broker client.
    pub fn broker(&self) -> (r: &Broker)
        ensures
            r@ == self@.broker,
    {
        &self.broker
    }

    fn call_send(&self, a: &Json) -> (r: Result<Step, String>)
        ensures
            send_step(self@.broker, a@, r),
    {
        match str_arg(a, "body") {
            Some(body) => act(self.broker.send(str_arg(a, "to"), str_arg(a, "channel"), body)),
            None => refuse("crew_send requires a non-empty `body`"),
        }
    }

    fn call_order(&self, a: &Json) -> (r: Result<Step, String>)
        ensures
            order_step(self@.broker, a@, r),
    {
        let to = match str_arg(a, "to") {
            Some(to) => to,
            None => {
                return refuse("crew_order requires a `to` role to order");
            },
        };
        let title = match str_arg(a, "title") {
            Some(title) => title,
            None => {
                return refuse("crew_order requires a `title` for the task");
            },
        };
        let owned_paths = str_list_arg(a, "owned_paths");
        let planned = self.broker.order(
            to,
            title,
            str_arg_or(a, "scope", ""),
            owned_paths.as_slice(),
            str_arg_or(a, "acceptance", ""),
            str_arg_or(a, "body", ""),
        );
        let ghost task = choose|task: TaskId|
            #[trigger] self@.broker.may_order_under(task) && self@.broker.ordered(
                task,
                to@,
                title@,
                argument_or(a@, "scope"@, ""@),
                list_argument(a@, "owned_paths"@),
                argument_or(a@, "acceptance"@, ""@),
                argument_or(a@, "body"@, ""@),
                planned,
            );
        let step = act(planned);
        assert(self@.broker.may_order_under(task));
        step
    }

    fn call_redirect(&self, a: &Json) -> (r: Result<Step, String>)
        ensures
            redirect_step(self@.broker, a@, r),
    {
        match str_arg(a, "to") {
            None => refuse("crew_redirect requires a `to` role to steer"),
            Some(to) => match str_arg(a, "body") {
                None => refuse("crew_redirect requires a `body` (the new direction)"),
                Some(body) => act(self.broker.redirect(to, body)),
            },
        }
    }

    fn call_belay(&self, a: &Json) -> (r: Result<Step, String>)
        ensures
            belay_step(self@.broker, a@, r),
    {
        match str_arg(a, "to") {
            None => refuse("crew_belay requires a `to` role to halt"),
            Some(to) => match str_arg(a, "body") {
                None => refuse("crew_belay requires a `body` (the new order)"),
                Some(body) => act(self.broker.belay(to, body)),
            },
        }
    }

    fn call_ask(&self, a: &Json) -> (r: Result<Step, String>)
        ensures
            ask_step(self@.broker, a@, r),
    {
        match str_arg(a, "body") {
            Some(body) => {
                let options = str_list_arg(a, "options");
                proof {
                    lemma_listed(options@);
                }
                act(
                    self.broker.ask(
                        str_arg(a, "to"),
                        str_arg(a, "channel"),
                        body,
                        options.as_slice(),
                    ),
                )
            },
            None => refuse("crew_ask requires a non-empty `body`"),
        }
    }

    fn call_answer(&self, a: &Json) -> (r: Result<Step, String>)
        ensures
            answer_step(self@.broker, a@, r),
    {
        match str_arg(a, "body") {
            None => refuse("crew_answer requires a non-empty `body`"),
            Some(body) => match str_arg(a, "in_reply_to") {
                None => refuse(
                    "crew_answer requires the `in_reply_to` id of the question it answers",
                ),
                Some(id) => act(
                    self.broker.answer(str_arg(a, "to"), str_arg(a, "channel"), body, id),
                ),
            },
        }
    }

    fn call_status(&self, a: &Json) -> (r: Result<Step, String>)
        ensures
            status_step(self@.broker, a@, r),
    {
        match str_arg(a, "body") {
            Some(body) => act(self.broker.status(str_arg(a, "to"), str_arg(a, "channel"), body)),
            None => refuse("crew_status requires a non-empty `body`"),
        }
    }

    fn call_artifact(&self, a: &Json) -> (r: Result<Step, String>)
        ensures
            artifact_step(self@.broker, a@, r),
    {
        match str_arg(a, "reference") {
            None => refuse("crew_artifact requires a `reference` to the produced thing"),
            Some(reference) => match str_arg(a, "artifact_kind") {
                None => refuse(
                    "crew_artifact requires an `artifact_kind` (branch, pull_request, file, or route)",
                ),
                Some(kind) => act(
                    self.broker.artifact(
                        str_arg(a, "to"),
                        str_arg(a, "channel"),
                        str_arg_or(a, "body", ""),
                        reference,
                        kind,
                    ),
                ),
            },
        }
    }

    fn call_lane(&self, a: &Json) -> (r: Result<Step, String>)
        ensures
            lane_step(self@, a@, r),
    {
        match str_arg(a, "path") {
            Some(path) => Ok(
                Step::Act(
                    self.broker.check_lane(
                        self.owned_paths.as_slice(),
                        self.lane_enforcement,
                        path,
                    ),
                ),
            ),
            None => refuse("crew_lane requires a `path` to check"),
        }
    }

    fn call_claim(&self, a: &Json) -> (r: Result<Step, String>)
        ensures
            claim_step(self@.broker, a@, r),
    {
        match str_arg(a, "task") {
            Some(task) => Ok(
                Step::Act(
                    self.broker.claim(
                        task,
                        str_arg_or(a, "state", "claimed"),
                        str_arg_or(a, "title", ""),
                    ),
                ),
            ),
            None => refuse("crew_claim requires a `task` to claim"),
        }
    }

    fn call_submit(&self, a: &Json) -> (r: Result<Step, String>)
        ensures
            submit_step(self@.broker, a@, r),
    {
        match str_arg(a, "task") {
            Some(task) => Ok(
                Step::Act(
                    self.broker.submit(task, str_arg_or(a, "acceptance", ""), str_arg(a, "to")),
                ),
            ),
            None => refuse("crew_submit requires a `task` to submit"),
        }
    }

    fn call_verdict(&self, a: &Json) -> (r: Result<Step, String>)
        ensures
            verdict_step(self@.broker, a@, r),
    {
        match str_arg(a, "task") {
            None => refuse("crew_verdict requires a `task` to judge"),
            Some(task) => match bool_arg(a, "pass") {
                None => refuse("crew_verdict requires a boolean `pass` (true if it holds)"),
                Some(pass) => Ok(
                    Step::Act(self.broker.verdict(task, pass, str_arg_or(a, "failure", ""))),
                ),
            },
        }
    }

    fn call_record(&self, a: &Json) -> (r: Result<Step, String>)
        ensures
            record_step(self@.broker, a@, r),
    {
        let key = match str_arg(a, "key") {
            Some(key) => key,
            None => {
                return refuse("crew_record requires a `key` (the entry's topic)");
            },
        };
        let retract = match bool_arg(a, "retract") {
            Some(retract) => retract,
            None => false,
        };
        if retract {
            return Ok(Step::Act(self.broker.retract(key)));
        }
        match str_arg(a, "section") {
            None => refuse(
                "crew_record requires a `section` (decision, interface, or gotcha) unless retracting",
            ),
            Some(section) => match str_arg(a, "body") {
                None => refuse("crew_record requires a `body` (the content) unless retracting"),
                Some(body) => Ok(Step::Act(self.broker.record(key, section, body))),
            },
        }
    }

    /// What a tool call asks of the broker, or why it is refused.
    pub fn call_tool(&self, name: &str, arguments: &Json) -> (r: Result<Step, String>)
        ensures
            match Tool::named(name@) {
                Some(tool) => tool_step(self@, tool, arguments@, r),
                None => refused(r, "unknown tool `"@ + name@ + "`"@),
            },
    {
        let tool = match Tool::parse(name) {
            Some(tool) => tool,
            None => {
                return Err("unknown tool `".to_owned().concat(name).concat("`"));
            },
        };
        match tool {
            Tool::Send => self.call_send(arguments),
            Tool::Order => self.call_order(arguments),
            Tool::Redirect => self.call_redirect(arguments),
            Tool::Belay => self.call_belay(arguments),
            Tool::Ask => self.call_ask(arguments),
            Tool::Answer => self.call_answer(arguments),
            Tool::Status => self.call_status(arguments),
            Tool::Artifact => self.call_artifact(arguments),
            Tool::Inbox => Ok(Step::Inbox),
            Tool::Roster => Ok(Step::Read(Reading::Roster, self.broker.roster())),
            Tool::Lane => self.call_lane(arguments),
            Tool::Claim => self.call_claim(arguments),
            Tool::Ledger => Ok(Step::Read(Reading::Ledger, self.broker.ledger())),
            Tool::Submit => self.call_submit(arguments),
            Tool::Verdict => self.call_verdict(arguments),
            Tool::Gate => Ok(Step::Read(Reading::Gate, self.broker.gate())),
            Tool::Complete => Ok(
                Step::Act(self.broker.complete(str_arg_or(arguments, "summary", ""))),
            ),
            Tool::Board => Ok(
                Step::Read(Reading::Board, self.broker.board(str_arg(arguments, "section"))),
            ),
            Tool::Record => self.call_record(arguments),
            Tool::Briefing => Ok(
                Step::Read(
                    Reading::Briefing,
                    self.broker.briefing(
                        str_arg(arguments, "task"),
                        usize_arg(arguments, "budget"),
                    ),
                ),
            ),
        }
    }
}

/// A success response.
pub open spec fn result_reply(id: JsonView, result: JsonView) -> JsonView {
    JsonView::Object(
        seq![
            client::says("jsonrpc"@, "2.0"@),
            client::member("id"@, id),
            client::member("result"@, result),
        ],
    )
}

/// An error response.
pub open spec fn error_reply(id: JsonView, code: Seq<char>, message: Seq<char>) -> JsonView {
    JsonView::Object(
        seq![
            client::says("jsonrpc"@, "2.0"@),
            client::member("id"@, id),
            client::member(
                "error"@,
                JsonView::Object(
                    seq![
                        client::member("code"@, JsonView::Number(code)),
                        client::says("message"@, message),
                    ],
                ),
            ),
        ],
    )
}

/// A tool call's result: one text block, flagged as an error or not.
pub open spec fn content_reply(answer: Seq<char>, is_error: bool) -> JsonView {
    JsonView::Object(
        seq![
            client::member(
                "content"@,
                JsonView::Array(
                    seq![
                        JsonView::Object(
                            seq![client::says("type"@, "text"@), client::says("text"@, answer)],
                        ),
                    ],
                ),
            ),
            client::member("isError"@, JsonView::Bool(is_error)),
        ],
    )
}

/// An object without members.
pub open spec fn empty_object() -> JsonView {
    JsonView::Object(Seq::empty())
}

/// The handshake's result: the client's protocol version (or the default), and
/// the tools and logging capabilities.
pub open spec fn handshake(params: JsonView) -> JsonView {
    let version = match params.at("protocolVersion"@).text() {
        Some(version) => version,
        None => PROTOCOL_VERSION@,
    };
    JsonView::Object(
        seq![
            client::says("protocolVersion"@, version),
            client::member(
                "capabilities"@,
                JsonView::Object(
                    seq![
                        client::member("tools"@, empty_object()),
                        client::member("logging"@, empty_object()),
                    ],
                ),
            ),
            client::member(
                "serverInfo"@,
                JsonView::Object(
                    seq![
                        client::says("name"@, SERVER_NAME@),
                        client::says("version"@, SERVER_VERSION@),
                    ],
                ),
            ),
        ],
    )
}

/// The notification that nudges an agent to read its inbox.
pub open spec fn nudge() -> JsonView {
    JsonView::Object(
        seq![
            client::says("jsonrpc"@, "2.0"@),
            client::says("method"@, "notifications/message"@),
            client::member(
                "params"@,
                JsonView::Object(
                    seq![
                        client::says("level"@, "info"@),
                        client::says("logger"@, "crew.inbox"@),
                        client::says("data"@, INBOX_NUDGE@),
                    ],
                ),
            ),
        ],
    )
}

/// A JSON-RPC success response.
pub fn rpc_result(id: &Json, result: Json) -> (r: Json)
    ensures
        r@ == result_reply(id@, result@),
{
    let reply = Fields::new().with("jsonrpc", Json::text("2.0")).with("id", id.copy()).with(
        "result",
        result,
    ).build();
    assert(reply@->Object_0 =~= result_reply(id@, result@)->Object_0);
    reply
}

/// A JSON-RPC error response, with the number `code`.
pub fn rpc_error(id: &Json, code: &str, message: &str) -> (r: Json)
    ensures
        r@ == error_reply(id@, code@, message@),
{
    let error = Fields::new().with("code", Json::Number(code.to_owned())).with(
        "message",
        Json::text(message),
    ).build();
    assert(error@->Object_0 =~= seq![
        client::member("code"@, JsonView::Number(code@)),
        client::says("message"@, message@),
    ]);
    let reply = Fields::new().with("jsonrpc", Json::text("2.0")).with("id", id.copy()).with(
        "error",
        error,
    ).build();
    assert(reply@->Object_0 =~= error_reply(id@, code@, message@)->Object_0);
    reply
}

/// A tool call's result: one text block, flagged as an error or not.
pub fn tool_content(answer: &str, is_error: bool) -> (r: Json)
    ensures
        r@ == content_reply(answer@, is_error),
{
    let block = Fields::new().with("type", Json::text("text")).with(
        "text",
        Json::text(answer),
    ).build();
    assert(block@->Object_0 =~= seq![client::says("type"@, "text"@), client::says("text"@, answer@)]);
    let content = Items::new().with(block).build();
    assert(content@->Array_0 =~= seq![block@]);
    let reply = Fields::new().with("content", content).with("isError", Json::Bool(is_error)).build();
    assert(reply@->Object_0 =~= content_reply(answer@, is_error)->Object_0);
    reply
}

/// The reply to a tool call, given its text or its error text. A tool error is
/// a result the agent reads, not a protocol error.
pub fn tool_reply(id: &Json, outcome: &Result<String, String>) -> (r: Json)
    ensures
        r@ == (match *outcome {
            Ok(answer) => result_reply(id@, content_reply(answer@, false)),
            Err(why) => result_reply(id@, content_reply(why@, true)),
        }),
{
    match outcome {
        Ok(answer) => rpc_result(id, tool_content(answer.as_str(), false)),
        Err(why) => rpc_result(id, tool_content(why.as_str(), true)),
    }
}

/// The handshake's result: echo the client's protocol version (or the default)
/// and advertise the tools and logging capabilities.
pub fn initialize(params: Option<&Json>) -> (r: Json)
    ensures
        r@ == handshake(
            match params {
                Some(params) => params@,
                None => JsonView::Null,
            },
        ),
{
    let asked = match params {
        Some(params) => params.str_at("protocolVersion"),
        None => None,
    };
    let version = match asked {
        Some(version) => version,
        None => PROTOCOL_VERSION,
    };
    let capabilities = Fields::new().with("tools", Fields::new().build()).with(
        "logging",
        Fields::new().build(),
    ).build();
    assert(capabilities@->Object_0 =~= seq![
        client::member("tools"@, empty_object()),
        client::member("logging"@, empty_object()),
    ]);
    let info = Fields::new().with("name", Json::text(SERVER_NAME)).with(
        "version",
        Json::text(SERVER_VERSION),
    ).build();
    assert(info@->Object_0 =~= seq![
        client::says("name"@, SERVER_NAME@),
        client::says("version"@, SERVER_VERSION@),
    ]);
    let reply = Fields::new().with("protocolVersion", Json::text(version)).with(
        "capabilities",
        capabilities,
    ).with("serverInfo", info).build();
    proof {
        let params = match params {
            Some(params) => params@,
            None => JsonView::Null,
        };
        assert(reply@->Object_0 =~= handshake(params)->Object_0);
    }
    reply
}

/// The notification that nudges the agent to read its inbox.
pub fn inbox_notification() -> (r: Json)
    ensures
        r@ == nudge(),
{
    let params = Fields::new().with("level", Json::text("info")).with(
        "logger",
        Json::text("crew.inbox"),
    ).with("data", Json::text(INBOX_NUDGE)).build();
    assert(params@->Object_0 =~= seq![
        client::says("level"@, "info"@),
        client::says("logger"@, "crew.inbox"@),
        client::says("data"@, INBOX_NUDGE@),
    ]);
    let notification = Fields::new().with("jsonrpc", Json::text("2.0")).with(
        "method",
        Json::text("notifications/message"),
    ).with("params", params).build();
    assert(notification@->Object_0 =~= nudge()->Object_0);
    notification
}

/// The arguments of a tool call; an empty object where it has none.
pub open spec fn call_arguments(params: JsonView) -> JsonView {
    match params.get("arguments"@) {
        Some(arguments) => arguments,
        None => empty_object(),
    }
}

/// Whether a turn answers a tool call: a refused one at once, another with its
/// work.
pub open spec fn tool_turn(s: ServerView, id: JsonView, params: JsonView, r: Turn) -> bool {
    match params.at("name"@).text() {
        None => r matches Turn::Reply(reply) && reply@ == error_reply(
            id,
            "-32602"@,
            "invalid params: no tool name"@,
        ),
        Some(name) => match Tool::named(name) {
            Some(tool) => match r {
                Turn::Tool { id: under, step } => under@ == id && tool_step(
                    s,
                    tool,
                    call_arguments(params),
                    Ok(step),
                ),
                Turn::Reply(reply) => exists|why: String|
                    #![trigger why@]
                    tool_step(s, tool, call_arguments(params), Err(why)) && reply@ == result_reply(
                        id,
                        content_reply(why@, true),
                    ),
                Turn::Silent => false,
            },
            None => r matches Turn::Reply(reply) && reply@ == result_reply(
                id,
                content_reply("unknown tool `"@ + name + "`"@, true),
            ),
        },
    }
}

/// Whether a turn answers a request.
pub open spec fn request_turn(
    s: ServerView,
    method: Seq<char>,
    id: JsonView,
    params: JsonView,
    r: Turn,
) -> bool {
    if method == "initialize"@ {
        r matches Turn::Reply(reply) && reply@ == result_reply(id, handshake(params))
    } else if method == "ping"@ {
        r matches Turn::Reply(reply) && reply@ == result_reply(id, empty_object())
    } else if method == "tools/list"@ {
        r matches Turn::Reply(reply) && reply@ == result_reply(
            id,
            JsonView::Object(
                seq![
                    client::member(
                        "tools"@,
                        JsonView::Array(tools::listings(tools::all_tools())),
                    ),
                ],
            ),
        )
    } else if method == "tools/call"@ {
        tool_turn(s, id, params, r)
    } else {
        r matches Turn::Reply(reply) && reply@ == error_reply(
            id,
            "-32601"@,
            "method not found: "@ + method,
        )
    }
}

/// Whether a turn answers a message: a request with an id gets its answer, an
/// id without a method an error, and a notification none.
pub open spec fn message_turn(s: ServerView, message: JsonView, r: Turn) -> bool {
    match (message.at("method"@).text(), message.get("id"@)) {
        (_, None) => r is Silent,
        (None, Some(id)) => r matches Turn::Reply(reply) && reply@ == error_reply(
            id,
            "-32600"@,
            "invalid request: no method"@,
        ),
        (Some(method), Some(id)) => request_turn(s, method, id, message.at("params"@), r),
    }
}

impl Server {
    /// Runs a tool call: its work, or at once the reply to a refused one.
    fn tools_call(&self, id: &Json, params: Option<&Json>) -> (r: Turn)
        ensures
            tool_turn(
                self@,
                id@,
                match params {
                    Some(params) => params@,
                    None => JsonView::Null,
                },
                r,
            ),
    {
        let (name, given) = match params {
            Some(params) => (params.str_at("name"), params.get("arguments")),
            None => (None, None),
        };
        let name = match name {
            Some(name) => name,
            None => {
                return Turn::Reply(rpc_error(id, "-32602", "invalid params: no tool name"));
            },
        };
        let none = Fields::new().build();
        let arguments = match given {
            Some(arguments) => arguments,
            None => &none,
        };
        match self.call_tool(name, arguments) {
            Ok(step) => Turn::Tool { id: id.copy(), step },
            Err(why) => {
                let reply = rpc_result(id, tool_content(why.as_str(), true));
                assert(reply@ == result_reply(id@, content_reply(why@, true)));
                Turn::Reply(reply)
            },
        }
    }

    /// Dispatches a request by method.
    fn handle_request(&self, method: &str, id: &Json, params: Option<&Json>) -> (r: Turn)
        ensures
            request_turn(
                self@,
                method@,
                id@,
                match params {
                    Some(params) => params@,
                    None => JsonView::Null,
                },
                r,
            ),
    {
        if text::same(method, "initialize") {
            Turn::Reply(rpc_result(id, initialize(params)))
        } else if text::same(method, "ping") {
            Turn::Reply(rpc_result(id, Fields::new().build()))
        } else if text::same(method, "tools/list") {
            let list = Fields::new().with("tools", tool_catalog()).build();
            assert(list@->Object_0 =~= seq![
                client::member("tools"@, JsonView::Array(tools::listings(tools::all_tools()))),
            ]);
            Turn::Reply(rpc_result(id, list))
        } else if text::same(method, "tools/call") {
            self.tools_call(id, params)
        } else {
            Turn::Reply(
                rpc_error(id, "-32601", "method not found: ".to_owned().concat(method).as_str()),
            )
        }
    }

    /// What one JSON-RPC message asks: a reply for a request, or nothing for a
    /// notification.
    pub fn handle_message(&self, message: &Json) -> (r: Turn)
        ensures
            message_turn(self@, message@, r),
    {
        match message.get("id") {
            None => Turn::Silent,
            Some(id) => match message.str_at("method") {
                None => Turn::Reply(rpc_error(id, "-32600", "invalid request: no method")),
                Some(method) => self.handle_request(method, id, message.get("params")),
            },
        }
    }

    /// What one JSON-RPC line asks. A line that is no JSON is answered with a
    /// parse error.
    pub fn handle_line(&self, line: &str) -> (r: Turn)
        ensures
            match json::json_parse(line@) {
                Some(message) => message_turn(self@, message, r),
                None => r matches Turn::Reply(reply) && reply@ == error_reply(
                    JsonView::Null,
                    "-32700"@,
                    "parse error"@,
                ),
            },
    {
        match json::parse(line) {
            Some(message) => self.handle_message(&message),
            None => Turn::Reply(rpc_error(&Json::Null, "-32700", "parse error")),
        }
    }

    /// The text or error text of a settled plan.
    pub fn settle(&self, plan: Plan, reply: &Reply) -> (r: Result<String, String>)
        ensures
            match plan {
                Plan::Answer(answer) => r matches Ok(saying) && saying@ == answer@,
                Plan::Send { done, .. } => if reply is Accepted {
                    r matches Ok(saying) && saying@ == done@
                } else {
                    r matches Err(why) && why@ == self@.broker.explanation(*reply)
                },
                Plan::SendThenRefuse { refusal, .. } => r matches Err(why) && why@ == (
                if reply is Accepted {
                    refusal@
                } else {
                    self@.broker.explanation(*reply)
                }),
            },
    {
        match self.broker.settle(plan, reply) {
            Ok(answer) => Ok(answer),
            Err(error) => Err(error.to_string()),
        }
    }

    /// The new messages of the log as the agent reads them, advancing past
    /// them.
    pub fn read_inbox(&mut self, messages: &[Event]) -> (r: String)
        ensures
            final(self)@ == (ServerView {
                broker: old(self)@.broker.after_read(messages@),
                ..old(self)@
            }),
            exists|items: Seq<inbox::InboxItem>|
                inbox::items_show(items, old(self)@.broker.fresh(messages@)) && r@
                    == #[trigger] snapshot::inbox_text(items),
    {
        let items = self.broker.inbox(messages);
        let rendered = render_inbox(items.as_slice());
        assert(rendered@ == snapshot::inbox_text(items@));
        rendered
    }

    /// The messages that a live subscription delivered, as the agent reads
    /// them.
    pub fn read_delivered(&mut self, events: &[Event]) -> (r: String)
        ensures
            ({
                let broker = old(self)@.broker;
                let fresh = events@.filter(inbox::for_role(broker.role));
                &&& final(self)@ == (ServerView {
                    broker: BrokerView { task: client::adopted(broker.task, fresh), ..broker },
                    ..old(self)@
                })
                &&& exists|items: Seq<inbox::InboxItem>|
                    inbox::items_show(items, fresh) && r@ == #[trigger] snapshot::inbox_text(items)
            }),
    {
        let items = self.broker.delivered(events);
        let rendered = render_inbox(items.as_slice());
        assert(rendered@ == snapshot::inbox_text(items@));
        rendered
    }
}

/// Whether an argument is given: a truth value for `pass`, for any other a
/// string that says something.
pub open spec fn supplied(arguments: JsonView, key: Seq<char>) -> bool {
    if key == "pass"@ {
        arguments.at(key).truth() is Some
    } else {
        argument(arguments, key) is Some
    }
}

/// A tool call without an argument that the catalog calls required is refused,
/// so it never reaches the broker.
pub proof fn a_missing_required_argument_is_refused(
    s: ServerView,
    tool: Tool,
    arguments: JsonView,
    key: Seq<char>,
    r: Result<Step, String>,
)
    requires
        tool_step(s, tool, arguments, r),
        tool.required().contains(key),
        !supplied(arguments, key),
    ensures
        r is Err,
{
    reveal_strlit("pass");
    reveal_strlit("to");
    reveal_strlit("title");
    reveal_strlit("body");
    reveal_strlit("in_reply_to");
    reveal_strlit("reference");
    reveal_strlit("artifact_kind");
    reveal_strlit("path");
    reveal_strlit("task");
    reveal_strlit("key");
    assert("pass"@.len() == 4 && "to"@.len() == 2 && "title"@.len() == 5);
    assert("in_reply_to"@.len() == 11 && "reference"@.len() == 9 && "artifact_kind"@.len() == 13);
    assert("key"@.len() == 3);
    assert("pass"@[0] != "body"@[0] && "pass"@[2] != "path"@[2] && "pass"@[0] != "task"@[0]);
    let i = choose|i: int| 0 <= i < tool.required().len() && tool.required()[i] == key;
    assert(tool.required()[i] == key);
}

/// Every request with an id is answered: only a notification gets no reply.
pub proof fn only_notifications_go_unanswered(s: ServerView, message: JsonView, r: Turn)
    requires
        message_turn(s, message, r),
    ensures
        r is Silent <==> message.get("id"@) is None,
{
}

/// A reply carries the request's id.
pub proof fn a_reply_carries_the_id(s: ServerView, message: JsonView, r: Turn)
    requires
        message_turn(s, message, r),
        r !is Silent,
    ensures
        match r {
            Turn::Reply(reply) => reply@.get("id"@) == message.get("id"@),
            Turn::Tool { id, .. } => Some(id@) == message.get("id"@),
            Turn::Silent => false,
        },
{
    reveal_strlit("jsonrpc");
    reveal_strlit("id");
    assert("jsonrpc"@.len() != "id"@.len());
    if let Turn::Reply(reply) = r {
        let entries = reply@->Object_0;
        assert(reply@ is Object);
        assert(entries[0].0 == "jsonrpc"@ && entries[1].0 == "id"@);
        let rest = entries.drop_first();
        assert(rest[0] == entries[1]);
        reveal_with_fuel(json::lookup, 3);
    }
}

/// The nudge is a notification: it carries no id, so it asks for no reply.
pub proof fn the_nudge_asks_for_no_reply()
    ensures
        nudge().get("id"@) is None,
{
    reveal_strlit("jsonrpc");
    reveal_strlit("method");
    reveal_strlit("params");
    reveal_strlit("id");
    assert("jsonrpc"@.len() != "id"@.len());
    assert("method"@.len() != "id"@.len());
    assert("params"@.len() != "id"@.len());
    let entries = nudge()->Object_0;
    reveal_with_fuel(json::lookup, 4);
    assert(entries.drop_first()[0] == entries[1]);
    assert(entries.drop_first().drop_first()[0] == entries[2]);
}

/// What a tool call is given under a key: a text that is not blank, without the white
/// space around it.
pub open spec fn given(arguments: JsonView, key: Seq<char>) -> Option<Seq<char>> {
    match arguments.get(key) {
        Some(JsonView::Text(s)) => if exists|i: int|
            0 <= i < s.len() && !text::white_space(#[trigger] s[i]) {
            Some(text::trimmed(s))
        } else {
            None
        },
        _ => None,
    }
}

proof fn lemma_given(a: JsonView, key: Seq<char>)
    ensures
        given(a, key) == argument(a, key),
        given(a, key) matches Some(s) ==> s.len() > 0 && text::trimmed(s) == s,
{
    if let Some(JsonView::Text(s)) = a.get(key) {
        text::blank_means_white_space_only(s);
        text::lemma_trimmed_twice(s);
    }
}

/// An argument is read as it was given: a text that is not blank, a truth value, or a
/// number that fits.
pub proof fn an_argument_is_read_as_given(
    a: Json,
    key: &str,
    said: Option<&str>,
    truth: Option<bool>,
    count: Option<usize>,
    n: u64,
)
    requires
        call_ensures(str_arg, (&a, key), said),
        call_ensures(bool_arg, (&a, key), truth),
        call_ensures(usize_arg, (&a, key), count),
    ensures
        text::opt_text(said) == given(a@, key@),
        a@.get(key@) matches Some(JsonView::Bool(b)) ==> truth == Some(b),
        !(a@.get(key@) matches Some(JsonView::Bool(_))) ==> truth is None,
        a@.get(key@) == Some(JsonView::Number(crate::number::decimal(n as nat))) && n <= usize::MAX
            ==> count == Some(n as usize),
        !(a@.get(key@) matches Some(JsonView::Number(_))) ==> count is None,
{
    lemma_given(a@, key@);
    crate::number::decimal_reads_back(n as nat, u64::MAX as nat);
}

/// A list is read item by item: a text that is not blank is kept, trimmed, and
/// anything else is passed over.
pub proof fn a_list_is_read_item_by_item(items: Seq<JsonView>, item: JsonView)
    ensures
        solid_texts(Seq::empty()) == Seq::<Seq<char>>::empty(),
        item matches JsonView::Text(s) ==> text::trimmed(s).len() > 0 ==> solid_texts(
            items.push(item),
        ) == solid_texts(items).push(text::trimmed(s)),
        !(item is Text && text::trimmed(item->Text_0).len() > 0) ==> solid_texts(items.push(item))
            == solid_texts(items),
{
    reveal(Seq::filter);
    assert(solid_texts(Seq::empty()) =~= Seq::<Seq<char>>::empty());
    let longer = items.push(item);
    assert(longer.drop_last() =~= items);
    if item is Text && text::trimmed(item->Text_0).len() > 0 {
        assert(longer.filter(solid()) == items.filter(solid()).push(item));
        assert(solid_texts(longer) =~= solid_texts(items).push(text::trimmed(item->Text_0)));
    }
}

/// A note, a status and a question called for are posted with the words given, to the
/// target given; without words nothing is posted.
pub proof fn a_message_called_for_is_posted(
    s: Server,
    commander: crate::id::RoleId,
    a: Json,
    to: Option<&str>,
    channel: Option<&str>,
    target: Option<crate::channel::Channel>,
    name: &str,
    r: Result<Step, String>,
)
    requires
        commander@ == s@.broker.commander,
        text::opt_text(to) == given(a@, "to"@),
        text::opt_text(channel) == given(a@, "channel"@),
        call_ensures(crate::channel::Channel::resolve, (to, channel, &commander), target),
        call_ensures(Server::call_tool, (&s, name, &a), r),
    ensures
        ({
            let kind = if name@ == "crew_send"@ {
                "note"@
            } else if name@ == "crew_status"@ {
                "status"@
            } else {
                "question"@
            };
            name@ == "crew_send"@ || name@ == "crew_status"@ || name@ == "crew_ask"@ ==> {
                &&& given(a@, "body"@) is None || target is None ==> r is Err
                &&& given(a@, "body"@) is Some && target is Some ==> {
                    &&& r matches Ok(Step::Act(plan))
                    &&& client::posts_message(
                        plan,
                        target->0,
                        s@.broker.role,
                        kind,
                        given(a@, "body"@)->0,
                        s@.broker.task,
                    )
                    &&& name@ == "crew_ask"@ ==> client::posted(plan, "options"@) == Some(
                        JsonView::Array(
                            client::all_texts(solid_texts(a@.at("options"@).items())),
                        ),
                    )
                }
            }
        }),
{
    tools::names_lead_back(Tool::Send);
    tools::names_lead_back(Tool::Status);
    tools::names_lead_back(Tool::Ask);
    lemma_given(a@, "body"@);
    lemma_given(a@, "to"@);
    lemma_given(a@, "channel"@);
    let b = s@.broker;
    if given(a@, "body"@) is Some {
        let body = given(a@, "body"@)->0;
        let none = Seq::<(Seq<char>, JsonView)>::empty();
        if name@ == "crew_send"@ {
            client::lemma_message_posted(
                b,
                given(a@, "to"@),
                given(a@, "channel"@),
                "note"@,
                none,
                body,
                as_call(r)->0,
                target,
            );
        } else if name@ == "crew_status"@ {
            client::lemma_message_posted(
                b,
                given(a@, "to"@),
                given(a@, "channel"@),
                "status"@,
                none,
                body,
                as_call(r)->0,
                target,
            );
        } else if name@ == "crew_ask"@ {
            reveal_strlit("options");
            reveal_strlit("from");
            reveal_strlit("kind");
            reveal_strlit("body");
            reveal_strlit("task");
            let own = seq![listed("options"@, list_argument(a@, "options"@))];
            assert(own[0].0 == "options"@);
            client::lemma_message_posted(
                b,
                given(a@, "to"@),
                given(a@, "channel"@),
                "question"@,
                own,
                body,
                as_call(r)->0,
                target,
            );
        }
    }
}

/// An answer called for names the message it answers, and an artifact what it refers
/// to and of which kind; without these nothing is posted.
pub proof fn a_reply_called_for_is_posted(
    s: Server,
    commander: crate::id::RoleId,
    a: Json,
    to: Option<&str>,
    channel: Option<&str>,
    target: Option<crate::channel::Channel>,
    name: &str,
    r: Result<Step, String>,
)
    requires
        commander@ == s@.broker.commander,
        text::opt_text(to) == given(a@, "to"@),
        text::opt_text(channel) == given(a@, "channel"@),
        call_ensures(crate::channel::Channel::resolve, (to, channel, &commander), target),
        call_ensures(Server::call_tool, (&s, name, &a), r),
    ensures
        name@ == "crew_answer"@ ==> {
            let whole = given(a@, "body"@) is Some && given(a@, "in_reply_to"@) is Some
                && crate::id::uuid_parse(given(a@, "in_reply_to"@)->0) is Some;
            &&& !whole || target is None ==> r is Err
            &&& whole && target is Some ==> {
                &&& r matches Ok(Step::Act(plan))
                &&& client::posts_message(
                    plan,
                    target->0,
                    s@.broker.role,
                    "answer"@,
                    given(a@, "body"@)->0,
                    s@.broker.task,
                )
                &&& client::posted(plan, "in_reply_to"@) == Some(
                    JsonView::Text(given(a@, "in_reply_to"@)->0),
                )
            }
        },
        name@ == "crew_artifact"@ ==> {
            let kind = given(a@, "artifact_kind"@);
            let whole = given(a@, "reference"@) is Some && (kind == Some("branch"@) || kind == Some(
                "pull_request"@,
            ) || kind == Some("file"@) || kind == Some("route"@));
            &&& !whole || target is None ==> r is Err
            &&& whole && target is Some ==> {
                &&& r matches Ok(Step::Act(plan))
                &&& client::posted(plan, "kind"@) == Some(JsonView::Text("artifact"@))
                &&& client::posted(plan, "reference"@) == Some(
                    JsonView::Text(given(a@, "reference"@)->0),
                )
                &&& client::posted(plan, "artifact_kind"@) == Some(JsonView::Text(kind->0))
            }
        },
{
    tools::names_lead_back(Tool::Answer);
    tools::names_lead_back(Tool::Artifact);
    lemma_given(a@, "body"@);
    lemma_given(a@, "to"@);
    lemma_given(a@, "channel"@);
    lemma_given(a@, "in_reply_to"@);
    lemma_given(a@, "reference"@);
    lemma_given(a@, "artifact_kind"@);
    reveal_strlit("in_reply_to");
    reveal_strlit("reference");
    reveal_strlit("artifact_kind");
    reveal_strlit("from");
    reveal_strlit("kind");
    reveal_strlit("body");
    reveal_strlit("task");
    assert("in_reply_to"@.len() == 11 && "reference"@.len() == 9 && "artifact_kind"@.len() == 13
        && "from"@.len() == 4 && "kind"@.len() == 4 && "body"@.len() == 4 && "task"@.len() == 4);
    let b = s@.broker;
    if name@ == "crew_answer"@ && given(a@, "body"@) is Some && given(a@, "in_reply_to"@) is Some
        && crate::id::uuid_parse(given(a@, "in_reply_to"@)->0) is Some {
        let own = seq![client::says("in_reply_to"@, given(a@, "in_reply_to"@)->0)];
        assert(own[0].0 == "in_reply_to"@);
        client::lemma_message_posted(
            b,
            given(a@, "to"@),
            given(a@, "channel"@),
            "answer"@,
            own,
            given(a@, "body"@)->0,
            as_call(r)->0,
            target,
        );
    }
    if name@ == "crew_artifact"@ && given(a@, "reference"@) is Some && given(
        a@,
        "artifact_kind"@,
    ) is Some && client::artifact_kind_known(given(a@, "artifact_kind"@)->0) {
        let own = seq![
            client::says("reference"@, given(a@, "reference"@)->0),
            client::says("artifact_kind"@, given(a@, "artifact_kind"@)->0),
        ];
        assert(own[0].0 == "reference"@ && own[1].0 == "artifact_kind"@);
        client::lemma_message_posted(
            b,
            given(a@, "to"@),
            given(a@, "channel"@),
            "artifact"@,
            own,
            argument_or(a@, "body"@, ""@),
            as_call(r)->0,
            target,
        );
    }
}

/// A redirect, a belay and an order called for go to the one specialist given; without
/// one, or without what they are to say, nothing is posted.
pub proof fn a_directive_called_for_is_posted(
    s: Server,
    specialist: crate::id::RoleId,
    a: Json,
    name: &str,
    r: Result<Step, String>,
)
    requires
        given(a@, "to"@) is Some ==> specialist@ == given(a@, "to"@)->0,
        call_ensures(Server::call_tool, (&s, name, &a), r),
    ensures
        name@ == "crew_redirect"@ || name@ == "crew_belay"@ ==> {
            let whole = given(a@, "to"@) is Some && given(a@, "body"@) is Some
                && crate::channel::names_a_role(given(a@, "to"@)->0);
            &&& !whole ==> r is Err
            &&& whole ==> (r matches Ok(Step::Act(plan)) && client::posts_message(
                plan,
                crate::channel::Channel::Direct(specialist),
                s@.broker.role,
                if name@ == "crew_redirect"@ {
                    "redirect"@
                } else {
                    "belay"@
                },
                given(a@, "body"@)->0,
                s@.broker.task,
            ))
        },
        name@ == "crew_order"@ ==> {
            let whole = given(a@, "to"@) is Some && given(a@, "title"@) is Some
                && crate::channel::names_a_role(given(a@, "to"@)->0);
            &&& !whole ==> r is Err
            &&& whole ==> {
                &&& r matches Ok(Step::Act(plan))
                &&& client::posted(plan, "kind"@) == Some(JsonView::Text("order"@))
                &&& client::posted(plan, "title"@) == Some(JsonView::Text(given(a@, "title"@)->0))
                &&& given(a@, "scope"@) matches Some(scope) ==> client::posted(plan, "scope"@)
                    == Some(JsonView::Text(scope))
                &&& given(a@, "acceptance"@) matches Some(bar) ==> client::posted(
                    plan,
                    "acceptance"@,
                ) == Some(JsonView::Text(bar))
                &&& client::posted(plan, "task"@) is Some
                &&& s@.broker.task matches Some(task) ==> client::posted(plan, "task"@) == Some(
                    JsonView::Text(crate::id::uuid_text(task.0)),
                )
            }
        },
{
    tools::names_lead_back(Tool::Redirect);
    tools::names_lead_back(Tool::Belay);
    tools::names_lead_back(Tool::Order);
    lemma_given(a@, "body"@);
    lemma_given(a@, "to"@);
    lemma_given(a@, "title"@);
    lemma_given(a@, "scope"@);
    lemma_given(a@, "acceptance"@);
    lemma_names_differ();
    let b = s@.broker;
    if given(a@, "to"@) is Some && given(a@, "body"@) is Some {
        let to = given(a@, "to"@)->0;
        let body = given(a@, "body"@)->0;
        if name@ == "crew_redirect"@ {
            client::lemma_directive_posted(b, to, "redirect"@, body, as_call(r)->0, specialist);
        } else if name@ == "crew_belay"@ {
            client::lemma_directive_posted(b, to, "belay"@, body, as_call(r)->0, specialist);
        }
    }
    if name@ == "crew_order"@ && given(a@, "to"@) is Some && given(a@, "title"@) is Some {
        let to = given(a@, "to"@)->0;
        let title = given(a@, "title"@)->0;
        let task = choose|task: TaskId|
            #[trigger] b.may_order_under(task) && b.ordered(
                task,
                to,
                title,
                argument_or(a@, "scope"@, ""@),
                list_argument(a@, "owned_paths"@),
                argument_or(a@, "acceptance"@, ""@),
                argument_or(a@, "body"@, ""@),
                as_call(r)->0,
            );
        client::lemma_order_posted(
            b,
            task,
            to,
            title,
            argument_or(a@, "scope"@, ""@),
            list_argument(a@, "owned_paths"@),
            argument_or(a@, "acceptance"@, ""@),
            argument_or(a@, "body"@, ""@),
            as_call(r)->0,
            specialist,
        );
    }
}

proof fn lemma_names_differ()
    ensures
        "crew_redirect"@ != "crew_belay"@,
        "crew_redirect"@ != "crew_order"@,
        "crew_belay"@ != "crew_order"@,
{
    reveal_strlit("crew_redirect");
    reveal_strlit("crew_belay");
    reveal_strlit("crew_order");
    assert("crew_redirect"@.len() == 13 && "crew_belay"@[5] == 'b' && "crew_order"@[5] == 'o'
        && "crew_belay"@.len() == 10 && "crew_order"@.len() == 10);
}

/// Work called for is claimed, submitted and judged as given: a verdict passes exactly
/// where it was called with a pass, and without a task, or a verdict without a truth
/// value, nothing is posted.
pub proof fn work_called_for_is_posted(s: Server, a: Json, name: &str, r: Result<Step, String>)
    requires
        call_ensures(Server::call_tool, (&s, name, &a), r),
    ensures
        name@ == "crew_verdict"@ ==> {
            let whole = given(a@, "task"@) is Some && (a@.get("pass"@) matches Some(
                JsonView::Bool(_),
            ));
            &&& !whole ==> r is Err
            &&& whole ==> {
                &&& r matches Ok(Step::Act(plan))
                &&& client::posts_to(plan, "/gate/verdict"@)
                &&& client::posted(plan, "pass"@) == a@.get("pass"@)
                &&& client::posted(plan, "task"@) == Some(JsonView::Text(given(a@, "task"@)->0))
                &&& client::posted(plan, "role"@) == Some(JsonView::Text(s@.broker.role))
                &&& given(a@, "failure"@) matches Some(why) ==> client::posted(plan, "failure"@)
                    == Some(JsonView::Text(why))
            }
        },
        name@ == "crew_submit"@ ==> {
            &&& given(a@, "task"@) is None ==> r is Err
            &&& given(a@, "task"@) matches Some(task) ==> {
                &&& r matches Ok(Step::Act(plan))
                &&& client::posts_to(plan, "/gate/submit"@)
                &&& client::posted(plan, "task"@) == Some(JsonView::Text(task))
                &&& client::posted(plan, "role"@) == Some(JsonView::Text(s@.broker.role))
                &&& given(a@, "acceptance"@) matches Some(bar) ==> client::posted(
                    plan,
                    "acceptance"@,
                ) == Some(JsonView::Text(bar))
                &&& given(a@, "to"@) matches Some(to) ==> client::posted(plan, "to"@) == Some(
                    JsonView::Text(to),
                )
                &&& given(a@, "to"@) is None ==> client::posted(plan, "to"@) is None
            }
        },
        name@ == "crew_claim"@ ==> {
            &&& given(a@, "task"@) is None ==> r is Err
            &&& given(a@, "task"@) matches Some(task) ==> {
                &&& r matches Ok(Step::Act(plan))
                &&& client::posts_to(plan, "/ledger"@)
                &&& client::posted(plan, "task"@) == Some(JsonView::Text(task))
                &&& client::posted(plan, "owner"@) == Some(JsonView::Text(s@.broker.role))
                &&& given(a@, "state"@) matches Some(state) ==> client::posted(plan, "state"@)
                    == Some(JsonView::Text(state))
                &&& given(a@, "state"@) is None ==> client::posted(plan, "state"@) == Some(
                    JsonView::Text("claimed"@),
                )
                &&& given(a@, "title"@) matches Some(title) ==> client::posted(plan, "title"@)
                    == Some(JsonView::Text(title))
            }
        },
        name@ == "crew_complete"@ ==> {
            &&& r matches Ok(Step::Act(plan))
            &&& client::posts_to(plan, "/complete"@)
            &&& client::posted(plan, "role"@) == Some(JsonView::Text(s@.broker.role))
            &&& given(a@, "summary"@) matches Some(summary) ==> client::posted(plan, "summary"@)
                == Some(JsonView::Text(summary))
        },
{
    tools::names_lead_back(Tool::Verdict);
    tools::names_lead_back(Tool::Submit);
    tools::names_lead_back(Tool::Claim);
    tools::names_lead_back(Tool::Complete);
    lemma_given(a@, "task"@);
    lemma_given(a@, "failure"@);
    lemma_given(a@, "acceptance"@);
    lemma_given(a@, "to"@);
    lemma_given(a@, "state"@);
    lemma_given(a@, "title"@);
    lemma_given(a@, "summary"@);
    let role = s@.broker.role;
    let task = argument_or(a@, "task"@, ""@);
    let pass = a@.at("pass"@).truth() == Some(true);
    client::lemma_bodies(role, task, argument_or(a@, "failure"@, ""@), ""@, None, pass);
    client::lemma_bodies(
        role,
        task,
        argument_or(a@, "acceptance"@, ""@),
        ""@,
        argument(a@, "to"@),
        pass,
    );
    client::lemma_bodies(
        role,
        task,
        argument_or(a@, "state"@, "claimed"@),
        argument_or(a@, "title"@, ""@),
        None,
        pass,
    );
    client::lemma_bodies(role, argument_or(a@, "summary"@, ""@), ""@, ""@, None, pass);
}

/// A board entry called for is recorded, or retracted where the call says so; an entry
/// without a section or a body, and a call without a key, posts nothing.
pub proof fn an_entry_called_for_is_posted(s: Server, a: Json, name: &str, r: Result<Step, String>)
    requires
        call_ensures(Server::call_tool, (&s, name, &a), r),
        name@ == "crew_record"@,
    ensures
        ({
            let retracts = a@.get("retract"@) == Some(JsonView::Bool(true));
            let entry = given(a@, "section"@) is Some && given(a@, "body"@) is Some;
            &&& given(a@, "key"@) is None ==> r is Err
            &&& !retracts && !entry ==> r is Err
            &&& given(a@, "key"@) is Some && (retracts || entry) ==> {
                &&& r matches Ok(Step::Act(plan))
                &&& client::posts_to(plan, "/board"@)
                &&& client::posted(plan, "key"@) == Some(JsonView::Text(given(a@, "key"@)->0))
                &&& client::posted(plan, "role"@) == Some(JsonView::Text(s@.broker.role))
                &&& retracts ==> client::posted(plan, "retract"@) == Some(JsonView::Bool(true))
                &&& !retracts ==> client::posted(plan, "retract"@) is None && client::posted(
                    plan,
                    "section"@,
                ) == Some(JsonView::Text(given(a@, "section"@)->0)) && client::posted(plan, "body"@)
                    == Some(JsonView::Text(given(a@, "body"@)->0))
            }
        }),
{
    tools::names_lead_back(Tool::Record);
    lemma_given(a@, "key"@);
    lemma_given(a@, "section"@);
    lemma_given(a@, "body"@);
    client::lemma_bodies(
        s@.broker.role,
        argument_or(a@, "key"@, ""@),
        argument_or(a@, "section"@, ""@),
        argument_or(a@, "body"@, ""@),
        None,
        true,
    );
}

/// A path called for is checked against the role's own lane, under the crew's policy,
/// just as the client checks it.
pub proof fn a_path_called_for_is_checked(s: Server, a: Json, name: &str, r: Result<Step, String>)
    requires
        call_ensures(Server::call_tool, (&s, name, &a), r),
        name@ == "crew_lane"@,
    ensures
        given(a@, "path"@) is None ==> r is Err,
        given(a@, "path"@) matches Some(path) ==> {
            let inside = crate::lane::in_lane(s@.owned_paths, path);
            &&& r matches Ok(Step::Act(plan))
            &&& plan is Answer <==> inside || s@.lane_enforcement == LaneEnforcement::Off
            &&& plan is SendThenRefuse <==> !inside && s@.lane_enforcement == LaneEnforcement::Block
        },
{
    tools::names_lead_back(Tool::Lane);
    lemma_given(a@, "path"@);
}

/// A read called for reads what it is named after, and an inbox call reads the inbox.
pub proof fn a_read_called_for_reads(s: Server, a: Json, name: &str, r: Result<Step, String>)
    requires
        call_ensures(Server::call_tool, (&s, name, &a), r),
    ensures
        name@ == "crew_inbox"@ ==> r == Ok::<Step, String>(Step::Inbox),
        name@ == "crew_roster"@ ==> (r matches Ok(Step::Read(Reading::Roster, Request::Get { path, .. }))
            && path@ == "/roster"@),
        name@ == "crew_ledger"@ ==> (r matches Ok(Step::Read(Reading::Ledger, Request::Get { path, .. }))
            && path@ == "/ledger"@),
        name@ == "crew_gate"@ ==> (r matches Ok(Step::Read(Reading::Gate, Request::Get { path, .. }))
            && path@ == "/gate"@),
        name@ == "crew_board"@ ==> (r matches Ok(Step::Read(Reading::Board, Request::Get { path, .. }))
            && path@ == (match given(a@, "section"@) {
            Some(section) => "/board?section="@ + section,
            None => "/board"@,
        })),
        name@ == "crew_briefing"@ ==> (r matches Ok(
            Step::Read(Reading::Briefing, Request::Get { path, query }),
        ) && path@ == "/briefing"@ && client::query_texts(query@).contains(
            ("role"@, s@.broker.role),
        ) && (given(a@, "task"@) matches Some(task) ==> client::query_texts(query@).contains(
            ("task"@, task),
        ))),
{
    tools::names_lead_back(Tool::Inbox);
    tools::names_lead_back(Tool::Roster);
    tools::names_lead_back(Tool::Ledger);
    tools::names_lead_back(Tool::Gate);
    tools::names_lead_back(Tool::Board);
    tools::names_lead_back(Tool::Briefing);
    lemma_given(a@, "section"@);
    lemma_given(a@, "task"@);
    if name@ == "crew_briefing"@ {
        let q = client::query_texts(r->Ok_0->Read_1->query@);
        assert(q[0] == ("role"@, s@.broker.role));
        if given(a@, "task"@) is Some {
            assert(q[1] == ("task"@, given(a@, "task"@)->0));
        }
    }
}

/// A tool that there is none of is refused.
pub proof fn an_unknown_tool_is_refused(s: Server, a: Json, name: &str, r: Result<Step, String>)
    requires
        call_ensures(Server::call_tool, (&s, name, &a), r),
        forall|tool: Tool| #[trigger] tool.name_text() != name@,
    ensures
        r is Err,
{
}

/// A tool's answer is its text, marked as an error exactly where it is one, under the
/// id of the request; it is never a protocol error.
pub proof fn an_answer_is_marked_where_it_fails(
    id: Json,
    outcome: Result<String, String>,
    reply: Json,
)
    requires
        call_ensures(tool_reply, (&id, &outcome), reply),
    ensures
        reply@.get("id"@) == Some(id@),
        reply@.get("error"@) is None,
        reply@.at("result"@).get("isError"@) == Some(JsonView::Bool(outcome is Err)),
        reply@.at("result"@).at("content"@) matches JsonView::Array(blocks) && blocks.len() == 1
            && blocks[0].get("text"@) == Some(
            JsonView::Text(
                match outcome {
                    Ok(answer) => answer@,
                    Err(why) => why@,
                },
            ),
        ),
{
    reveal_strlit("jsonrpc");
    reveal_strlit("id");
    reveal_strlit("result");
    reveal_strlit("error");
    reveal_strlit("content");
    reveal_strlit("isError");
    reveal_strlit("type");
    reveal_strlit("text");
    assert("jsonrpc"@.len() == 7 && "id"@.len() == 2 && "result"@.len() == 6 && "error"@.len() == 5
        && "content"@[0] == 'c' && "isError"@[0] == 'i' && "type"@[1] == 'y' && "text"@[1] == 'e');
    let all = reply@->Object_0;
    assert(all[0].0 == "jsonrpc"@ && all[1].0 == "id"@ && all[2].0 == "result"@);
    client::lemma_lookup_at(all, "id"@, 1);
    client::lemma_lookup_at(all, "result"@, 2);
    json::a_member_is_found_under_its_key(all, "error"@, 0);
    let result = all[2].1->Object_0;
    assert(result[0].0 == "content"@ && result[1].0 == "isError"@);
    client::lemma_lookup_at(result, "content"@, 0);
    client::lemma_lookup_at(result, "isError"@, 1);
    let block = result[0].1->Array_0[0]->Object_0;
    assert(block[0].0 == "type"@ && block[1].0 == "text"@);
    client::lemma_lookup_at(block, "text"@, 1);
}

/// A protocol error carries its code and its words under the id of the request, and no
/// result.
pub proof fn a_protocol_error_carries_its_code(
    id: Json,
    code: &str,
    message: &str,
    reply: Json,
)
    requires
        call_ensures(rpc_error, (&id, code, message), reply),
    ensures
        reply@.get("id"@) == Some(id@),
        reply@.get("result"@) is None,
        reply@.at("error"@).get("code"@) == Some(JsonView::Number(code@)),
        reply@.at("error"@).get("message"@) == Some(JsonView::Text(message@)),
{
    lemma_error_reply(id@, code@, message@);
}

proof fn lemma_error_reply(id: JsonView, code: Seq<char>, message: Seq<char>)
    ensures
        ({
            let reply = error_reply(id, code, message);
            &&& reply.get("id"@) == Some(id)
            &&& reply.get("result"@) is None
            &&& reply.at("error"@).get("code"@) == Some(JsonView::Number(code))
            &&& reply.at("error"@).get("message"@) == Some(JsonView::Text(message))
        }),
{
    reveal_strlit("jsonrpc");
    reveal_strlit("id");
    reveal_strlit("result");
    reveal_strlit("error");
    reveal_strlit("code");
    reveal_strlit("message");
    assert("jsonrpc"@.len() == 7 && "id"@.len() == 2 && "result"@.len() == 6 && "error"@.len() == 5
        && "code"@[0] == 'c' && "message"@[0] == 'm');
    let all = error_reply(id, code, message)->Object_0;
    assert(all[0].0 == "jsonrpc"@ && all[1].0 == "id"@ && all[2].0 == "error"@);
    client::lemma_lookup_at(all, "id"@, 1);
    client::lemma_lookup_at(all, "error"@, 2);
    json::a_member_is_found_under_its_key(all, "result"@, 0);
    let error = all[2].1->Object_0;
    assert(error[0].0 == "code"@ && error[1].0 == "message"@);
    client::lemma_lookup_at(error, "code"@, 0);
    client::lemma_lookup_at(error, "message"@, 1);
}

proof fn lemma_result_reply(id: JsonView, result: JsonView)
    ensures
        result_reply(id, result).get("id"@) == Some(id),
        result_reply(id, result).get("result"@) == Some(result),
        result_reply(id, result).get("error"@) is None,
{
    reveal_strlit("jsonrpc");
    reveal_strlit("id");
    reveal_strlit("result");
    reveal_strlit("error");
    assert("jsonrpc"@.len() == 7 && "id"@.len() == 2 && "result"@.len() == 6 && "error"@.len() == 5);
    let all = result_reply(id, result)->Object_0;
    assert(all[0].0 == "jsonrpc"@ && all[1].0 == "id"@ && all[2].0 == "result"@);
    client::lemma_lookup_at(all, "id"@, 1);
    client::lemma_lookup_at(all, "result"@, 2);
    json::a_member_is_found_under_its_key(all, "error"@, 0);
}

/// A request is answered by what it asks: the handshake with the version the client
/// speaks, a ping with nothing to say, the list with the catalog, a tool call with its
/// work or its refusal, and any other method with the error for it.
pub proof fn a_request_is_answered_by_its_method(
    s: Server,
    message: Json,
    method: Seq<char>,
    id: JsonView,
    catalog: Json,
    r: Turn,
)
    requires
        call_ensures(Server::handle_message, (&s, &message), r),
        call_ensures(tool_catalog, (), catalog),
        message@.get("method"@) == Some(JsonView::Text(method)),
        message@.get("id"@) == Some(id),
    ensures
        method == "ping"@ ==> (r matches Turn::Reply(reply) && reply@.get("result"@) == Some(
            JsonView::Object(Seq::empty()),
        )),
        method == "tools/list"@ ==> (r matches Turn::Reply(reply) && reply@.at("result"@).get(
            "tools"@,
        ) == Some(catalog@)),
        method == "initialize"@ ==> (r matches Turn::Reply(reply) && (
        match message@.at("params"@).get("protocolVersion"@) {
            Some(JsonView::Text(version)) => reply@.at("result"@).get("protocolVersion"@) == Some(
                JsonView::Text(version),
            ),
            _ => reply@.at("result"@).get("protocolVersion"@) == Some(
                JsonView::Text("2024-11-05"@),
            ),
        })),
        method != "ping"@ && method != "tools/list"@ && method != "initialize"@ && method
            != "tools/call"@ ==> (r matches Turn::Reply(reply) && reply@.at("error"@).get("code"@)
            == Some(JsonView::Number("-32601"@)) && reply@.get("result"@) is None),
        method == "tools/call"@ && !(message@.at("params"@).get("name"@) matches Some(
            JsonView::Text(_),
        )) ==> (r matches Turn::Reply(reply) && reply@.at("error"@).get("code"@) == Some(
            JsonView::Number("-32602"@),
        )),
{
    reveal_strlit("ping");
    reveal_strlit("tools/list");
    reveal_strlit("initialize");
    reveal_strlit("tools/call");
    assert("ping"@.len() == 4 && "tools/list"@.len() == 10 && "initialize"@.len() == 10
        && "tools/call"@.len() == 10 && "tools/list"@[6] == 'l' && "tools/call"@[6] == 'c'
        && "initialize"@[0] == 'i' && "tools/list"@[0] == 't' && "tools/call"@[0] == 't');
    lemma_error_reply(id, "-32601"@, "method not found: "@ + method);
    lemma_error_reply(id, "-32602"@, "invalid params: no tool name"@);
    lemma_result_reply(id, empty_object());
    lemma_result_reply(id, handshake(message@.at("params"@)));
    let list = JsonView::Object(seq![client::member("tools"@, catalog@)]);
    lemma_result_reply(id, list);
    let listed = list->Object_0;
    assert(listed[0].0 == "tools"@);
    client::lemma_lookup_at(listed, "tools"@, 0);
    let hello = handshake(message@.at("params"@))->Object_0;
    assert(hello[0].0 == "protocolVersion"@);
    client::lemma_lookup_at(hello, "protocolVersion"@, 0);
}

/// A message with an id and no method is an invalid request, and one without an id
/// gets no answer.
pub proof fn a_message_without_a_method_is_invalid(s: Server, message: Json, r: Turn)
    requires
        call_ensures(Server::handle_message, (&s, &message), r),
    ensures
        message@.get("id"@) is None ==> r is Silent,
        message@.get("id"@) is Some && !(message@.get("method"@) matches Some(JsonView::Text(_)))
            ==> (r matches Turn::Reply(reply) && reply@.at("error"@).get("code"@) == Some(
            JsonView::Number("-32600"@),
        )),
{
    if let Some(id) = message@.get("id"@) {
        lemma_error_reply(id, "-32600"@, "invalid request: no method"@);
    }
}

/// A call of a tool that there is none of is refused, and answered under its id with a
/// result that is marked as an error.
pub proof fn a_call_of_an_unknown_tool_is_answered(
    s: Server,
    message: Json,
    name: &str,
    arguments: Json,
    id: JsonView,
    step: Result<Step, String>,
    r: Turn,
)
    requires
        call_ensures(Server::handle_message, (&s, &message), r),
        message@.get("method"@) == Some(JsonView::Text("tools/call"@)),
        message@.get("id"@) == Some(id),
        message@.at("params"@).get("name"@) == Some(JsonView::Text(name@)),
        message@.at("params"@).get("arguments"@) == Some(arguments@),
        call_ensures(Server::call_tool, (&s, name, &arguments), step),
        Tool::named(name@) is None,
    ensures
        step is Err,
        r matches Turn::Reply(reply) && reply@.get("id"@) == Some(id) && reply@.at("result"@).get(
            "isError"@,
        ) == Some(JsonView::Bool(true)),
{
    reveal_strlit("ping");
    reveal_strlit("tools/list");
    reveal_strlit("initialize");
    reveal_strlit("tools/call");
    assert("ping"@.len() == 4 && "tools/list"@[6] == 'l' && "tools/call"@[6] == 'c'
        && "initialize"@[0] == 'i' && "tools/call"@[0] == 't');
    let why = "unknown tool `"@ + name@ + "`"@;
    let content = content_reply(why, true);
    lemma_result_reply(id, content);
    reveal_strlit("content");
    reveal_strlit("isError");
    assert("content"@[0] == 'c' && "isError"@[0] == 'i');
    let result = content->Object_0;
    assert(result[0].0 == "content"@ && result[1].0 == "isError"@);
    client::lemma_lookup_at(result, "isError"@, 1);
}

/// What a tool is told of its call: its confirmation once the broker accepts it, and
/// otherwise an error; a refused crossing is an error even so.
pub proof fn a_tool_is_told_its_outcome(s: Server, plan: Plan, reply: Reply, r: Result<String, String>)
    requires
        call_ensures(Server::settle, (&s, plan, &reply), r),
    ensures
        plan matches Plan::Answer(answer) ==> (r matches Ok(said) && said@ == answer@),
        plan matches Plan::Send { done, .. } ==> if reply == Reply::Accepted {
            r matches Ok(said) && said@ == done@
        } else {
            r is Err
        },
        plan is SendThenRefuse ==> r is Err,
{
}

/// What a live subscription delivered to the role, the agent reads: each message on a
/// line, or that there is none.
pub proof fn what_is_delivered_is_read(s: &mut Server, events: &[Event], shown: String, k: int)
    requires
        call_ensures(Server::read_delivered, (s, events), shown),
    ensures
        ({
            let mine = events@.filter(inbox::for_role(old(s)@.broker.role));
            &&& mine.len() == 0 ==> shown@ == "No new messages."@
            &&& 0 <= k < mine.len() ==> exists|item: inbox::InboxItem|
                inbox::item_shows(item, mine[k]) && text::mentions(
                    shown@,
                    #[trigger] snapshot::inbox_line(item),
                )
            &&& final(s)@.broker.role == old(s)@.broker.role
        }),
{
    let mine = events@.filter(inbox::for_role(old(s)@.broker.role));
    let items = choose|items: Seq<inbox::InboxItem>|
        inbox::items_show(items, mine) && shown@ == #[trigger] snapshot::inbox_text(items);
    lemma_each_item_is_read(items, mine, shown@, k);
}

/// What the log holds that is new to the role, the agent reads: each message on a
/// line, or that there is none.
pub proof fn what_is_new_is_read(s: &mut Server, messages: &[Event], shown: String, k: int)
    requires
        call_ensures(Server::read_inbox, (s, messages), shown),
    ensures
        ({
            let mine = old(s)@.broker.fresh(messages@);
            &&& mine.len() == 0 ==> shown@ == "No new messages."@
            &&& 0 <= k < mine.len() ==> exists|item: inbox::InboxItem|
                inbox::item_shows(item, mine[k]) && text::mentions(
                    shown@,
                    #[trigger] snapshot::inbox_line(item),
                )
            &&& final(s)@.broker.read_through == messages@.len()
        }),
{
    let mine = old(s)@.broker.fresh(messages@);
    let items = choose|items: Seq<inbox::InboxItem>|
        inbox::items_show(items, mine) && shown@ == #[trigger] snapshot::inbox_text(items);
    lemma_each_item_is_read(items, mine, shown@, k);
}

proof fn lemma_each_item_is_read(
    items: Seq<inbox::InboxItem>,
    events: Seq<Event>,
    shown: Seq<char>,
    k: int,
)
    requires
        inbox::items_show(items, events),
        shown == snapshot::inbox_text(items),
    ensures
        events.len() == 0 ==> shown == "No new messages."@,
        0 <= k < events.len() ==> inbox::item_shows(items[k], events[k]) && text::mentions(
            shown,
            snapshot::inbox_line(items[k]),
        ),
{
    if 0 <= k < events.len() {
        let lines = items.map_values(|item: inbox::InboxItem| snapshot::inbox_line(item));
        snapshot::lemma_headed(
            snapshot::counted(items.len(), " new message(s):"@),
            lines,
            k,
        );
        assert(inbox::item_shows(items[k], events[k]));
    }
}

} // verus!
