//! The broker client an agent talks to the crew through, without the wire: what
//! each call sends, what its reply means, and which messages reach the role.
//!
//! A client acts as one role. A call is planned as a [`Plan`], the request to
//! send and what to say once the broker has accepted it; [`Broker::settle`]
//! turns the broker's reply into the call's outcome.
use vstd::prelude::*;

use crate::approval::{ActionKind, RulesOfEngagement};
use crate::base;
use crate::channel::{Channel, ChannelView};
use crate::config::LaneEnforcement;
use crate::error::Error;
use crate::event::{Event, EventKind, MessageKind};
use crate::id;
use crate::id::{MessageId, RoleId, TaskId};
use crate::inbox;
use crate::inbox::InboxItem;
use crate::json;
use crate::json::{Fields, Json, JsonView};
use crate::lane;
use crate::number;
use crate::text;

verus! {

/// A request to the broker.
#[derive(Debug, PartialEq, Eq)]
pub enum Request {
    /// Read an endpoint.
    Get {
        /// The path on the broker.
        path: String,
        /// The query parameters, to be encoded.
        query: Vec<(String, String)>,
    },
    /// Post a JSON body to an endpoint.
    Post {
        /// The path on the broker.
        path: String,
        /// The body.
        body: Json,
    },
}

impl Request {
    /// Whether this posts `body` to `path`.
    pub open spec fn posts(self, to: Seq<char>, what: JsonView) -> bool {
        self matches Request::Post { path, body } && path@ == to && body@ == what
    }

    /// Whether this reads `path` without query parameters.
    pub open spec fn reads(self, from: Seq<char>) -> bool {
        self matches Request::Get { path, query } && path@ == from && query@.len() == 0
    }

    /// The request's path on the broker.
    pub open spec fn path_text(self) -> Seq<char> {
        match self {
            Request::Get { path, .. } => path@,
            Request::Post { path, .. } => path@,
        }
    }

    /// The URL of the request's endpoint on the broker at `base`.
    pub fn url(&self, base: &str) -> (r: String)
        ensures
            r@ == base@ + self.path_text(),
    {
        match self {
            Request::Get { path, .. } => base.to_owned().concat(path.as_str()),
            Request::Post { path, .. } => base.to_owned().concat(path.as_str()),
        }
    }
}

/// A read of `path`.
fn read(path: &str) -> (r: Request)
    ensures
        r.reads(path@),
{
    Request::Get { path: path.to_owned(), query: Vec::new() }
}

/// What a call does: answer at once, or send a request and answer once it is
/// accepted.
#[derive(Debug, PartialEq, Eq)]
pub enum Plan {
    /// Nothing to send; the answer is known.
    Answer(String),
    /// Send the request; the answer once it is accepted.
    Send {
        /// What to send.
        request: Request,
        /// The confirmation.
        done: String,
    },
    /// Send the request, then refuse the call.
    SendThenRefuse {
        /// What to send.
        request: Request,
        /// Why the call is refused.
        refusal: String,
    },
}

impl Plan {
    /// Whether the plan posts `what` to `to` and then confirms with `saying`.
    pub open spec fn sends(self, to: Seq<char>, what: JsonView, saying: Seq<char>) -> bool {
        self matches Plan::Send { request, done } && request.posts(to, what) && done@ == saying
    }
}

/// What came back for a request.
#[derive(Debug, PartialEq, Eq)]
pub enum Reply {
    /// The broker accepted it.
    Accepted,
    /// The broker answered with an error status; the text of its answer, where
    /// it could be read.
    Refused {
        /// The HTTP status.
        status: u16,
        /// The answer.
        text: Option<String>,
    },
    /// The broker could not be reached; why.
    Unreachable(String),
}

/// The outcome of a call, by the texts it holds: the answer, or the error's
/// message.
pub open spec fn outcome_text(r: Result<String, Error>) -> Result<Seq<char>, Seq<char>> {
    match r {
        Ok(answer) => Ok(answer@),
        Err(error) => Err(error.message_text()),
    }
}

/// What a target that cannot be routed to is told.
pub const UNROUTABLE: &'static str =
    "that is not a routable target; name a role, `all-units`, or a pair like `a+b`";

/// What an out-of-lane path is told under a warning policy, after the path.
pub const LANE_WARNING: &'static str =
    "` is OUTSIDE your lane. This is reported to the unit. Do not edit it \
     silently: route the change through the commander (crew_send) unless it is \
     genuinely yours.";

/// What an out-of-lane path is told under a blocking policy, after the path.
pub const LANE_REFUSAL: &'static str =
    "` is OUTSIDE your lane and edits there are blocked. Route the change \
     through the commander (crew_send) instead of editing it.";

/// What an out-of-lane path is told where lanes are not enforced, after the
/// path.
pub const LANE_OFF: &'static str =
    "` is outside your lane, but lane enforcement is off; proceed with care.";

/// What a submission is told, after the task.
pub const SUBMITTED: &'static str =
    "` for verification. It is not done until an independent role \
     tries to break it and passes it.";

/// One JSON member.
pub open spec fn member(key: Seq<char>, value: JsonView) -> (Seq<char>, JsonView) {
    (key, value)
}

/// One string member.
pub open spec fn says(key: Seq<char>, value: Seq<char>) -> (Seq<char>, JsonView) {
    (key, JsonView::Text(value))
}

/// The sender field of a message from a role.
pub open spec fn from_role(role: Seq<char>) -> JsonView {
    JsonView::Object(seq![says("kind"@, "role"@), says("id"@, role)])
}

/// The endpoint that takes messages to a channel.
pub open spec fn messages_path(channel: Seq<char>) -> Seq<char> {
    "/channels/"@ + channel + "/messages"@
}

/// Members with the task they are sent under, where there is one.
pub open spec fn stamped(
    members: Seq<(Seq<char>, JsonView)>,
    task: Option<TaskId>,
) -> Seq<(Seq<char>, JsonView)> {
    match task {
        Some(task) => members.push(says("task"@, id::uuid_text(task.0))),
        None => members,
    }
}

/// The body of a message from `role` of some kind, with its own members, a
/// body, and the task it is sent under, where there is one.
pub open spec fn message_payload(
    role: Seq<char>,
    kind: Seq<char>,
    own: Seq<(Seq<char>, JsonView)>,
    body: Seq<char>,
    task: Option<TaskId>,
) -> JsonView {
    JsonView::Object(
        stamped(
            (seq![member("from"@, from_role(role)), says("kind"@, kind)] + own).push(
                says("body"@, body),
            ),
            task,
        ),
    )
}

/// Texts as JSON strings.
pub open spec fn all_texts(parts: Seq<Seq<char>>) -> Seq<JsonView> {
    parts.map_values(|s: Seq<char>| JsonView::Text(s))
}

/// The members of an order.
pub open spec fn order_members(
    title: Seq<char>,
    scope: Seq<char>,
    owned_paths: Seq<Seq<char>>,
    acceptance: Seq<char>,
) -> Seq<(Seq<char>, JsonView)> {
    seq![
        says("title"@, title),
        says("scope"@, scope),
        member("owned_paths"@, JsonView::Array(all_texts(owned_paths))),
        says("acceptance"@, acceptance),
    ]
}

/// A single specialist, addressed by name.
pub open spec fn specialist(to: Seq<char>, commander: Seq<char>) -> Option<Seq<char>> {
    match ChannelView::addressed(Some(to), None, commander) {
        Some(ChannelView::Direct(role)) => Some(role),
        _ => None,
    }
}

/// The artifact kinds.
pub open spec fn artifact_kind_known(kind: Seq<char>) -> bool {
    kind == "branch"@ || kind == "pull_request"@ || kind == "file"@ || kind == "route"@
}

/// The broker client for one agent role.
#[derive(Debug)]
pub struct Broker {
    base: String,
    role: RoleId,
    commander: RoleId,
    read_through: usize,
    cursor: Option<MessageId>,
    task: Option<TaskId>,
}

/// A client by what it holds.
pub struct BrokerView {
    /// The broker's base URL.
    pub base: Seq<char>,
    /// The role the client acts as.
    pub role: Seq<char>,
    /// The default addressee.
    pub commander: Seq<char>,
    /// How many messages of the log the pull-based inbox has delivered.
    pub read_through: nat,
    /// The last message of the log that the pull-based inbox has delivered,
    /// where one is known; it counts before the number of them.
    pub cursor: Option<MessageId>,
    /// The task the role works under, adopted from an order.
    pub task: Option<TaskId>,
}

impl View for Broker {
    type V = BrokerView;

    closed spec fn view(&self) -> BrokerView {
        BrokerView {
            base: self.base@,
            role: self.role@,
            commander: self.commander@,
            read_through: self.read_through as nat,
            cursor: self.cursor,
            task: self.task,
        }
    }
}

impl BrokerView {
    /// Whether `r` is a message to `to`, a channel, or the commander: refused
    /// where the target cannot be routed to.
    pub open spec fn message_sent(
        self,
        to: Option<Seq<char>>,
        channel: Option<Seq<char>>,
        kind: Seq<char>,
        own: Seq<(Seq<char>, JsonView)>,
        body: Seq<char>,
        r: Result<Plan, Error>,
    ) -> bool {
        match ChannelView::addressed(to, channel, self.commander) {
            Some(target) => r matches Ok(plan) && plan.sends(
                messages_path(target.name()),
                message_payload(self.role, kind, own, body, self.task),
                "sent to "@ + target.name(),
            ),
            None => r matches Err(Error::Invalid(why)) && why@ == UNROUTABLE@,
        }
    }

    /// Whether `r` is a directive to one specialist: refused where `to` is not
    /// a role.
    pub open spec fn directive_sent(
        self,
        to: Seq<char>,
        kind: Seq<char>,
        body: Seq<char>,
        r: Result<Plan, Error>,
    ) -> bool {
        match specialist(to, self.commander) {
            Some(role) => r matches Ok(plan) && plan.sends(
                messages_path(ChannelView::Direct(role).name()),
                message_payload(self.role, kind, Seq::empty(), body, self.task),
                kind + " sent to "@ + to,
            ),
            None => r matches Err(Error::Invalid(why)) && why@ == "`"@ + to
                + "` is not a role to steer; name a single specialist"@,
        }
    }

    /// Whether an order may go out under a task: the one the role works under,
    /// or else a fresh one.
    pub open spec fn may_order_under(self, task: TaskId) -> bool {
        match self.task {
            Some(adopted) => task == adopted,
            None => id::random_uuid(task.0),
        }
    }

    /// Whether `r` is an order to one specialist under a task: refused where
    /// `to` is not a role.
    pub open spec fn ordered(
        self,
        task: TaskId,
        to: Seq<char>,
        title: Seq<char>,
        scope: Seq<char>,
        owned_paths: Seq<Seq<char>>,
        acceptance: Seq<char>,
        body: Seq<char>,
        r: Result<Plan, Error>,
    ) -> bool {
        match specialist(to, self.commander) {
            Some(role) => r matches Ok(plan) && plan.sends(
                messages_path(ChannelView::Direct(role).name()),
                message_payload(
                    self.role,
                    "order"@,
                    order_members(title, scope, owned_paths, acceptance),
                    body,
                    Some(task),
                ),
                "ordered "@ + to + ": "@ + title,
            ),
            None => r matches Err(Error::Invalid(why)) && why@ == "`"@ + to
                + "` is not a role to order; name a single specialist"@,
        }
    }

    /// The message for a reply that is no acceptance.
    pub open spec fn explanation(self, reply: Reply) -> Seq<char> {
        match reply {
            Reply::Accepted => Seq::empty(),
            Reply::Refused { status, text } => match refused_reason(text) {
                Some(reason) => reason,
                None => "the broker returned HTTP "@ + number::decimal(status as nat),
            },
            Reply::Unreachable(why) => "could not reach the broker at "@ + self.base + ": "@ + why@,
        }
    }

    /// What a plan comes to, given what came back for its request: its answer,
    /// or the message of its error.
    pub open spec fn outcome(self, plan: Plan, reply: Reply) -> Result<Seq<char>, Seq<char>> {
        match plan {
            Plan::Answer(answer) => Ok(answer@),
            Plan::Send { done, .. } => if reply is Accepted {
                Ok(done@)
            } else {
                Err(self.explanation(reply))
            },
            Plan::SendThenRefuse { refusal, .. } => if reply is Accepted {
                Err(refusal@)
            } else {
                Err(self.explanation(reply))
            },
        }
    }
}

/// The reason in an error reply, where its text could be read and carries one.
pub open spec fn refused_reason(reply: Option<String>) -> Option<Seq<char>> {
    match reply {
        Some(reply) => base::error_reason(reply@),
        None => None,
    }
}

/// The sender field of a message from `role`.
fn role_sender(role: &RoleId) -> (r: Json)
    ensures
        r@ == from_role(role@),
{
    let sender = Fields::new().with("kind", Json::text("role")).with(
        "id",
        Json::text(role.as_str()),
    ).build();
    assert(sender@->Object_0 =~= from_role(role@)->Object_0);
    sender
}

/// Members with the task they are sent under, where there is one.
fn stamp(members: Fields, task: Option<TaskId>) -> (r: Fields)
    ensures
        r@ == stamped(members@, task),
{
    match task {
        Some(task) => members.with("task", Json::text(task.to_string().as_str())),
        None => members,
    }
}

/// A post of `body` to the messages of `channel`.
fn to_channel(channel: &str, body: Json) -> (r: Request)
    ensures
        r.posts(messages_path(channel@), body@),
{
    Request::Post {
        path: "/channels/".to_owned().concat(channel).concat("/messages"),
        body,
    }
}

impl Broker {
    /// A client for `role` against the broker at `base`, with `commander` as
    /// the default addressee.
    pub fn new(base: &str, role: RoleId, commander: RoleId) -> (r: Self)
        ensures
            r@ == (BrokerView {
                base: base@,
                role: role@,
                commander: commander@,
                read_through: 0,
                cursor: None,
                task: None,
            }),
    {
        Broker {
            base: base.to_owned(),
            role,
            commander,
            read_through: 0,
            cursor: None,
            task: None,
        }
    }

    /// The client with its pull-based inbox seeded by a count, so the next read
    /// returns only messages past it.
    pub fn with_read_through(self, read_through: usize) -> (r: Self)
        ensures
            r@ == (BrokerView { read_through: read_through as nat, cursor: None, ..self@ }),
    {
        Broker { read_through, cursor: None, ..self }
    }

    /// The client with its pull-based inbox seeded by the last message read, so
    /// the next read returns only messages past it. A message the log does not
    /// hold replays the log rather than skipping new messages.
    pub fn with_cursor(self, cursor: Option<MessageId>) -> (r: Self)
        ensures
            r@ == (BrokerView { read_through: 0, cursor, ..self@ }),
    {
        Broker { read_through: 0, cursor, ..self }
    }

    /// The client working under a task, so its messages carry it.
    pub fn with_task(self, task: Option<TaskId>) -> (r: Self)
        ensures
            r@ == (BrokerView { task, ..self@ }),
    {
        Broker { task, ..self }
    }

    /// The last message of the log the pull-based read has delivered.
    pub fn cursor(&self) -> (r: Option<MessageId>)
        ensures
            r == self@.cursor,
    {
        self.cursor
    }

    /// The task the role works under, adopted from an order.
    pub fn task(&self) -> (r: Option<TaskId>)
        ensures
            r == self@.task,
    {
        self.task
    }

    /// The role this client acts as.
    pub fn role(&self) -> (r: &RoleId)
        ensures
            r@ == self@.role,
    {
        &self.role
    }

    /// The broker's base URL.
    pub fn base(&self) -> (r: &str)
        ensures
            r@ == self@.base,
    {
        self.base.as_str()
    }

    /// The number of messages of the log the pull-based read has delivered.
    pub fn read_through(&self) -> (r: usize)
        ensures
            r == self@.read_through,
    {
        self.read_through
    }

    /// A message of some kind to a role, a channel, or the commander.
    fn message(
        &self,
        to: Option<&str>,
        channel: Option<&str>,
        kind: &str,
        own: Fields,
        body: &str,
    ) -> (r: Result<Plan, Error>)
        requires
            own@.len() >= 2,
            own@[0] == member("from"@, from_role(self@.role)),
            own@[1] == says("kind"@, kind@),
        ensures
            self@.message_sent(
                text::opt_text(to),
                text::opt_text(channel),
                kind@,
                own@.skip(2),
                body@,
                r,
            ),
    {
        match Channel::resolve(to, channel, &self.commander) {
            Some(target) => {
                let name = target.name();
                let payload = stamp(own.with("body", Json::text(body)), self.task).build();
                assert(payload@ == message_payload(
                    self@.role,
                    kind@,
                    own@.skip(2),
                    body@,
                    self@.task,
                )) by {
                    assert(own@ =~= seq![member("from"@, from_role(self@.role)), says(
                        "kind"@,
                        kind@,
                    )] + own@.skip(2));
                }
                Ok(
                    Plan::Send {
                        request: to_channel(name.as_str(), payload),
                        done: "sent to ".to_owned().concat(name.as_str()),
                    },
                )
            },
            None => Err(Error::Invalid(UNROUTABLE.to_owned())),
        }
    }

    /// The members every message of this role starts with.
    fn envelope(&self, kind: &str) -> (r: Fields)
        ensures
            r@ == seq![member("from"@, from_role(self@.role)), says("kind"@, kind@)],
    {
        Fields::new().with("from", role_sender(&self.role)).with("kind", Json::text(kind))
    }

    /// Posts a note as this role to a role's direct channel, a named channel,
    /// or the commander by default.
    pub fn send(&self, to: Option<&str>, channel: Option<&str>, body: &str) -> (r: Result<
        Plan,
        Error,
    >)
        ensures
            self@.message_sent(
                text::opt_text(to),
                text::opt_text(channel),
                "note"@,
                Seq::empty(),
                body@,
                r,
            ),
    {
        let own = self.envelope("note");
        assert(own@.skip(2) =~= Seq::empty());
        self.message(to, channel, "note", own, body)
    }

    /// Reports progress as this role, targeted like [`Broker::send`].
    pub fn status(&self, to: Option<&str>, channel: Option<&str>, body: &str) -> (r: Result<
        Plan,
        Error,
    >)
        ensures
            self@.message_sent(
                text::opt_text(to),
                text::opt_text(channel),
                "status"@,
                Seq::empty(),
                body@,
                r,
            ),
    {
        let own = self.envelope("status");
        assert(own@.skip(2) =~= Seq::empty());
        self.message(to, channel, "status", own, body)
    }

    /// Asks a typed question as this role, with suggested answers, targeted
    /// like [`Broker::send`].
    pub fn ask(
        &self,
        to: Option<&str>,
        channel: Option<&str>,
        body: &str,
        options: &[String],
    ) -> (r: Result<Plan, Error>)
        ensures
            self@.message_sent(
                text::opt_text(to),
                text::opt_text(channel),
                "question"@,
                seq![member("options"@, JsonView::Array(json::text_items(options@)))],
                body@,
                r,
            ),
    {
        let own = self.envelope("question").with("options", json::text_array(options));
        assert(own@.skip(2) =~= seq![
            member("options"@, JsonView::Array(json::text_items(options@))),
        ]);
        self.message(to, channel, "question", own, body)
    }

    /// Answers a question as this role, naming the message it replies to. An
    /// `in_reply_to` that is no message id is refused.
    pub fn answer(
        &self,
        to: Option<&str>,
        channel: Option<&str>,
        body: &str,
        in_reply_to: &str,
    ) -> (r: Result<Plan, Error>)
        ensures
            id::uuid_parse(in_reply_to@) is Some ==> self@.message_sent(
                text::opt_text(to),
                text::opt_text(channel),
                "answer"@,
                seq![says("in_reply_to"@, in_reply_to@)],
                body@,
                r,
            ),
            id::uuid_parse(in_reply_to@) is None ==> (r matches Err(Error::Invalid(why)) && why@
                == not_an_id(
                in_reply_to@,
                ChannelView::addressed(
                    text::opt_text(to),
                    text::opt_text(channel),
                    self@.commander,
                ) is Some,
            )),
    {
        let own = self.envelope("answer").with("in_reply_to", Json::text(in_reply_to));
        assert(own@.skip(2) =~= seq![says("in_reply_to"@, in_reply_to@)]);
        let sent = self.message(to, channel, "answer", own, body);
        if sent.is_ok() && MessageId::parse(in_reply_to).is_err() {
            return Err(
                Error::Invalid("`".to_owned().concat(in_reply_to).concat("` is not a message id")),
            );
        }
        sent
    }

    /// References a produced thing as this role, targeted like
    /// [`Broker::send`]. An unknown artifact kind is refused.
    pub fn artifact(
        &self,
        to: Option<&str>,
        channel: Option<&str>,
        body: &str,
        reference: &str,
        artifact_kind: &str,
    ) -> (r: Result<Plan, Error>)
        ensures
            artifact_kind_known(artifact_kind@) ==> self@.message_sent(
                text::opt_text(to),
                text::opt_text(channel),
                "artifact"@,
                seq![says("reference"@, reference@), says("artifact_kind"@, artifact_kind@)],
                body@,
                r,
            ),
            !artifact_kind_known(artifact_kind@) ==> (r matches Err(Error::Invalid(why)) && why@
                == "`"@ + artifact_kind@
                + "` is not an artifact kind; use branch, pull_request, file, or route"@),
    {
        if !(text::same(artifact_kind, "branch") || text::same(artifact_kind, "pull_request")
            || text::same(artifact_kind, "file") || text::same(artifact_kind, "route")) {
            return Err(
                Error::Invalid(
                    "`".to_owned().concat(artifact_kind).concat(
                        "` is not an artifact kind; use branch, pull_request, file, or route",
                    ),
                ),
            );
        }
        let own = self.envelope("artifact").with("reference", Json::text(reference)).with(
            "artifact_kind",
            Json::text(artifact_kind),
        );
        assert(own@.skip(2) =~= seq![
            says("reference"@, reference@),
            says("artifact_kind"@, artifact_kind@),
        ]);
        self.message(to, channel, "artifact", own, body)
    }

    /// Asks for the General's sign-off on a risky action, where the role's rules
    /// gate it: nothing is posted for an action that needs none. The request
    /// goes where an unaddressed message does, to the commander.
    pub fn request_approval(
        &self,
        rules: &RulesOfEngagement,
        action: ActionKind,
        amount: Option<u64>,
        detail: &str,
    ) -> (r: Option<Result<Plan, Error>>)
        ensures
            match r {
                Some(asked) => rules.needs_approval(action, amount) && self@.message_sent(
                    None,
                    None,
                    "approval_request"@,
                    seq![says("action"@, action.label_text())],
                    detail@,
                    asked,
                ),
                None => !rules.needs_approval(action, amount),
            },
    {
        if !rules.requires_approval(action, amount) {
            return None;
        }
        let own = self.envelope("approval_request").with("action", Json::text(action.label()));
        assert(own@.skip(2) =~= seq![says("action"@, action.label_text())]);
        Some(self.message(None, None, "approval_request", own, detail))
    }

    /// The direct channel of a single specialist.
    fn specialist_channel(&self, to: &str) -> (r: Option<Channel>)
        ensures
            match specialist(to@, self@.commander) {
                Some(role) => r matches Some(channel) && channel@ == ChannelView::Direct(role),
                None => r is None,
            },
    {
        match Channel::resolve(Some(to), None, &self.commander) {
            Some(Channel::Direct(role)) => Some(Channel::Direct(role)),
            _ => None,
        }
    }

    /// Issues an order as this role to `to`, giving the specialist a scoped
    /// task. The order carries the task the role works under, or a fresh one,
    /// so the work done under it correlates to it.
    pub fn order(
        &self,
        to: &str,
        title: &str,
        scope: &str,
        owned_paths: &[String],
        acceptance: &str,
        body: &str,
    ) -> (r: Result<Plan, Error>)
        ensures
            exists|task: TaskId|
                #[trigger] self@.may_order_under(task) && self@.ordered(
                    task,
                    to@,
                    title@,
                    scope@,
                    text::texts(owned_paths@),
                    acceptance@,
                    body@,
                    r,
                ),
    {
        let task = match self.task {
            Some(task) => task,
            None => TaskId::new(),
        };
        assert(self@.may_order_under(task));
        self.order_under(task, to, title, scope, owned_paths, acceptance, body)
    }

    /// Issues an order as this role to `to` under a task.
    pub fn order_under(
        &self,
        task: TaskId,
        to: &str,
        title: &str,
        scope: &str,
        owned_paths: &[String],
        acceptance: &str,
        body: &str,
    ) -> (r: Result<Plan, Error>)
        ensures
            self@.ordered(
                task,
                to@,
                title@,
                scope@,
                text::texts(owned_paths@),
                acceptance@,
                body@,
                r,
            ),
    {
        match self.specialist_channel(to) {
            Some(target) => {
                let members = self.envelope("order").with("title", Json::text(title)).with(
                    "scope",
                    Json::text(scope),
                ).with("owned_paths", json::text_array(owned_paths)).with(
                    "acceptance",
                    Json::text(acceptance),
                ).with("body", Json::text(body));
                let payload = stamp(members, Some(task)).build();
                proof {
                    let own = order_members(
                        title@,
                        scope@,
                        text::texts(owned_paths@),
                        acceptance@,
                    );
                    assert(json::text_items(owned_paths@) =~= all_texts(
                        text::texts(owned_paths@),
                    ));
                    assert(payload@->Object_0 =~= message_payload(
                        self@.role,
                        "order"@,
                        own,
                        body@,
                        Some(task),
                    )->Object_0);
                }
                Ok(
                    Plan::Send {
                        request: to_channel(target.name().as_str(), payload),
                        done: "ordered ".to_owned().concat(to).concat(": ").concat(title),
                    },
                )
            },
            None => Err(
                Error::Invalid(
                    "`".to_owned().concat(to).concat(
                        "` is not a role to order; name a single specialist",
                    ),
                ),
            ),
        }
    }

    /// Steers a specialist mid-task without stopping it.
    pub fn redirect(&self, to: &str, body: &str) -> (r: Result<Plan, Error>)
        ensures
            self@.directive_sent(to@, "redirect"@, body@, r),
    {
        self.directive("redirect", to, body)
    }

    /// Halts a specialist's current work and re-tasks it.
    pub fn belay(&self, to: &str, body: &str) -> (r: Result<Plan, Error>)
        ensures
            self@.directive_sent(to@, "belay"@, body@, r),
    {
        self.directive("belay", to, body)
    }

    fn directive(&self, kind: &str, to: &str, body: &str) -> (r: Result<Plan, Error>)
        ensures
            self@.directive_sent(to@, kind@, body@, r),
    {
        match self.specialist_channel(to) {
            Some(target) => {
                let members = self.envelope(kind).with("body", Json::text(body));
                let payload = stamp(members, self.task).build();
                proof {
                    assert(payload@->Object_0 =~= message_payload(
                        self@.role,
                        kind@,
                        Seq::empty(),
                        body@,
                        self@.task,
                    )->Object_0);
                }
                Ok(
                    Plan::Send {
                        request: to_channel(target.name().as_str(), payload),
                        done: kind.to_owned().concat(" sent to ").concat(to),
                    },
                )
            },
            None => Err(
                Error::Invalid(
                    "`".to_owned().concat(to).concat(
                        "` is not a role to steer; name a single specialist",
                    ),
                ),
            ),
        }
    }
}

/// What an answer with a bad id is told: that it cannot be routed, or that the
/// id is none.
pub open spec fn not_an_id(in_reply_to: Seq<char>, routable: bool) -> Seq<char> {
    if routable {
        "`"@ + in_reply_to + "` is not a message id"@
    } else {
        UNROUTABLE@
    }
}

/// The body of a claim.
pub open spec fn claim_payload(
    role: Seq<char>,
    task: Seq<char>,
    state: Seq<char>,
    title: Seq<char>,
) -> JsonView {
    JsonView::Object(
        seq![says("task"@, task), says("owner"@, role), says("state"@, state), says("title"@, title)],
    )
}

/// The body of a registration.
pub open spec fn register_payload(role: Seq<char>, owned_paths: Seq<String>) -> JsonView {
    JsonView::Object(
        seq![
            says("role"@, role),
            member("owned_paths"@, JsonView::Array(json::text_items(owned_paths))),
        ],
    )
}

/// The report of a lane crossing.
pub open spec fn boundary_payload(role: Seq<char>, path: Seq<char>, blocked: bool) -> JsonView {
    JsonView::Object(
        seq![
            says("role"@, role),
            says("path"@, path),
            member("blocked"@, JsonView::Bool(blocked)),
        ],
    )
}

/// The body of a submission, naming who is to verify it where one is given.
pub open spec fn submit_payload(
    role: Seq<char>,
    task: Seq<char>,
    acceptance: Seq<char>,
    to: Option<Seq<char>>,
) -> JsonView {
    let always = seq![says("role"@, role), says("task"@, task), says("acceptance"@, acceptance)];
    JsonView::Object(
        match to {
            Some(verifier) => always.push(says("to"@, verifier)),
            None => always,
        },
    )
}

/// The body of a verdict.
pub open spec fn verdict_payload(
    role: Seq<char>,
    task: Seq<char>,
    pass: bool,
    failure: Seq<char>,
) -> JsonView {
    JsonView::Object(
        seq![
            says("role"@, role),
            says("task"@, task),
            member("pass"@, JsonView::Bool(pass)),
            says("failure"@, failure),
        ],
    )
}

/// The body of a completion report.
pub open spec fn complete_payload(role: Seq<char>, summary: Seq<char>) -> JsonView {
    JsonView::Object(seq![says("role"@, role), says("summary"@, summary)])
}

/// The body of a board entry.
pub open spec fn record_payload(
    role: Seq<char>,
    key: Seq<char>,
    section: Seq<char>,
    body: Seq<char>,
) -> JsonView {
    JsonView::Object(
        seq![says("role"@, role), says("key"@, key), says("section"@, section), says("body"@, body)],
    )
}

/// The body of a board retraction.
pub open spec fn retract_payload(role: Seq<char>, key: Seq<char>) -> JsonView {
    JsonView::Object(
        seq![says("role"@, role), says("key"@, key), member("retract"@, JsonView::Bool(true))],
    )
}

/// What a lane check does: an in-lane path proceeds; an out-of-lane path is
/// reported and warned about, or reported and refused, or merely noted.
pub open spec fn lane_checked(
    role: Seq<char>,
    owned_paths: Seq<String>,
    enforcement: LaneEnforcement,
    path: Seq<char>,
    plan: Plan,
) -> bool {
    if lane::in_lane(owned_paths, path) {
        plan matches Plan::Answer(answer) && answer@ == "`"@ + path
            + "` is in your lane; proceed."@
    } else {
        match enforcement {
            LaneEnforcement::Off => plan matches Plan::Answer(answer) && answer@ == "`"@ + path
                + LANE_OFF@,
            LaneEnforcement::Warn => plan.sends(
                "/boundary"@,
                boundary_payload(role, path, false),
                "`"@ + path + LANE_WARNING@,
            ),
            LaneEnforcement::Block => plan matches Plan::SendThenRefuse { request, refusal }
                && request.posts("/boundary"@, boundary_payload(role, path, true)) && refusal@
                == "`"@ + path + LANE_REFUSAL@,
        }
    }
}

/// The confirmation of a verdict.
pub open spec fn verdict_done(task: Seq<char>, pass: bool) -> Seq<char> {
    if pass {
        "verified `"@ + task + "`: it holds against its acceptance. Marked done."@
    } else {
        "failed `"@ + task + "` and returned it to its owner with the failure."@
    }
}

/// A post of `body` to `path`, confirmed with `done`.
fn send_to(path: &str, body: Json, done: String) -> (r: Plan)
    ensures
        r.sends(path@, body@, done@),
{
    Plan::Send { request: Request::Post { path: path.to_owned(), body }, done }
}

/// The query parameters of a briefing read, as texts.
pub open spec fn query_texts(query: Seq<(String, String)>) -> Seq<(Seq<char>, Seq<char>)> {
    query.map_values(|q: (String, String)| (q.0@, q.1@))
}

/// The query parameters that a briefing read carries.
pub open spec fn briefing_query(
    role: Seq<char>,
    task: Option<Seq<char>>,
    budget: Option<usize>,
) -> Seq<(Seq<char>, Seq<char>)> {
    let base = seq![("role"@, role)];
    let narrowed = match task {
        Some(task) => base.push(("task"@, task)),
        None => base,
    };
    match budget {
        Some(budget) => narrowed.push(("budget"@, number::decimal(budget as nat))),
        None => narrowed,
    }
}

impl Broker {
    /// Claims `task` for this role, or moves the role's claim to `state`.
    pub fn claim(&self, task: &str, state: &str, title: &str) -> (r: Plan)
        ensures
            r.sends(
                "/ledger"@,
                claim_payload(self@.role, task@, state@, title@),
                state@ + ": "@ + task@,
            ),
    {
        let payload = Fields::new().with("task", Json::text(task)).with(
            "owner",
            Json::text(self.role.as_str()),
        ).with("state", Json::text(state)).with("title", Json::text(title)).build();
        assert(payload@->Object_0 =~= claim_payload(
            self@.role,
            task@,
            state@,
            title@,
        )->Object_0);
        send_to("/ledger", payload, state.to_owned().concat(": ").concat(task))
    }

    /// Reads the work ledger.
    pub fn ledger(&self) -> (r: Request)
        ensures
            r.reads("/ledger"@),
    {
        read("/ledger")
    }

    /// Registers this role on the roster with the lane it owns.
    pub fn register(&self, owned_paths: &[String]) -> (r: Request)
        ensures
            r.posts("/roster"@, register_payload(self@.role, owned_paths@)),
    {
        let body = Fields::new().with("role", Json::text(self.role.as_str())).with(
            "owned_paths",
            json::text_array(owned_paths),
        ).build();
        assert(body@->Object_0 =~= register_payload(self@.role, owned_paths@)->Object_0);
        Request::Post { path: "/roster".to_owned(), body }
    }

    /// Checks whether `path` is in the role's lane, warning or blocking per
    /// `enforcement` where it is not.
    pub fn check_lane(
        &self,
        owned_paths: &[String],
        enforcement: LaneEnforcement,
        path: &str,
    ) -> (r: Plan)
        ensures
            lane_checked(self@.role, owned_paths@, enforcement, path@, r),
    {
        let named = "`".to_owned().concat(path);
        if lane::path_in_lane(owned_paths, path) {
            return Plan::Answer(named.concat("` is in your lane; proceed."));
        }
        match enforcement {
            LaneEnforcement::Off => Plan::Answer(named.concat(LANE_OFF)),
            LaneEnforcement::Warn => Plan::Send {
                request: self.report_boundary(path, false),
                done: named.concat(LANE_WARNING),
            },
            LaneEnforcement::Block => Plan::SendThenRefuse {
                request: self.report_boundary(path, true),
                refusal: named.concat(LANE_REFUSAL),
            },
        }
    }

    /// The report of a lane crossing.
    fn report_boundary(&self, path: &str, blocked: bool) -> (r: Request)
        ensures
            r.posts("/boundary"@, boundary_payload(self@.role, path@, blocked)),
    {
        let body = Fields::new().with("role", Json::text(self.role.as_str())).with(
            "path",
            Json::text(path),
        ).with("blocked", Json::Bool(blocked)).build();
        assert(body@->Object_0 =~= boundary_payload(self@.role, path@, blocked)->Object_0);
        Request::Post { path: "/boundary".to_owned(), body }
    }

    /// Submits this role's finished work for adversarial verification.
    pub fn submit(&self, task: &str, acceptance: &str, to: Option<&str>) -> (r: Plan)
        ensures
            r.sends(
                "/gate/submit"@,
                submit_payload(self@.role, task@, acceptance@, text::opt_text(to)),
                "submitted `"@ + task@ + SUBMITTED@,
            ),
    {
        let always = Fields::new().with("role", Json::text(self.role.as_str())).with(
            "task",
            Json::text(task),
        ).with("acceptance", Json::text(acceptance));
        let payload = match to {
            Some(verifier) => always.with("to", Json::text(verifier)).build(),
            None => always.build(),
        };
        assert(payload@->Object_0 =~= submit_payload(
            self@.role,
            task@,
            acceptance@,
            text::opt_text(to),
        )->Object_0);
        send_to("/gate/submit", payload, "submitted `".to_owned().concat(task).concat(SUBMITTED))
    }

    /// Reports the mission gracefully complete.
    pub fn complete(&self, summary: &str) -> (r: Plan)
        ensures
            r.sends(
                "/complete"@,
                complete_payload(self@.role, summary@),
                "reported the mission complete to the unit."@,
            ),
    {
        let payload = Fields::new().with("role", Json::text(self.role.as_str())).with(
            "summary",
            Json::text(summary),
        ).build();
        assert(payload@->Object_0 =~= complete_payload(self@.role, summary@)->Object_0);
        send_to(
            "/complete",
            payload,
            "reported the mission complete to the unit.".to_owned(),
        )
    }

    /// Records this role's verdict on a task another role submitted.
    pub fn verdict(&self, task: &str, pass: bool, failure: &str) -> (r: Plan)
        ensures
            r.sends(
                "/gate/verdict"@,
                verdict_payload(self@.role, task@, pass, failure@),
                verdict_done(task@, pass),
            ),
    {
        let payload = Fields::new().with("role", Json::text(self.role.as_str())).with(
            "task",
            Json::text(task),
        ).with("pass", Json::Bool(pass)).with("failure", Json::text(failure)).build();
        assert(payload@->Object_0 =~= verdict_payload(
            self@.role,
            task@,
            pass,
            failure@,
        )->Object_0);
        let done = if pass {
            "verified `".to_owned().concat(task).concat(
                "`: it holds against its acceptance. Marked done.",
            )
        } else {
            "failed `".to_owned().concat(task).concat(
                "` and returned it to its owner with the failure.",
            )
        };
        send_to("/gate/verdict", payload, done)
    }

    /// Reads the done-gate.
    pub fn gate(&self) -> (r: Request)
        ensures
            r.reads("/gate"@),
    {
        read("/gate")
    }

    /// Records a decision, interface, or gotcha on the shared situation board.
    pub fn record(&self, key: &str, section: &str, body: &str) -> (r: Plan)
        ensures
            r.sends(
                "/board"@,
                record_payload(self@.role, key@, section@, body@),
                "recorded `"@ + key@ + "` on the board ("@ + section@ + ")."@,
            ),
    {
        let payload = Fields::new().with("role", Json::text(self.role.as_str())).with(
            "key",
            Json::text(key),
        ).with("section", Json::text(section)).with("body", Json::text(body)).build();
        assert(payload@->Object_0 =~= record_payload(
            self@.role,
            key@,
            section@,
            body@,
        )->Object_0);
        send_to(
            "/board",
            payload,
            "recorded `".to_owned().concat(key).concat("` on the board (").concat(section).concat(
                ").",
            ),
        )
    }

    /// Retracts a board entry the crew no longer holds.
    pub fn retract(&self, key: &str) -> (r: Plan)
        ensures
            r.sends(
                "/board"@,
                retract_payload(self@.role, key@),
                "retracted `"@ + key@ + "` from the board."@,
            ),
    {
        let payload = Fields::new().with("role", Json::text(self.role.as_str())).with(
            "key",
            Json::text(key),
        ).with("retract", Json::Bool(true)).build();
        assert(payload@->Object_0 =~= retract_payload(self@.role, key@)->Object_0);
        send_to(
            "/board",
            payload,
            "retracted `".to_owned().concat(key).concat("` from the board."),
        )
    }

    /// Reads the shared situation board, optionally one section of it.
    pub fn board(&self, section: Option<&str>) -> (r: Request)
        ensures
            r.reads(
                match section {
                    Some(section) => "/board?section="@ + section@,
                    None => "/board"@,
                },
            ),
    {
        match section {
            Some(section) => read("/board?section=".to_owned().concat(section).as_str()),
            None => read("/board"),
        }
    }

    /// Fetches this role's bounded briefing packet, optionally narrowed to a
    /// task and held to a byte budget.
    pub fn briefing(&self, task: Option<&str>, budget: Option<usize>) -> (r: Request)
        ensures
            r matches Request::Get { path, query } && path@ == "/briefing"@ && query_texts(query@)
                == briefing_query(self@.role, text::opt_text(task), budget),
    {
        let mut query: Vec<(String, String)> = Vec::new();
        query.push(("role".to_owned(), self.role.as_str().to_owned()));
        if let Some(task) = task {
            query.push(("task".to_owned(), task.to_owned()));
        }
        if let Some(budget) = budget {
            query.push(("budget".to_owned(), number::decimal_usize(budget)));
        }
        assert(query_texts(query@) =~= briefing_query(self@.role, text::opt_text(task), budget));
        Request::Get { path: "/briefing".to_owned(), query }
    }

    /// Reads the roster.
    pub fn roster(&self) -> (r: Request)
        ensures
            r.reads("/roster"@),
    {
        read("/roster")
    }

    /// One page of the message log, after a history cursor where one is given.
    pub fn history(&self, after: Option<&str>) -> (r: Request)
        ensures
            r.reads(
                match after {
                    Some(cursor) => "/history?kind=message&limit=500&after="@ + cursor@,
                    None => "/history?kind=message&limit=500"@,
                },
            ),
    {
        match after {
            Some(cursor) => read(
                "/history?kind=message&limit=500&after=".to_owned().concat(cursor).as_str(),
            ),
            None => read("/history?kind=message&limit=500"),
        }
    }

    /// The role's live inbox stream.
    pub fn inbox_stream(&self) -> (r: Request)
        ensures
            r.reads("/inbox?role="@ + self@.role),
    {
        read("/inbox?role=".to_owned().concat(self.role.as_str()).as_str())
    }

    /// The message for a reply that is no acceptance: the broker's own reason,
    /// its status, or that it could not be reached.
    pub fn explain(&self, reply: &Reply) -> (r: Option<Error>)
        ensures
            match *reply {
                Reply::Accepted => r is None,
                Reply::Refused { status, .. } => r matches Some(
                    Error::Rejected { status: s, message },
                ) && s == Some(status) && message@ == self@.explanation(*reply),
                Reply::Unreachable(_) => r matches Some(Error::Unreachable(message)) && message@
                    == self@.explanation(*reply),
            },
    {
        match reply {
            Reply::Accepted => None,
            Reply::Refused { status, text } => {
                let reason = match text {
                    Some(text) => base::broker_error(text.as_str()),
                    None => None,
                };
                let message = match reason {
                    Some(reason) => reason,
                    None => "the broker returned HTTP ".to_owned().concat(
                        number::decimal_u64(*status as u64).as_str(),
                    ),
                };
                Some(Error::Rejected { status: Some(*status), message })
            },
            Reply::Unreachable(why) => Some(
                Error::Unreachable(
                    "could not reach the broker at ".to_owned().concat(self.base.as_str()).concat(
                        ": ",
                    ).concat(why.as_str()),
                ),
            ),
        }
    }

    /// The outcome of a plan, given what came back for its request (nothing
    /// matters of the reply where the plan sends none).
    pub fn settle(&self, plan: Plan, reply: &Reply) -> (r: Result<String, Error>)
        ensures
            outcome_text(r) == self@.outcome(plan, *reply),
            r matches Err(error) ==> (match *reply {
                Reply::Accepted => error is Invalid,
                Reply::Refused { status, .. } => error matches Error::Rejected { status: s, .. }
                    && s == Some(status),
                Reply::Unreachable(_) => error is Unreachable,
            }),
    {
        match plan {
            Plan::Answer(answer) => Ok(answer),
            Plan::Send { done, .. } => match self.explain(reply) {
                None => Ok(done),
                Some(error) => Err(error),
            },
            Plan::SendThenRefuse { refusal, .. } => match self.explain(reply) {
                None => Err(Error::Invalid(refusal)),
                Some(error) => Err(error),
            },
        }
    }
}

/// The id of the message that an event carries.
pub open spec fn message_id(e: Event) -> Option<MessageId> {
    match e.kind {
        EventKind::Message(message) => Some(message.id),
        _ => None,
    }
}

/// The place right after the last message of the log with an id; the start of
/// the log where there is none.
pub open spec fn after_message(messages: Seq<Event>, id: MessageId) -> int
    decreases messages.len(),
{
    if messages.len() == 0 {
        0
    } else if message_id(messages.last()) == Some(id) {
        messages.len() as int
    } else {
        after_message(messages.drop_last(), id)
    }
}

/// The task of the last order in a list of events that carries one, else
/// `task`.
pub open spec fn adopted(task: Option<TaskId>, events: Seq<Event>) -> Option<TaskId>
    decreases events.len(),
{
    if events.len() == 0 {
        task
    } else if is_order(events.last()) && events.last().task is Some {
        events.last().task
    } else {
        adopted(task, events.drop_last())
    }
}

/// Whether an event is an order.
pub open spec fn is_order(e: Event) -> bool {
    e.kind matches EventKind::Message(message) && message.kind is Order
}

impl BrokerView {
    /// Where in the log the next pull-based read starts: right after the last
    /// message read, or by the count where no message is known.
    pub open spec fn starts(self, messages: Seq<Event>) -> int {
        match self.cursor {
            Some(id) => after_message(messages, id),
            None => if self.read_through <= messages.len() {
                self.read_through as int
            } else {
                messages.len() as int
            },
        }
    }

    /// The messages of the log that the next pull-based read looks at.
    pub open spec fn unread(self, messages: Seq<Event>) -> Seq<Event> {
        messages.skip(self.starts(messages))
    }

    /// The events that the next pull-based read delivers.
    pub open spec fn fresh(self, messages: Seq<Event>) -> Seq<Event> {
        self.unread(messages).filter(inbox::for_role(self.role))
    }

    /// The client after a pull-based read: at the end of the log, under the
    /// task of the last order read.
    pub open spec fn after_read(self, messages: Seq<Event>) -> BrokerView {
        BrokerView {
            read_through: messages.len(),
            cursor: if messages.len() > 0 && message_id(messages.last()) is Some {
                message_id(messages.last())
            } else {
                self.cursor
            },
            task: adopted(self.task, self.fresh(messages)),
            ..self
        }
    }
}

/// The place right after the last message of the log with an id.
fn find_after(messages: &[Event], id: MessageId) -> (r: usize)
    ensures
        r == after_message(messages@, id),
        r <= messages@.len(),
{
    let mut i: usize = messages.len();
    assert(messages@.take(messages@.len() as int) =~= messages@);
    while i > 0
        invariant
            i <= messages.len(),
            after_message(messages@, id) == after_message(messages@.take(i as int), id),
        decreases i,
    {
        let ghost part = messages@.take(i as int);
        assert(part.last() == messages@[i - 1]);
        assert(part.drop_last() =~= messages@.take(i - 1));
        if let EventKind::Message(message) = &messages[i - 1].kind {
            if message.id.0 == id.0 {
                return i;
            }
        }
        i = i - 1;
    }
    0
}

/// The task of the last order for a role from position `start` on that carries
/// one, else `task`.
fn adopt(task: Option<TaskId>, messages: &[Event], start: usize, role: &RoleId) -> (r: Option<
    TaskId,
>)
    requires
        start <= messages.len(),
    ensures
        r == adopted(task, messages@.skip(start as int).filter(inbox::for_role(role@))),
{
    let ghost rest = messages@.skip(start as int);
    let ghost p = inbox::for_role(role@);
    let mut current = task;
    let mut i: usize = start;
    proof {
        reveal(Seq::filter);
        assert(rest.take(0).filter(p) =~= Seq::<Event>::empty());
    }
    while i < messages.len()
        invariant
            start <= i <= messages.len(),
            rest == messages@.skip(start as int),
            p == inbox::for_role(role@),
            current == adopted(task, rest.take(i - start).filter(p)),
        decreases messages.len() - i,
    {
        let e = &messages[i];
        let ghost so_far = rest.take(i - start).filter(p);
        proof {
            reveal(Seq::filter);
            let longer = rest.take(i - start + 1);
            assert(longer.drop_last() =~= rest.take(i - start));
            assert(longer.last() == *e);
            if p(*e) {
                assert(longer.filter(p) == so_far.push(*e));
                assert(so_far.push(*e).drop_last() =~= so_far);
            }
        }
        if inbox::addressed_message_id(e, role).is_some() {
            if let EventKind::Message(message) = &e.kind {
                if let MessageKind::Order { .. } = &message.kind {
                    if e.task.is_some() {
                        current = e.task;
                    }
                }
            }
        }
        i = i + 1;
    }
    assert(rest.take(rest.len() as int) =~= rest);
    current
}

impl Broker {
    /// The messages addressed to this role that arrived since the last
    /// pull-based read, given the whole message log. The role adopts the task
    /// of the last order among them.
    pub fn inbox(&mut self, messages: &[Event]) -> (r: Vec<InboxItem>)
        ensures
            inbox::items_show(r@, old(self)@.fresh(messages@)),
            final(self)@ == old(self)@.after_read(messages@),
    {
        let start: usize = match self.cursor {
            Some(id) => find_after(messages, id),
            None => if self.read_through <= messages.len() {
                self.read_through
            } else {
                messages.len()
            },
        };
        let items = inbox::items_from(messages, start, &self.role);
        self.task = adopt(self.task, messages, start, &self.role);
        self.read_through = messages.len();
        if messages.len() > 0 {
            if let EventKind::Message(message) = &messages[messages.len() - 1].kind {
                self.cursor = Some(message.id);
            }
        }
        items
    }

    /// The messages that a live subscription's drained events hold for this
    /// role. The role adopts the task of the last order among them.
    pub fn delivered(&mut self, events: &[Event]) -> (r: Vec<InboxItem>)
        ensures
            inbox::items_show(r@, events@.filter(inbox::for_role(old(self)@.role))),
            final(self)@ == (BrokerView {
                task: adopted(
                    old(self)@.task,
                    events@.filter(inbox::for_role(old(self)@.role)),
                ),
                ..old(self)@
            }),
    {
        assert(events@.skip(0) =~= events@);
        let items = inbox::items_from(events, 0, &self.role);
        self.task = adopt(self.task, events, 0, &self.role);
        items
    }
}

/// The message log under fetch, page by page, oldest first.
#[derive(Debug)]
pub struct MessageLog {
    events: Vec<Event>,
    after: Option<String>,
    complete: bool,
}

/// A log under fetch by what it holds.
pub struct LogView {
    /// The events of the pages so far.
    pub events: Seq<Event>,
    /// The cursor that the next page is read after.
    pub after: Option<Seq<char>>,
    /// Whether the last page has come.
    pub complete: bool,
}

impl View for MessageLog {
    type V = LogView;

    closed spec fn view(&self) -> LogView {
        LogView {
            events: self.events@,
            after: text::opt_string(self.after),
            complete: self.complete,
        }
    }
}

impl LogView {
    /// The log after one more page.
    pub open spec fn with_page(self, events: Seq<Event>, next: Option<Seq<char>>) -> LogView {
        LogView {
            events: self.events + events,
            after: match next {
                Some(cursor) => Some(cursor),
                None => self.after,
            },
            complete: next is None,
        }
    }
}

impl MessageLog {
    /// A log of which nothing has been fetched.
    pub fn new() -> (r: Self)
        ensures
            r@ == (LogView { events: Seq::empty(), after: None, complete: false }),
    {
        let r = MessageLog { events: Vec::new(), after: None, complete: false };
        assert(r@.events =~= Seq::empty());
        r
    }

    /// The request for the next page, until the last one has come.
    pub fn next_page(&self, broker: &Broker) -> (r: Option<Request>)
        ensures
            match r {
                Some(request) => !self@.complete && request.reads(
                    match self@.after {
                        Some(cursor) => "/history?kind=message&limit=500&after="@ + cursor,
                        None => "/history?kind=message&limit=500"@,
                    },
                ),
                None => self@.complete,
            },
    {
        if self.complete {
            return None;
        }
        match &self.after {
            Some(cursor) => Some(broker.history(Some(cursor.as_str()))),
            None => Some(broker.history(None)),
        }
    }

    /// Takes a page in, with the cursor to the next one, if there is one.
    pub fn take_page(&mut self, events: Vec<Event>, next: Option<String>)
        ensures
            final(self)@ == old(self)@.with_page(events@, text::opt_string(next)),
    {
        let mut events = events;
        self.events.append(&mut events);
        match next {
            Some(cursor) => {
                self.after = Some(cursor);
                self.complete = false;
            },
            None => {
                self.complete = true;
            },
        }
    }

    /// The events fetched, oldest first.
    pub fn into_events(self) -> (r: Vec<Event>)
        ensures
            r@ == self@.events,
    {
        self.events
    }
}

/// Whether a log holds messages only, no two with the same id.
pub open spec fn is_log(messages: Seq<Event>) -> bool {
    &&& forall|i: int| 0 <= i < messages.len() ==> message_id(#[trigger] messages[i]) is Some
    &&& forall|i: int, j: int|
        0 <= i < j < messages.len() ==> message_id(#[trigger] messages[i]) != message_id(
            #[trigger] messages[j],
        )
}

/// The place after a message of a log is right after it.
proof fn lemma_after_message(messages: Seq<Event>, i: int)
    requires
        is_log(messages),
        0 <= i < messages.len(),
    ensures
        after_message(messages, message_id(messages[i])->0) == i + 1,
    decreases messages.len(),
{
    if i < messages.len() - 1 {
        assert(message_id(messages[i]) != message_id(messages.last()));
        let shorter = messages.drop_last();
        assert(shorter[i] == messages[i]);
        assert forall|a: int, b: int| 0 <= a < b < shorter.len() implies message_id(
            #[trigger] shorter[a],
        ) != message_id(#[trigger] shorter[b]) by {
            assert(shorter[a] == messages[a] && shorter[b] == messages[b]);
        }
        lemma_after_message(shorter, i);
    }
}

/// The place after a message that a log does not hold is its start.
proof fn lemma_after_unknown(messages: Seq<Event>, id: MessageId)
    requires
        forall|i: int| 0 <= i < messages.len() ==> message_id(#[trigger] messages[i]) != Some(id),
    ensures
        after_message(messages, id) == 0,
    decreases messages.len(),
{
    if messages.len() > 0 {
        assert(message_id(messages[messages.len() - 1]) != Some(id));
        lemma_after_unknown(messages.drop_last(), id);
    }
}

/// After a read, the next read of the log, grown or not, starts where the last
/// one ended: nothing is delivered twice and nothing is skipped. (A client that
/// was seeded with a message and has read an empty log still looks for it.)
pub proof fn a_later_read_starts_where_the_last_ended(
    b: BrokerView,
    earlier: Seq<Event>,
    later: Seq<Event>,
)
    requires
        is_log(later),
        earlier.is_prefix_of(later),
        earlier.len() > 0 || b.cursor is None,
    ensures
        b.after_read(earlier).unread(later) == later.skip(earlier.len() as int),
{
    if earlier.len() > 0 {
        let i = earlier.len() - 1;
        assert(earlier[i] == later[i]);
        assert(message_id(later[i]) is Some);
        lemma_after_message(later, i);
    }
}

/// Reading a growing log twice delivers each addressed message once: the two
/// reads together are one read of the longer log.
pub proof fn reads_split_the_log(b: BrokerView, earlier: Seq<Event>, later: Seq<Event>)
    requires
        is_log(later),
        earlier.is_prefix_of(later),
        b.cursor is None,
        b.read_through <= earlier.len(),
    ensures
        b.fresh(later) == b.fresh(earlier) + b.after_read(earlier).fresh(later),
{
    let p = inbox::for_role(b.role);
    let next = b.after_read(earlier);
    a_later_read_starts_where_the_last_ended(b, earlier, later);
    assert(b.unread(later) =~= b.unread(earlier) + next.unread(later));
    Seq::filter_distributes_over_add(b.unread(earlier), next.unread(later), p);
}

/// A second read of the same log delivers nothing.
pub proof fn a_read_log_has_nothing_new(b: BrokerView, messages: Seq<Event>)
    requires
        is_log(messages),
    ensures
        b.after_read(messages).unread(messages).len() == 0,
{
    if messages.len() > 0 {
        lemma_after_message(messages, messages.len() - 1);
    }
}

/// A client seeded with a message that the log does not hold reads the whole
/// log, rather than skipping new messages.
pub proof fn an_unknown_cursor_replays_the_log(
    b: BrokerView,
    id: MessageId,
    messages: Seq<Event>,
)
    requires
        b.cursor == Some(id),
        forall|i: int| 0 <= i < messages.len() ==> message_id(#[trigger] messages[i]) != Some(id),
    ensures
        b.unread(messages) == messages,
{
    lemma_after_unknown(messages, id);
    assert(messages.skip(0) =~= messages);
}

/// An order read last is adopted: what the role sends next carries its task.
pub proof fn an_order_is_adopted(b: BrokerView, messages: Seq<Event>)
    requires
        b.fresh(messages).len() > 0,
        is_order(b.fresh(messages).last()),
        b.fresh(messages).last().task is Some,
    ensures
        b.after_read(messages).task == b.fresh(messages).last().task,
{
}

/// Under a blocking policy no check of a path outside the lane is confirmed,
/// whatever the broker replies to the report of it.
pub proof fn a_blocked_lane_is_never_confirmed(
    b: BrokerView,
    owned_paths: Seq<String>,
    path: Seq<char>,
    plan: Plan,
    reply: Reply,
)
    requires
        lane_checked(b.role, owned_paths, LaneEnforcement::Block, path, plan),
        !lane::in_lane(owned_paths, path),
    ensures
        b.outcome(plan, reply) is Err,
{
}

/// A posted call is confirmed exactly where the broker accepted it.
pub proof fn only_an_accepted_call_is_confirmed(b: BrokerView, plan: Plan, reply: Reply)
    requires
        plan is Send,
    ensures
        b.outcome(plan, reply) is Ok <==> reply is Accepted,
{
}

/// Whether an event is an order that carries a task.
pub open spec fn orders_under(e: Event, task: TaskId) -> bool {
    &&& e.task == Some(task)
    &&& e.kind matches EventKind::Message(message)
    &&& message.kind matches MessageKind::Order { .. }
}

/// A delivered message that is no order with a task leaves the role's task as it
/// was; one that is gives it its own, whatever the role worked under before.
pub proof fn each_delivery_settles_the_task(
    task: Option<TaskId>,
    delivered: Seq<Event>,
    e: Event,
    under: TaskId,
)
    ensures
        adopted(task, Seq::empty()) == task,
        orders_under(e, under) ==> adopted(task, delivered.push(e)) == Some(under),
        (forall|t: TaskId| !orders_under(e, t)) ==> adopted(task, delivered.push(e)) == adopted(
            task,
            delivered,
        ),
{
    assert(delivered.push(e).drop_last() =~= delivered);
    if e.task is Some {
        let t = e.task->0;
        assert(is_order(e) ==> orders_under(e, t));
    }
}

/// The role works under the task of the last order delivered that carries one,
/// wherever it stands among what was delivered.
pub proof fn the_last_order_is_adopted(
    task: Option<TaskId>,
    delivered: Seq<Event>,
    at: int,
    under: TaskId,
)
    requires
        0 <= at < delivered.len(),
        orders_under(delivered[at], under),
        forall|i: int, t: TaskId| at < i < delivered.len() ==> !#[trigger] orders_under(
            delivered[i],
            t,
        ),
    ensures
        adopted(task, delivered) == Some(under),
    decreases delivered.len(),
{
    let shorter = delivered.drop_last();
    let e = delivered.last();
    assert(shorter.push(e) =~= delivered);
    each_delivery_settles_the_task(task, shorter, e, under);
    if at < delivered.len() - 1 {
        assert forall|t: TaskId| !orders_under(e, t) by {
            assert(!orders_under(delivered[delivered.len() - 1], t));
        }
        assert(shorter[at] == delivered[at]);
        assert forall|i: int, t: TaskId| at < i < shorter.len() implies !#[trigger] orders_under(
            shorter[i],
            t,
        ) by {
            assert(!orders_under(delivered[i], t));
        }
        the_last_order_is_adopted(task, shorter, at, under);
    }
}

/// A read that delivers no order with a task leaves the role's task as it was.
pub proof fn without_an_order_the_task_stays(task: Option<TaskId>, delivered: Seq<Event>)
    requires
        forall|i: int, t: TaskId| 0 <= i < delivered.len() ==> !#[trigger] orders_under(
            delivered[i],
            t,
        ),
    ensures
        adopted(task, delivered) == task,
    decreases delivered.len(),
{
    if delivered.len() > 0 {
        let shorter = delivered.drop_last();
        let e = delivered.last();
        assert(shorter.push(e) =~= delivered);
        assert forall|t: TaskId| !orders_under(e, t) by {
            assert(!orders_under(delivered[delivered.len() - 1], t));
        }
        each_delivery_settles_the_task(task, shorter, e, TaskId(0));
        assert forall|i: int, t: TaskId| 0 <= i < shorter.len() implies !#[trigger] orders_under(
            shorter[i],
            t,
        ) by {
            assert(!orders_under(delivered[i], t));
        }
        without_an_order_the_task_stays(task, shorter);
    }
}

/// A read takes in the whole log: it leaves off at the log's last message, under
/// the task that what it delivered settles, and changes nothing else. What it
/// delivers is what it had not read, less what is not for the role.
pub proof fn a_read_takes_in_the_log(b: BrokerView, messages: Seq<Event>, e: Event)
    ensures
        b.after_read(messages).read_through == messages.len(),
        messages.len() > 0 && messages.last().kind is Message ==> b.after_read(messages).cursor
            == Some(messages.last().kind->Message_0.id),
        b.after_read(messages).task == adopted(b.task, b.fresh(messages)),
        b.after_read(messages).role == b.role,
        b.after_read(messages).commander == b.commander,
        b.after_read(messages).base == b.base,
        b.fresh(messages).contains(e) ==> messages.contains(e) && inbox::addressed_to(e, b.role),
        b.cursor is None && b.read_through == 0 && messages.contains(e) && inbox::addressed_to(
            e,
            b.role,
        ) ==> b.fresh(messages).contains(e),
{
    let p = inbox::for_role(b.role);
    let rest = b.unread(messages);
    lemma_starts_within(b, messages);
    if b.fresh(messages).contains(e) {
        rest.lemma_filter_contains_rev(p, e);
        let i = choose|i: int| 0 <= i < rest.len() && rest[i] == e;
        assert(messages[b.starts(messages) + i] == e);
        let k = choose|k: int| 0 <= k < b.fresh(messages).len() && b.fresh(messages)[k] == e;
        rest.lemma_filter_pred(p, k);
    }
    if b.cursor is None && b.read_through == 0 && messages.contains(e) && inbox::addressed_to(
        e,
        b.role,
    ) {
        let i = choose|i: int| 0 <= i < messages.len() && messages[i] == e;
        assert(rest[i] == e);
        assert(p(rest[i]));
        rest.lemma_filter_contains(p, i);
    }
}

proof fn lemma_after_within(messages: Seq<Event>, id: MessageId)
    ensures
        0 <= after_message(messages, id) <= messages.len(),
    decreases messages.len(),
{
    if messages.len() > 0 {
        lemma_after_within(messages.drop_last(), id);
    }
}

proof fn lemma_starts_within(b: BrokerView, messages: Seq<Event>)
    ensures
        0 <= b.starts(messages) <= messages.len(),
{
    if let Some(id) = b.cursor {
        lemma_after_within(messages, id);
    }
}

/// A client seeded with a message of the log reads on right after it, and one
/// seeded with a count reads on right after that many.
pub proof fn a_seeded_client_reads_on(b: BrokerView, messages: Seq<Event>, at: int)
    requires
        is_log(messages),
        0 <= at < messages.len(),
    ensures
        b.cursor == Some(messages[at].kind->Message_0.id) ==> b.unread(messages) == messages.skip(
            at + 1,
        ),
        b.cursor is None && b.read_through == at ==> b.unread(messages) == messages.skip(at),
        b.cursor is None && b.read_through >= messages.len() ==> b.unread(messages).len() == 0,
{
    lemma_after_message(messages, at);
    assert(message_id(messages[at]) is Some);
}

/// Whether a plan posts an object to an endpoint and then confirms.
pub open spec fn posts_to(plan: Plan, endpoint: Seq<char>) -> bool {
    plan matches Plan::Send { request, .. } && (request matches Request::Post { path, body } && path@
        == endpoint && body@ is Object)
}

/// What a posted object holds under a key.
pub open spec fn posted(plan: Plan, key: Seq<char>) -> Option<JsonView> {
    match plan {
        Plan::Send { request: Request::Post { body, .. }, .. } => body@.get(key),
        Plan::SendThenRefuse { request: Request::Post { body, .. }, .. } => body@.get(key),
        _ => None,
    }
}

/// The first entry with a key is what stands under it.
pub proof fn lemma_lookup_at(entries: Seq<(Seq<char>, JsonView)>, key: Seq<char>, at: int)
    requires
        0 <= at < entries.len(),
        entries[at].0 == key,
        forall|j: int| 0 <= j < at ==> (#[trigger] entries[j]).0 != key,
    ensures
        JsonView::Object(entries).get(key) == Some(entries[at].1),
{
    json::a_member_is_found_under_its_key(entries, key, at);
}

/// What stands under each key of a message's body.
pub proof fn lemma_payload(
    role: Seq<char>,
    kind: Seq<char>,
    own: Seq<(Seq<char>, JsonView)>,
    body: Seq<char>,
    task: Option<TaskId>,
)
    requires
        forall|i: int|
            0 <= i < own.len() ==> (#[trigger] own[i]).0 != "from"@ && own[i].0 != "kind"@
                && own[i].0 != "body"@ && own[i].0 != "task"@,
        forall|i: int, j: int|
            0 <= i < j < own.len() ==> (#[trigger] own[i]).0 != (#[trigger] own[j]).0,
    ensures
        ({
            let payload = message_payload(role, kind, own, body, task);
            &&& payload is Object
            &&& payload.get("from"@) == Some(from_role(role))
            &&& from_role(role).get("kind"@) == Some(JsonView::Text("role"@))
            &&& from_role(role).get("id"@) == Some(JsonView::Text(role))
            &&& payload.get("kind"@) == Some(JsonView::Text(kind))
            &&& payload.get("body"@) == Some(JsonView::Text(body))
            &&& task matches Some(t) ==> payload.get("task"@) == Some(
                JsonView::Text(id::uuid_text(t.0)),
            )
            &&& task is None ==> payload.get("task"@) is None
            &&& forall|i: int|
                0 <= i < own.len() ==> payload.get((#[trigger] own[i]).0) == Some(own[i].1)
        }),
{
    reveal_strlit("from");
    reveal_strlit("kind");
    reveal_strlit("body");
    reveal_strlit("task");
    reveal_strlit("id");
    assert("from"@[0] == 'f' && "kind"@[0] == 'k' && "body"@[0] == 'b' && "task"@[0] == 't');
    let sender = from_role(role)->Object_0;
    lemma_lookup_at(sender, "kind"@, 0);
    assert("id"@.len() != "kind"@.len());
    lemma_lookup_at(sender, "id"@, 1);
    let payload = message_payload(role, kind, own, body, task);
    let all = payload->Object_0;
    let n = own.len() as int;
    assert(all[0].0 == "from"@ && all[1].0 == "kind"@ && all[n + 2].0 == "body"@);
    assert forall|i: int| 0 <= i < n implies all[i + 2] == #[trigger] own[i] by {}
    assert forall|i: int| 2 <= i < n + 2 implies #[trigger] all[i] == own[i - 2] by {}
    lemma_lookup_at(all, "from"@, 0);
    lemma_lookup_at(all, "kind"@, 1);
    lemma_lookup_at(all, "body"@, n + 2);
    if task is Some {
        lemma_lookup_at(all, "task"@, n + 3);
    } else {
        json::a_member_is_found_under_its_key(all, "task"@, 0);
    }
    assert forall|i: int| 0 <= i < n implies payload.get((#[trigger] own[i]).0) == Some(own[i].1) by {
        assert forall|j: int| 0 <= j < i + 2 implies (#[trigger] all[j]).0 != own[i].0 by {
            if j >= 2 {
                assert(all[j] == own[j - 2]);
            }
        }
        lemma_lookup_at(all, own[i].0, i + 2);
    }
}

/// Whether a plan posts a message to a channel, as a role, of a kind, with a body,
/// under a task where there is one, and says whom it was sent to.
pub open spec fn posts_message(
    plan: Plan,
    channel: Channel,
    role: Seq<char>,
    kind: Seq<char>,
    body: Seq<char>,
    task: Option<TaskId>,
) -> bool {
    let name = match channel {
        Channel::AllUnits => "all-units"@,
        Channel::Direct(to) => seq!['@'] + to@,
        Channel::Pair(a, b) => a@ + seq!['+'] + b@,
    };
    &&& posts_to(plan, "/channels/"@ + name + "/messages"@)
    &&& posted(plan, "from"@) matches Some(sender) && sender.get("kind"@) == Some(
        JsonView::Text("role"@),
    ) && sender.get("id"@) == Some(JsonView::Text(role))
    &&& posted(plan, "kind"@) == Some(JsonView::Text(kind))
    &&& posted(plan, "body"@) == Some(JsonView::Text(body))
    &&& task matches Some(t) ==> posted(plan, "task"@) == Some(JsonView::Text(id::uuid_text(t.0)))
    &&& task is None ==> posted(plan, "task"@) is None
}

/// A note and a status say what the role said, as the role, under its task, on the
/// channel that its target resolves to; a target that resolves to none is refused.
pub proof fn a_message_is_posted_as_said(
    b: Broker,
    commander: RoleId,
    to: Option<&str>,
    channel: Option<&str>,
    body: &str,
    target: Option<Channel>,
    note: Result<Plan, Error>,
    status: Result<Plan, Error>,
)
    requires
        commander@ == b@.commander,
        call_ensures(Channel::resolve, (to, channel, &commander), target),
        call_ensures(Broker::send, (&b, to, channel, body), note),
        call_ensures(Broker::status, (&b, to, channel, body), status),
    ensures
        target matches Some(on) ==> (note matches Ok(plan) && posts_message(
            plan,
            on,
            b@.role,
            "note"@,
            body@,
            b@.task,
        )),
        target matches Some(on) ==> (status matches Ok(plan) && posts_message(
            plan,
            on,
            b@.role,
            "status"@,
            body@,
            b@.task,
        )),
        target is None ==> note is Err && status is Err,
{
    lemma_payload(b@.role, "note"@, Seq::empty(), body@, b@.task);
    lemma_payload(b@.role, "status"@, Seq::empty(), body@, b@.task);
}

/// A question carries its suggested answers, in their order.
pub proof fn a_question_carries_its_options(
    b: Broker,
    commander: RoleId,
    to: Option<&str>,
    channel: Option<&str>,
    body: &str,
    options: &[String],
    target: Option<Channel>,
    asked: Result<Plan, Error>,
)
    requires
        commander@ == b@.commander,
        call_ensures(Channel::resolve, (to, channel, &commander), target),
        call_ensures(Broker::ask, (&b, to, channel, body, options), asked),
    ensures
        target matches Some(on) ==> {
            &&& asked matches Ok(plan)
            &&& posts_message(plan, on, b@.role, "question"@, body@, b@.task)
            &&& posted(plan, "options"@) matches Some(JsonView::Array(items))
            &&& items.len() == options@.len()
            &&& forall|i: int|
                0 <= i < items.len() ==> #[trigger] items[i] == JsonView::Text(options@[i]@)
        },
        target is None ==> asked is Err,
{
    reveal_strlit("options");
    reveal_strlit("from");
    reveal_strlit("kind");
    reveal_strlit("body");
    reveal_strlit("task");
    let own = seq![member("options"@, JsonView::Array(json::text_items(options@)))];
    assert(own[0].0 == "options"@);
    lemma_payload(b@.role, "question"@, own, body@, b@.task);
}

/// An answer names the message it answers, and is refused where that is no id.
pub proof fn an_answer_names_its_question(
    b: Broker,
    commander: RoleId,
    to: Option<&str>,
    channel: Option<&str>,
    body: &str,
    in_reply_to: &str,
    target: Option<Channel>,
    id: Result<MessageId, id::IdError>,
    answered: Result<Plan, Error>,
)
    requires
        commander@ == b@.commander,
        call_ensures(Channel::resolve, (to, channel, &commander), target),
        call_ensures(MessageId::parse, (in_reply_to,), id),
        call_ensures(Broker::answer, (&b, to, channel, body, in_reply_to), answered),
    ensures
        target is Some && id is Ok ==> {
            &&& answered matches Ok(plan)
            &&& posts_message(plan, target->0, b@.role, "answer"@, body@, b@.task)
            &&& posted(plan, "in_reply_to"@) == Some(JsonView::Text(in_reply_to@))
        },
        target is None || id is Err ==> answered is Err,
{
    reveal_strlit("in_reply_to");
    reveal_strlit("from");
    reveal_strlit("kind");
    reveal_strlit("body");
    reveal_strlit("task");
    let own = seq![says("in_reply_to"@, in_reply_to@)];
    assert(own[0].0 == "in_reply_to"@);
    lemma_payload(b@.role, "answer"@, own, body@, b@.task);
}

/// An artifact carries its reference and its kind, and is refused where the kind
/// is none of the four.
pub proof fn an_artifact_carries_its_reference(
    b: Broker,
    commander: RoleId,
    to: Option<&str>,
    channel: Option<&str>,
    body: &str,
    reference: &str,
    kind: &str,
    target: Option<Channel>,
    sent: Result<Plan, Error>,
)
    requires
        commander@ == b@.commander,
        call_ensures(Channel::resolve, (to, channel, &commander), target),
        call_ensures(Broker::artifact, (&b, to, channel, body, reference, kind), sent),
    ensures
        ({
            let known = kind@ == "branch"@ || kind@ == "pull_request"@ || kind@ == "file"@ || kind@
                == "route"@;
            &&& target is Some && known ==> {
                &&& sent matches Ok(plan)
                &&& posts_message(plan, target->0, b@.role, "artifact"@, body@, b@.task)
                &&& posted(plan, "reference"@) == Some(JsonView::Text(reference@))
                &&& posted(plan, "artifact_kind"@) == Some(JsonView::Text(kind@))
            }
            &&& target is None || !known ==> sent is Err
        }),
{
    reveal_strlit("reference");
    reveal_strlit("artifact_kind");
    reveal_strlit("from");
    reveal_strlit("kind");
    reveal_strlit("body");
    reveal_strlit("task");
    let own = seq![says("reference"@, reference@), says("artifact_kind"@, kind@)];
    assert(own[0].0 == "reference"@ && own[1].0 == "artifact_kind"@);
    assert("reference"@.len() == 9 && "artifact_kind"@.len() == 13 && "from"@.len() == 4
        && "kind"@.len() == 4 && "body"@.len() == 4 && "task"@.len() == 4);
    lemma_payload(b@.role, "artifact"@, own, body@, b@.task);
}

/// A gated action asks the General before it is taken, with its label and its
/// detail, where an unaddressed message goes: to the commander. An action that
/// needs no approval asks nothing.
pub proof fn a_gated_action_asks_first(
    b: Broker,
    commander: RoleId,
    rules: RulesOfEngagement,
    action: ActionKind,
    amount: Option<u64>,
    detail: &str,
    needed: bool,
    asked: Option<Result<Plan, Error>>,
)
    requires
        commander@ == b@.commander,
        call_ensures(RulesOfEngagement::requires_approval, (&rules, action, amount), needed),
        call_ensures(Broker::request_approval, (&b, &rules, action, amount, detail), asked),
    ensures
        asked is Some <==> needed,
        needed ==> {
            &&& asked matches Some(Ok(plan))
            &&& posts_message(
                plan,
                Channel::Direct(commander),
                b@.role,
                "approval_request"@,
                detail@,
                b@.task,
            )
            &&& posted(plan, "action"@) == Some(JsonView::Text(action.label_text()))
        },
{
    reveal_strlit("action");
    reveal_strlit("from");
    reveal_strlit("kind");
    reveal_strlit("body");
    reveal_strlit("task");
    let own = seq![says("action"@, action.label_text())];
    assert(own[0].0 == "action"@);
    lemma_payload(b@.role, "approval_request"@, own, detail@, b@.task);
}

/// An order goes to the one specialist it names, with its title, scope, paths and
/// acceptance, and carries its task; a name that is no role's is refused.
pub proof fn an_order_carries_its_terms(
    b: Broker,
    task: TaskId,
    to: &str,
    title: &str,
    scope: &str,
    owned_paths: &[String],
    acceptance: &str,
    body: &str,
    specialist: RoleId,
    ordered: Result<Plan, Error>,
)
    requires
        call_ensures(
            Broker::order_under,
            (&b, task, to, title, scope, owned_paths, acceptance, body),
            ordered,
        ),
        to@ == specialist@,
        text::trimmed(to@) == to@,
    ensures
        crate::channel::names_a_role(to@) ==> {
            &&& ordered matches Ok(plan)
            &&& posts_message(
                plan,
                Channel::Direct(specialist),
                b@.role,
                "order"@,
                body@,
                Some(task),
            )
            &&& posted(plan, "title"@) == Some(JsonView::Text(title@))
            &&& posted(plan, "scope"@) == Some(JsonView::Text(scope@))
            &&& posted(plan, "acceptance"@) == Some(JsonView::Text(acceptance@))
            &&& posted(plan, "owned_paths"@) matches Some(JsonView::Array(items))
            &&& items.len() == owned_paths@.len()
            &&& forall|i: int|
                0 <= i < items.len() ==> #[trigger] items[i] == JsonView::Text(owned_paths@[i]@)
        },
        to@.len() > 0 && !crate::channel::names_a_role(to@) ==> ordered is Err,
{
    reveal_strlit("title");
    reveal_strlit("scope");
    reveal_strlit("owned_paths");
    reveal_strlit("acceptance");
    reveal_strlit("from");
    reveal_strlit("kind");
    reveal_strlit("body");
    reveal_strlit("task");
    crate::channel::lemma_names_a_role(to@);
    let own = order_members(title@, scope@, text::texts(owned_paths@), acceptance@);
    assert("title"@[0] == 't' && "scope"@[0] == 's');
    assert("title"@.len() == 5 && "scope"@.len() == 5 && "owned_paths"@.len() == 11
        && "acceptance"@.len() == 10 && "from"@.len() == 4 && "kind"@.len() == 4 && "body"@.len()
        == 4 && "task"@.len() == 4);
    assert(own[0].0 == "title"@ && own[1].0 == "scope"@ && own[2].0 == "owned_paths"@ && own[3].0
        == "acceptance"@);
    lemma_payload(b@.role, "order"@, own, body@, Some(task));
    assert(own[0] == says("title"@, title@) && own[1] == says("scope"@, scope@) && own[3] == says(
        "acceptance"@,
        acceptance@,
    ));
    assert(own[2].1->Array_0.len() == owned_paths@.len());
}

/// A redirect and a belay go to the one specialist they name, each under its own
/// kind; a name that is no role's is refused.
pub proof fn a_directive_goes_to_one_specialist(
    b: Broker,
    to: &str,
    body: &str,
    specialist: RoleId,
    redirected: Result<Plan, Error>,
    belayed: Result<Plan, Error>,
)
    requires
        call_ensures(Broker::redirect, (&b, to, body), redirected),
        call_ensures(Broker::belay, (&b, to, body), belayed),
        to@ == specialist@,
        text::trimmed(to@) == to@,
    ensures
        crate::channel::names_a_role(to@) ==> {
            &&& redirected matches Ok(plan) && posts_message(
                plan,
                Channel::Direct(specialist),
                b@.role,
                "redirect"@,
                body@,
                b@.task,
            )
            &&& belayed matches Ok(plan) && posts_message(
                plan,
                Channel::Direct(specialist),
                b@.role,
                "belay"@,
                body@,
                b@.task,
            )
        },
        to@.len() > 0 && !crate::channel::names_a_role(to@) ==> redirected is Err && belayed is Err,
{
    crate::channel::lemma_names_a_role(to@);
    lemma_payload(b@.role, "redirect"@, Seq::empty(), body@, b@.task);
    lemma_payload(b@.role, "belay"@, Seq::empty(), body@, b@.task);
}

/// An order goes out under the task the role works under, where there is one.
pub proof fn an_order_keeps_the_task(
    b: Broker,
    to: &str,
    title: &str,
    scope: &str,
    owned_paths: &[String],
    acceptance: &str,
    body: &str,
    ordered: Result<Plan, Error>,
    under: TaskId,
    expected: Result<Plan, Error>,
)
    requires
        call_ensures(
            Broker::order,
            (&b, to, title, scope, owned_paths, acceptance, body),
            ordered,
        ),
        call_ensures(
            Broker::order_under,
            (&b, under, to, title, scope, owned_paths, acceptance, body),
            expected,
        ),
        b@.task == Some(under),
    ensures
        ordered is Ok <==> expected is Ok,
        ordered is Ok ==> {
            &&& ordered->Ok_0->Send_request->Post_path@ == expected->Ok_0->Send_request->Post_path@
            &&& ordered->Ok_0->Send_request->Post_body@ == expected->Ok_0->Send_request->Post_body@
        },
{
    let task = choose|task: TaskId|
        #[trigger] b@.may_order_under(task) && b@.ordered(
            task,
            to@,
            title@,
            scope@,
            text::texts(owned_paths@),
            acceptance@,
            body@,
            ordered,
        );
    assert(task == under);
}

/// A verdict is recorded as it was given: the task, whether it passed, and the
/// failure, by the role that gave it; and the role is told which it was. So a pass
/// and a failure of one task are never posted alike.
pub proof fn a_verdict_is_recorded_as_given(
    b: Broker,
    task: &str,
    pass: bool,
    failure: &str,
    plan: Plan,
    passed: Plan,
    failed: Plan,
)
    requires
        call_ensures(Broker::verdict, (&b, task, pass, failure), plan),
        call_ensures(Broker::verdict, (&b, task, true, failure), passed),
        call_ensures(Broker::verdict, (&b, task, false, failure), failed),
    ensures
        posts_to(plan, "/gate/verdict"@),
        posted(plan, "pass"@) == Some(JsonView::Bool(pass)),
        posted(plan, "task"@) == Some(JsonView::Text(task@)),
        posted(plan, "role"@) == Some(JsonView::Text(b@.role)),
        posted(plan, "failure"@) == Some(JsonView::Text(failure@)),
        passed->Send_request->Post_body@ != failed->Send_request->Post_body@,
        passed->Send_done@ != failed->Send_done@,
{
    lemma_verdict_posted(b, task, pass, failure, plan);
    lemma_verdict_posted(b, task, true, failure, passed);
    lemma_verdict_posted(b, task, false, failure, failed);
    assert(posted(passed, "pass"@) != posted(failed, "pass"@));
    reveal_strlit("verified `");
    reveal_strlit("failed `");
    assert(passed->Send_done@[0] == 'v');
    assert(failed->Send_done@[0] == 'f');
}

proof fn lemma_verdict_posted(b: Broker, task: &str, pass: bool, failure: &str, plan: Plan)
    requires
        call_ensures(Broker::verdict, (&b, task, pass, failure), plan),
    ensures
        posts_to(plan, "/gate/verdict"@),
        posted(plan, "pass"@) == Some(JsonView::Bool(pass)),
        posted(plan, "task"@) == Some(JsonView::Text(task@)),
        posted(plan, "role"@) == Some(JsonView::Text(b@.role)),
        posted(plan, "failure"@) == Some(JsonView::Text(failure@)),
{
    reveal_strlit("role");
    reveal_strlit("task");
    reveal_strlit("pass");
    reveal_strlit("failure");
    assert("role"@[0] == 'r' && "task"@[0] == 't' && "pass"@[0] == 'p' && "failure"@[0] == 'f');
    let all = verdict_payload(b@.role, task@, pass, failure@)->Object_0;
    assert(all[0].0 == "role"@ && all[1].0 == "task"@ && all[2].0 == "pass"@ && all[3].0
        == "failure"@);
    lemma_lookup_at(all, "role"@, 0);
    lemma_lookup_at(all, "task"@, 1);
    lemma_lookup_at(all, "pass"@, 2);
    lemma_lookup_at(all, "failure"@, 3);
}

/// A submission carries its task and acceptance by the role that submits it, and
/// names who is to verify it exactly where one is given.
pub proof fn a_submission_carries_its_acceptance(
    b: Broker,
    task: &str,
    acceptance: &str,
    to: Option<&str>,
    plan: Plan,
)
    requires
        call_ensures(Broker::submit, (&b, task, acceptance, to), plan),
    ensures
        posts_to(plan, "/gate/submit"@),
        posted(plan, "role"@) == Some(JsonView::Text(b@.role)),
        posted(plan, "task"@) == Some(JsonView::Text(task@)),
        posted(plan, "acceptance"@) == Some(JsonView::Text(acceptance@)),
        to matches Some(verifier) ==> posted(plan, "to"@) == Some(JsonView::Text(verifier@)),
        to is None ==> posted(plan, "to"@) is None,
{
    reveal_strlit("role");
    reveal_strlit("task");
    reveal_strlit("acceptance");
    reveal_strlit("to");
    assert("role"@[0] == 'r' && "task"@[0] == 't' && "acceptance"@[0] == 'a' && "to"@.len() == 2
        && "task"@.len() == 4);
    let all = submit_payload(b@.role, task@, acceptance@, text::opt_text(to))->Object_0;
    assert(all[0].0 == "role"@ && all[1].0 == "task"@ && all[2].0 == "acceptance"@);
    lemma_lookup_at(all, "role"@, 0);
    lemma_lookup_at(all, "task"@, 1);
    lemma_lookup_at(all, "acceptance"@, 2);
    if to is Some {
        assert(all[3].0 == "to"@);
        lemma_lookup_at(all, "to"@, 3);
    } else {
        json::a_member_is_found_under_its_key(all, "to"@, 0);
    }
}

/// A claim is the role's own, on the task, in the state, and under the title it
/// gives.
pub proof fn a_claim_is_the_roles_own(
    b: Broker,
    task: &str,
    state: &str,
    title: &str,
    plan: Plan,
)
    requires
        call_ensures(Broker::claim, (&b, task, state, title), plan),
    ensures
        posts_to(plan, "/ledger"@),
        posted(plan, "task"@) == Some(JsonView::Text(task@)),
        posted(plan, "owner"@) == Some(JsonView::Text(b@.role)),
        posted(plan, "state"@) == Some(JsonView::Text(state@)),
        posted(plan, "title"@) == Some(JsonView::Text(title@)),
{
    reveal_strlit("task");
    reveal_strlit("owner");
    reveal_strlit("state");
    reveal_strlit("title");
    assert("task"@.len() == 4 && "owner"@[0] == 'o' && "state"@[0] == 's' && "title"@[0] == 't'
        && "title"@.len() == 5);
    let all = claim_payload(b@.role, task@, state@, title@)->Object_0;
    assert(all[0].0 == "task"@ && all[1].0 == "owner"@ && all[2].0 == "state"@ && all[3].0
        == "title"@);
    lemma_lookup_at(all, "task"@, 0);
    lemma_lookup_at(all, "owner"@, 1);
    lemma_lookup_at(all, "state"@, 2);
    lemma_lookup_at(all, "title"@, 3);
}

/// A board entry stands under its key, in its section, with its body; a retraction
/// names the key and says that it retracts, which an entry never does.
pub proof fn a_retraction_is_no_entry(
    b: Broker,
    key: &str,
    section: &str,
    body: &str,
    recorded: Plan,
    retracted: Plan,
)
    requires
        call_ensures(Broker::record, (&b, key, section, body), recorded),
        call_ensures(Broker::retract, (&b, key), retracted),
    ensures
        posts_to(recorded, "/board"@),
        posts_to(retracted, "/board"@),
        posted(recorded, "role"@) == Some(JsonView::Text(b@.role)),
        posted(recorded, "key"@) == Some(JsonView::Text(key@)),
        posted(recorded, "section"@) == Some(JsonView::Text(section@)),
        posted(recorded, "body"@) == Some(JsonView::Text(body@)),
        posted(recorded, "retract"@) is None,
        posted(retracted, "role"@) == Some(JsonView::Text(b@.role)),
        posted(retracted, "key"@) == Some(JsonView::Text(key@)),
        posted(retracted, "retract"@) == Some(JsonView::Bool(true)),
        posted(retracted, "body"@) is None,
{
    reveal_strlit("role");
    reveal_strlit("key");
    reveal_strlit("section");
    reveal_strlit("body");
    reveal_strlit("retract");
    assert("role"@[0] == 'r' && "key"@[0] == 'k' && "section"@[0] == 's' && "body"@[0] == 'b'
        && "retract"@.len() == 7 && "role"@.len() == 4 && "retract"@[0] == 'r');
    let all = record_payload(b@.role, key@, section@, body@)->Object_0;
    assert(all[0].0 == "role"@ && all[1].0 == "key"@ && all[2].0 == "section"@ && all[3].0
        == "body"@);
    lemma_lookup_at(all, "role"@, 0);
    lemma_lookup_at(all, "key"@, 1);
    lemma_lookup_at(all, "section"@, 2);
    lemma_lookup_at(all, "body"@, 3);
    json::a_member_is_found_under_its_key(all, "retract"@, 0);
    let gone = retract_payload(b@.role, key@)->Object_0;
    assert(gone[0].0 == "role"@ && gone[1].0 == "key"@ && gone[2].0 == "retract"@);
    lemma_lookup_at(gone, "role"@, 0);
    lemma_lookup_at(gone, "key"@, 1);
    lemma_lookup_at(gone, "retract"@, 2);
    json::a_member_is_found_under_its_key(gone, "body"@, 0);
}

/// A completion is reported by the role, with its summary; a registration names the
/// role and every path of its lane, in order.
pub proof fn a_role_reports_for_itself(
    b: Broker,
    summary: &str,
    owned_paths: &[String],
    completed: Plan,
    registered: Request,
)
    requires
        call_ensures(Broker::complete, (&b, summary), completed),
        call_ensures(Broker::register, (&b, owned_paths), registered),
    ensures
        posts_to(completed, "/complete"@),
        posted(completed, "role"@) == Some(JsonView::Text(b@.role)),
        posted(completed, "summary"@) == Some(JsonView::Text(summary@)),
        registered matches Request::Post { path, body } && path@ == "/roster"@ && body@.get("role"@)
            == Some(JsonView::Text(b@.role)) && (body@.get("owned_paths"@) matches Some(
            JsonView::Array(items),
        ) && items.len() == owned_paths@.len() && forall|i: int|
            0 <= i < items.len() ==> #[trigger] items[i] == JsonView::Text(owned_paths@[i]@)),
{
    reveal_strlit("role");
    reveal_strlit("summary");
    reveal_strlit("owned_paths");
    assert("role"@.len() == 4 && "summary"@.len() == 7 && "owned_paths"@.len() == 11);
    let done = complete_payload(b@.role, summary@)->Object_0;
    assert(done[0].0 == "role"@ && done[1].0 == "summary"@);
    lemma_lookup_at(done, "role"@, 0);
    lemma_lookup_at(done, "summary"@, 1);
    let lane = register_payload(b@.role, owned_paths@)->Object_0;
    assert(lane[0].0 == "role"@ && lane[1].0 == "owned_paths"@);
    lemma_lookup_at(lane, "role"@, 0);
    lemma_lookup_at(lane, "owned_paths"@, 1);
}

/// A path in the lane proceeds and is reported to nobody. Outside it, a warning
/// reports the crossing and proceeds, a block reports it and refuses, and with
/// lanes off nothing is reported.
pub proof fn a_lane_crossing_is_reported(
    b: Broker,
    owned_paths: &[String],
    enforcement: LaneEnforcement,
    path: &str,
    inside: bool,
    plan: Plan,
)
    requires
        call_ensures(lane::path_in_lane, (owned_paths, path), inside),
        call_ensures(Broker::check_lane, (&b, owned_paths, enforcement, path), plan),
    ensures
        plan is Answer <==> inside || enforcement == LaneEnforcement::Off,
        !inside && enforcement == LaneEnforcement::Warn ==> posts_to(plan, "/boundary"@),
        !inside && enforcement == LaneEnforcement::Block ==> (plan matches Plan::SendThenRefuse {
            request: Request::Post { path: to, .. },
            ..
        } && to@ == "/boundary"@),
        !inside && enforcement != LaneEnforcement::Off ==> {
            &&& posted(plan, "role"@) == Some(JsonView::Text(b@.role))
            &&& posted(plan, "path"@) == Some(JsonView::Text(path@))
            &&& posted(plan, "blocked"@) == Some(
                JsonView::Bool(enforcement == LaneEnforcement::Block),
            )
        },
{
    reveal_strlit("role");
    reveal_strlit("path");
    reveal_strlit("blocked");
    assert("role"@[0] == 'r' && "path"@[0] == 'p' && "blocked"@[0] == 'b');
    let all = boundary_payload(
        b@.role,
        path@,
        enforcement == LaneEnforcement::Block,
    )->Object_0;
    assert(all[0].0 == "role"@ && all[1].0 == "path"@ && all[2].0 == "blocked"@);
    lemma_lookup_at(all, "role"@, 0);
    lemma_lookup_at(all, "path"@, 1);
    lemma_lookup_at(all, "blocked"@, 2);
}

/// What the role is told of a call: its own confirmation once the broker accepts
/// it; the broker's reason where it refuses and gives one; and where it cannot be
/// reached, which broker and why.
pub proof fn a_call_is_told_its_outcome(
    b: Broker,
    plan: Plan,
    reply: Reply,
    r: Result<String, Error>,
)
    requires
        call_ensures(Broker::settle, (&b, plan, &reply), r),
    ensures
        plan matches Plan::Answer(answer) ==> (r matches Ok(said) && said@ == answer@),
        plan matches Plan::Send { done, .. } ==> reply == Reply::Accepted ==> (r matches Ok(said)
            && said@ == done@),
        plan matches Plan::SendThenRefuse { refusal, .. } ==> reply == Reply::Accepted ==> (
        r matches Err(Error::Invalid(why)) && why@ == refusal@),
        plan !is Answer && reply != Reply::Accepted ==> r is Err,
        plan !is Answer && (reply matches Reply::Refused { text: Some(text), .. }
            && base::error_reason(text@) is Some) ==> (r matches Err(Error::Rejected { message, .. })
            && message@ == base::error_reason(reply->text->0@)->0),
        plan !is Answer && (reply matches Reply::Refused { text: None, .. }) ==> (r matches Err(
            Error::Rejected { message, status },
        ) && message@ == "the broker returned HTTP "@ + number::decimal(reply->status as nat)
            && status == Some(reply->status)),
        plan !is Answer && (reply matches Reply::Unreachable(why)) ==> (r matches Err(
            Error::Unreachable(said),
        ) && said@ == "could not reach the broker at "@ + b@.base + ": "@ + reply->Unreachable_0@),
{
}

/// A briefing is asked for by its role, narrowed to a task and held to a budget
/// exactly where they are given.
pub proof fn a_briefing_asks_for_its_role(
    b: Broker,
    task: Option<&str>,
    budget: Option<usize>,
    r: Request,
)
    requires
        call_ensures(Broker::briefing, (&b, task, budget), r),
    ensures
        r matches Request::Get { path, query } && path@ == "/briefing"@ && query_texts(query@).contains(
            ("role"@, b@.role),
        ) && query@.len() == 1 + (if task is Some {
            1int
        } else {
            0
        }) + (if budget is Some {
            1int
        } else {
            0
        }),
        task matches Some(t) ==> query_texts(r->query@).contains(("task"@, t@)),
        budget matches Some(n) ==> query_texts(r->query@).contains(
            ("budget"@, number::decimal(n as nat)),
        ),
{
    let q = query_texts(r->query@);
    assert(q[0] == ("role"@, b@.role));
    if let Some(t) = task {
        assert(q[1] == ("task"@, t@));
    }
    if let Some(n) = budget {
        assert(q[q.len() - 1] == ("budget"@, number::decimal(n as nat)));
    }
}

/// A read asks for what it is named after.
pub proof fn reads_ask_for_what_they_name(
    b: Broker,
    section: Option<&str>,
    after: Option<&str>,
    ledger: Request,
    gate: Request,
    roster: Request,
    board: Request,
    history: Request,
    inbox: Request,
)
    requires
        call_ensures(Broker::ledger, (&b,), ledger),
        call_ensures(Broker::gate, (&b,), gate),
        call_ensures(Broker::roster, (&b,), roster),
        call_ensures(Broker::board, (&b, section), board),
        call_ensures(Broker::history, (&b, after), history),
        call_ensures(Broker::inbox_stream, (&b,), inbox),
    ensures
        ledger matches Request::Get { path, query } && path@ == "/ledger"@ && query@.len() == 0,
        gate matches Request::Get { path, query } && path@ == "/gate"@ && query@.len() == 0,
        roster matches Request::Get { path, query } && path@ == "/roster"@ && query@.len() == 0,
        board matches Request::Get { path, query } && query@.len() == 0 && path@ == "/board"@ + (
        match section {
            Some(section) => "?section="@ + section@,
            None => Seq::empty(),
        }),
        history matches Request::Get { path, query } && query@.len() == 0 && path@
            == "/history?kind=message&limit=500"@ + (match after {
            Some(cursor) => "&after="@ + cursor@,
            None => Seq::empty(),
        }),
        inbox matches Request::Get { path, query } && query@.len() == 0 && path@ == "/inbox?role="@
            + b@.role,
{
    reveal_strlit("/board");
    reveal_strlit("?section=");
    reveal_strlit("/board?section=");
    reveal_strlit("/history?kind=message&limit=500");
    reveal_strlit("&after=");
    reveal_strlit("/history?kind=message&limit=500&after=");
    if let Some(section) = section {
        assert("/board?section="@ =~= "/board"@ + "?section="@);
        assert(board->Get_path@ =~= "/board"@ + ("?section="@ + section@));
    } else {
        assert(board->Get_path@ =~= "/board"@ + Seq::<char>::empty());
    }
    if let Some(cursor) = after {
        assert("/history?kind=message&limit=500&after="@ =~= "/history?kind=message&limit=500"@
            + "&after="@);
        assert(history->Get_path@ =~= "/history?kind=message&limit=500"@ + ("&after="@ + cursor@));
    } else {
        assert(history->Get_path@ =~= "/history?kind=message&limit=500"@ + Seq::<char>::empty());
    }
}

/// The log is fetched page after page, in order, until a page names no next one;
/// then nothing more is asked for, and until then each page is asked for after the
/// last cursor given.
pub proof fn the_log_is_fetched_page_by_page(
    log: LogView,
    page: Seq<Event>,
    next: Option<Seq<char>>,
)
    ensures
        log.with_page(page, next).events == log.events + page,
        next is None <==> log.with_page(page, next).complete,
        next is Some ==> log.with_page(page, next).after == next,
{
}

/// What a message posts, by what it was planned from.
pub proof fn lemma_message_posted(
    b: BrokerView,
    to: Option<Seq<char>>,
    channel: Option<Seq<char>>,
    kind: Seq<char>,
    own: Seq<(Seq<char>, JsonView)>,
    body: Seq<char>,
    r: Result<Plan, Error>,
    target: Option<Channel>,
)
    requires
        b.message_sent(to, channel, kind, own, body, r),
        crate::channel::opt_channel(target) == ChannelView::addressed(to, channel, b.commander),
        forall|i: int|
            0 <= i < own.len() ==> (#[trigger] own[i]).0 != "from"@ && own[i].0 != "kind"@
                && own[i].0 != "body"@ && own[i].0 != "task"@,
        forall|i: int, j: int|
            0 <= i < j < own.len() ==> (#[trigger] own[i]).0 != (#[trigger] own[j]).0,
    ensures
        target is None ==> r is Err,
        target matches Some(on) ==> {
            &&& r matches Ok(plan)
            &&& posts_message(plan, on, b.role, kind, body, b.task)
            &&& forall|i: int|
                0 <= i < own.len() ==> posted(plan, (#[trigger] own[i]).0) == Some(own[i].1)
        },
{
    lemma_payload(b.role, kind, own, body, b.task);
}

/// What a directive posts, by what it was planned from.
pub proof fn lemma_directive_posted(
    b: BrokerView,
    to: Seq<char>,
    kind: Seq<char>,
    body: Seq<char>,
    r: Result<Plan, Error>,
    specialist: RoleId,
)
    requires
        b.directive_sent(to, kind, body, r),
        to.len() > 0,
        text::trimmed(to) == to,
        specialist@ == to,
    ensures
        crate::channel::names_a_role(to) ==> (r matches Ok(plan) && posts_message(
            plan,
            Channel::Direct(specialist),
            b.role,
            kind,
            body,
            b.task,
        )),
        !crate::channel::names_a_role(to) ==> r is Err,
{
    crate::channel::lemma_names_a_role(to);
    lemma_payload(b.role, kind, Seq::empty(), body, b.task);
}

/// What an order posts, by what it was planned from.
pub proof fn lemma_order_posted(
    b: BrokerView,
    task: TaskId,
    to: Seq<char>,
    title: Seq<char>,
    scope: Seq<char>,
    owned_paths: Seq<Seq<char>>,
    acceptance: Seq<char>,
    body: Seq<char>,
    r: Result<Plan, Error>,
    specialist: RoleId,
)
    requires
        b.ordered(task, to, title, scope, owned_paths, acceptance, body, r),
        to.len() > 0,
        text::trimmed(to) == to,
        specialist@ == to,
    ensures
        crate::channel::names_a_role(to) ==> {
            &&& r matches Ok(plan)
            &&& posts_message(plan, Channel::Direct(specialist), b.role, "order"@, body, Some(task))
            &&& posted(plan, "title"@) == Some(JsonView::Text(title))
            &&& posted(plan, "scope"@) == Some(JsonView::Text(scope))
            &&& posted(plan, "acceptance"@) == Some(JsonView::Text(acceptance))
            &&& posted(plan, "owned_paths"@) == Some(JsonView::Array(all_texts(owned_paths)))
        },
        !crate::channel::names_a_role(to) ==> r is Err,
{
    reveal_strlit("title");
    reveal_strlit("scope");
    reveal_strlit("owned_paths");
    reveal_strlit("acceptance");
    reveal_strlit("from");
    reveal_strlit("kind");
    reveal_strlit("body");
    reveal_strlit("task");
    crate::channel::lemma_names_a_role(to);
    let own = order_members(title, scope, owned_paths, acceptance);
    assert("title"@[0] == 't' && "scope"@[0] == 's');
    assert("title"@.len() == 5 && "scope"@.len() == 5 && "owned_paths"@.len() == 11
        && "acceptance"@.len() == 10 && "from"@.len() == 4 && "kind"@.len() == 4 && "body"@.len()
        == 4 && "task"@.len() == 4);
    assert(own[0].0 == "title"@ && own[1].0 == "scope"@ && own[2].0 == "owned_paths"@ && own[3].0
        == "acceptance"@);
    lemma_payload(b.role, "order"@, own, body, Some(task));
    assert(own[0] == says("title"@, title) && own[1] == says("scope"@, scope) && own[3] == says(
        "acceptance"@,
        acceptance,
    ));
}

/// What stands under each key of the other bodies the client posts.
pub proof fn lemma_bodies(
    role: Seq<char>,
    a: Seq<char>,
    b: Seq<char>,
    c: Seq<char>,
    to: Option<Seq<char>>,
    pass: bool,
)
    ensures
        ({
            let claim = claim_payload(role, a, b, c);
            &&& claim.get("owner"@) == Some(JsonView::Text(role))
            &&& claim.get("task"@) == Some(JsonView::Text(a))
            &&& claim.get("state"@) == Some(JsonView::Text(b))
            &&& claim.get("title"@) == Some(JsonView::Text(c))
        }),
        ({
            let verdict = verdict_payload(role, a, pass, b);
            &&& verdict.get("role"@) == Some(JsonView::Text(role))
            &&& verdict.get("task"@) == Some(JsonView::Text(a))
            &&& verdict.get("pass"@) == Some(JsonView::Bool(pass))
            &&& verdict.get("failure"@) == Some(JsonView::Text(b))
        }),
        ({
            let submit = submit_payload(role, a, b, to);
            &&& submit.get("role"@) == Some(JsonView::Text(role))
            &&& submit.get("task"@) == Some(JsonView::Text(a))
            &&& submit.get("acceptance"@) == Some(JsonView::Text(b))
            &&& to matches Some(verifier) ==> submit.get("to"@) == Some(JsonView::Text(verifier))
            &&& to is None ==> submit.get("to"@) is None
        }),
        ({
            let entry = record_payload(role, a, b, c);
            &&& entry.get("role"@) == Some(JsonView::Text(role))
            &&& entry.get("key"@) == Some(JsonView::Text(a))
            &&& entry.get("section"@) == Some(JsonView::Text(b))
            &&& entry.get("body"@) == Some(JsonView::Text(c))
            &&& entry.get("retract"@) is None
        }),
        ({
            let gone = retract_payload(role, a);
            &&& gone.get("role"@) == Some(JsonView::Text(role))
            &&& gone.get("key"@) == Some(JsonView::Text(a))
            &&& gone.get("retract"@) == Some(JsonView::Bool(true))
        }),
        ({
            let done = complete_payload(role, a);
            &&& done.get("role"@) == Some(JsonView::Text(role))
            &&& done.get("summary"@) == Some(JsonView::Text(a))
        }),
{
    reveal_strlit("role");
    reveal_strlit("task");
    reveal_strlit("owner");
    reveal_strlit("state");
    reveal_strlit("title");
    reveal_strlit("pass");
    reveal_strlit("failure");
    reveal_strlit("acceptance");
    reveal_strlit("to");
    reveal_strlit("key");
    reveal_strlit("section");
    reveal_strlit("body");
    reveal_strlit("retract");
    reveal_strlit("summary");
    assert("role"@[0] == 'r' && "task"@[0] == 't' && "owner"@[0] == 'o' && "state"@[0] == 's'
        && "title"@[0] == 't' && "pass"@[0] == 'p' && "failure"@[0] == 'f' && "acceptance"@[0]
        == 'a' && "key"@[0] == 'k' && "section"@[0] == 's' && "body"@[0] == 'b' && "retract"@[0]
        == 'r' && "summary"@[0] == 's');
    assert("role"@.len() == 4 && "task"@.len() == 4 && "title"@.len() == 5 && "to"@.len() == 2
        && "retract"@.len() == 7);
    let claim = claim_payload(role, a, b, c)->Object_0;
    assert(claim[0].0 == "task"@ && claim[1].0 == "owner"@ && claim[2].0 == "state"@ && claim[3].0
        == "title"@);
    lemma_lookup_at(claim, "task"@, 0);
    lemma_lookup_at(claim, "owner"@, 1);
    lemma_lookup_at(claim, "state"@, 2);
    lemma_lookup_at(claim, "title"@, 3);
    let verdict = verdict_payload(role, a, pass, b)->Object_0;
    assert(verdict[0].0 == "role"@ && verdict[1].0 == "task"@ && verdict[2].0 == "pass"@
        && verdict[3].0 == "failure"@);
    lemma_lookup_at(verdict, "role"@, 0);
    lemma_lookup_at(verdict, "task"@, 1);
    lemma_lookup_at(verdict, "pass"@, 2);
    lemma_lookup_at(verdict, "failure"@, 3);
    let submit = submit_payload(role, a, b, to)->Object_0;
    assert(submit[0].0 == "role"@ && submit[1].0 == "task"@ && submit[2].0 == "acceptance"@);
    lemma_lookup_at(submit, "role"@, 0);
    lemma_lookup_at(submit, "task"@, 1);
    lemma_lookup_at(submit, "acceptance"@, 2);
    if to is Some {
        assert(submit[3].0 == "to"@);
        lemma_lookup_at(submit, "to"@, 3);
    } else {
        json::a_member_is_found_under_its_key(submit, "to"@, 0);
    }
    let entry = record_payload(role, a, b, c)->Object_0;
    assert(entry[0].0 == "role"@ && entry[1].0 == "key"@ && entry[2].0 == "section"@ && entry[3].0
        == "body"@);
    lemma_lookup_at(entry, "role"@, 0);
    lemma_lookup_at(entry, "key"@, 1);
    lemma_lookup_at(entry, "section"@, 2);
    lemma_lookup_at(entry, "body"@, 3);
    json::a_member_is_found_under_its_key(entry, "retract"@, 0);
    let gone = retract_payload(role, a)->Object_0;
    assert(gone[0].0 == "role"@ && gone[1].0 == "key"@ && gone[2].0 == "retract"@);
    lemma_lookup_at(gone, "role"@, 0);
    lemma_lookup_at(gone, "key"@, 1);
    lemma_lookup_at(gone, "retract"@, 2);
    let done = complete_payload(role, a)->Object_0;
    assert(done[0].0 == "role"@ && done[1].0 == "summary"@);
    lemma_lookup_at(done, "role"@, 0);
    lemma_lookup_at(done, "summary"@, 1);
}

/// What a live subscription delivers leaves the role under the task of the last order
/// among it, and under the task it had where it holds no order.
pub proof fn a_delivery_leaves_the_last_orders_task(
    b: &mut Broker,
    events: &[Event],
    items: Vec<InboxItem>,
    at: int,
    under: TaskId,
)
    requires
        call_ensures(Broker::delivered, (b, events), items),
    ensures
        ({
            let mine = events@.filter(inbox::for_role(old(b)@.role));
            &&& items@.len() == mine.len()
            &&& (0 <= at < mine.len() && orders_under(mine[at], under) && forall|i: int, t: TaskId|
                at < i < mine.len() ==> !#[trigger] orders_under(mine[i], t)) ==> final(b)@.task
                == Some(under)
            &&& (forall|i: int, t: TaskId|
                0 <= i < mine.len() ==> !#[trigger] orders_under(mine[i], t)) ==> final(b)@.task
                == old(b)@.task
            &&& final(b)@.role == old(b)@.role && final(b)@.cursor == old(b)@.cursor
            &&& final(b)@.read_through == old(b)@.read_through
        }),
{
    let mine = events@.filter(inbox::for_role(old(b)@.role));
    let task = old(b)@.task;
    if 0 <= at < mine.len() && orders_under(mine[at], under) && forall|i: int, t: TaskId|
        at < i < mine.len() ==> !#[trigger] orders_under(mine[i], t) {
        the_last_order_is_adopted(task, mine, at, under);
    }
    if forall|i: int, t: TaskId| 0 <= i < mine.len() ==> !#[trigger] orders_under(mine[i], t) {
        without_an_order_the_task_stays(task, mine);
    }
}

/// Reading the log takes it in whole: the next read starts behind it, and the role
/// works under the task of the last order that was new to it.
pub proof fn reading_takes_in_the_log(b: &mut Broker, messages: &[Event], items: Vec<InboxItem>, e: Event)
    requires
        call_ensures(Broker::inbox, (b, messages), items),
    ensures
        final(b)@.read_through == messages@.len(),
        messages@.len() > 0 && messages@.last().kind is Message ==> final(b)@.cursor == Some(
            messages@.last().kind->Message_0.id,
        ),
        final(b)@.task == adopted(old(b)@.task, old(b)@.fresh(messages@)),
        final(b)@.role == old(b)@.role && final(b)@.commander == old(b)@.commander,
        items@.len() == old(b)@.fresh(messages@).len(),
{
    a_read_takes_in_the_log(old(b)@, messages@, e);
}

/// A page taken in adds its events to the end of the log, and the log is whole exactly
/// once a page comes without a cursor to the next.
pub proof fn a_page_taken_in_is_added(log: &mut MessageLog, events: Vec<Event>, next: Option<String>)
    requires
        call_ensures(MessageLog::take_page, (log, events, next), ()),
    ensures
        final(log)@.events == old(log)@.events + events@,
        final(log)@.complete <==> next is None,
        next matches Some(cursor) ==> final(log)@.after == Some(cursor@),
        next is None ==> final(log)@.after == old(log)@.after,
{
}

/// A client put to a task works under it, and stays the same client in all else.
pub proof fn a_client_works_under_the_task_given(
    b: Broker,
    task: Option<TaskId>,
    put: Broker,
    under: Option<TaskId>,
    base: &str,
    base_before: &str,
    cursor: Option<MessageId>,
    cursor_before: Option<MessageId>,
)
    requires
        call_ensures(Broker::with_task, (b, task), put),
        call_ensures(Broker::task, (&put,), under),
        call_ensures(Broker::base, (&b,), base_before),
        call_ensures(Broker::base, (&put,), base),
        call_ensures(Broker::cursor, (&b,), cursor_before),
        call_ensures(Broker::cursor, (&put,), cursor),
    ensures
        under == task,
        base@ == base_before@ && cursor == cursor_before,
        put@.role == b@.role && put@.commander == b@.commander,
{
}

} // verus!
