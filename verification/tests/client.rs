//! The broker client: what a call sends, how its reply reads, and which
//! messages reach a role.
use crew::approval::{default_roe_for, rules_or_default, ActionKind, RulesOfEngagement};
use crew::card::{BrokerEndpoint, RoleCard};
use crew::channel::Channel;
use crew::client::{Broker, MessageLog, Plan, Reply, Request};
use crew::config::LaneEnforcement;
use crew::control;
use crew::cursor::InboxCursor;
use crew::error::Error;
use crew::event::{
    message_kind_label, sender_label, ArtifactKind, Event, EventKind, Lifecycle, Message,
    MessageKind,
};
use crew::id::{ChannelId, MessageId, RoleId, Sender, TaskId};
use crew::inbox::{addressed, kind_detail, InboxBuffer};
use crew::json::{self, Json};
use crew::shim::{self, Agent};
use crew::signoff::{ApprovalOutcome, ApprovalWait};
use crew::snapshot::RoleEntry;
use crew::time::Timestamp;

const BASE: &str = "http://127.0.0.1:2739";

fn client(role: &str) -> Broker {
    Broker::new(BASE, RoleId::new(role), RoleId::new("commander"))
}

/// A broker's message log, kept in memory: it takes what a client posts.
struct Stream {
    events: Vec<Event>,
}

fn text(value: &Json, key: &str) -> String {
    value.str_at(key).unwrap_or_default().to_owned()
}

fn list(value: &Json, key: &str) -> Vec<String> {
    match value.get(key).and_then(Json::as_array) {
        Some(items) => items
            .iter()
            .map(|item| item.as_str().unwrap().to_owned())
            .collect(),
        None => Vec::new(),
    }
}

impl Stream {
    fn new() -> Self {
        Stream { events: Vec::new() }
    }

    /// Takes a planned post, and settles it as the broker's acceptance does.
    fn take(&mut self, broker: &Broker, planned: Result<Plan, Error>) -> String {
        let plan = planned.expect("the call is planned");
        if let Plan::Send {
            request: Request::Post { path, body },
            ..
        } = &plan
        {
            self.post(path, body);
        }
        broker.settle(plan, &Reply::Accepted).expect("it is accepted")
    }

    fn post(&mut self, path: &str, body: &Json) {
        let channel = path
            .strip_prefix("/channels/")
            .and_then(|rest| rest.strip_suffix("/messages"))
            .expect("a message is posted to a channel");
        let from = body.get("from").unwrap();
        let from = match from.str_at("kind") {
            Some("role") => Sender::Role(RoleId::new(from.str_at("id").unwrap())),
            _ => Sender::General,
        };
        let kind = match body.str_at("kind").unwrap() {
            "note" => MessageKind::Note,
            "status" => MessageKind::Status,
            "redirect" => MessageKind::Redirect,
            "belay" => MessageKind::Belay,
            "answer" => MessageKind::Answer,
            "question" => MessageKind::Question {
                options: list(body, "options"),
            },
            "order" => MessageKind::Order {
                title: text(body, "title"),
                scope: text(body, "scope"),
                owned_paths: list(body, "owned_paths"),
                acceptance: text(body, "acceptance"),
            },
            "artifact" => MessageKind::Artifact {
                reference: text(body, "reference"),
                artifact_kind: ArtifactKind::Branch,
            },
            "approval_request" => MessageKind::ApprovalRequest {
                action: text(body, "action"),
            },
            "approval_decision" => MessageKind::ApprovalDecision {
                in_reply_to: MessageId::parse(body.str_at("in_reply_to").unwrap()).unwrap(),
                granted: body.get("granted").and_then(Json::as_bool).unwrap(),
            },
            other => panic!("no kind {other}"),
        };
        self.events.push(Event {
            ts: Timestamp::now(),
            from,
            channel: ChannelId::new(channel),
            task: body.str_at("task").map(|id| TaskId::parse(id).unwrap()),
            kind: EventKind::Message(Message {
                id: MessageId::new(),
                kind,
                body: text(body, "body"),
            }),
        });
    }

    fn general_note(&mut self, channel: &str, body: &str) {
        self.events.push(message(Sender::General, channel, MessageKind::Note, body));
    }
}

fn message(from: Sender, channel: &str, kind: MessageKind, body: &str) -> Event {
    Event {
        ts: Timestamp::now(),
        from,
        channel: ChannelId::new(channel),
        task: None,
        kind: EventKind::Message(Message {
            id: MessageId::new(),
            kind,
            body: body.to_owned(),
        }),
    }
}

fn copy_of(event: &Event) -> Event {
    let EventKind::Message(original) = &event.kind else {
        panic!("a message")
    };
    let mut copy = message(
        event.from.clone(),
        event.channel.as_str(),
        MessageKind::Note,
        &original.body,
    );
    if let EventKind::Message(copied) = &mut copy.kind {
        copied.id = original.id;
    }
    copy
}

#[test]
fn lib_a_sender_labels_a_role_or_the_general() {
    assert_eq!(
        sender_label(&Sender::Role(RoleId::new("backend"))),
        "backend"
    );
    assert_eq!(sender_label(&Sender::General), "general");
}

#[test]
fn lib_a_message_kind_labels_an_order() {
    let order = MessageKind::Order {
        title: "build login".to_owned(),
        scope: "the /login route".to_owned(),
        owned_paths: vec!["api/".to_owned()],
        acceptance: "tests green".to_owned(),
    };
    assert_eq!(message_kind_label(&order), "order");
    assert_eq!(message_kind_label(&MessageKind::Note), "note");
}

#[test]
fn broker_a_sender_labels_a_role_or_the_general() {
    assert_eq!(
        sender_label(&Sender::Role(RoleId::new("backend"))),
        "backend"
    );
    assert_eq!(sender_label(&Sender::General), "general");
}

#[test]
fn broker_a_message_kind_labels_an_order() {
    let order = MessageKind::Order {
        title: "build login".to_owned(),
        scope: "the /login route".to_owned(),
        owned_paths: vec!["api/".to_owned()],
        acceptance: "tests green".to_owned(),
    };
    assert_eq!(message_kind_label(&order), "order");
    assert_eq!(message_kind_label(&MessageKind::Note), "note");
}

#[test]
fn tools_an_agent_sends_receives_self_filtered_and_lists_the_roster() {
    let mut stream = Stream::new();
    let mut backend = client("backend");
    let mut frontend = client("frontend");

    // A teammate direct-messages backend; backend reads it on its inbox.
    let sent = frontend.send(Some("backend"), None, "please build the login endpoint");
    stream.take(&frontend, sent);
    let inbox = backend.inbox(&stream.events);
    assert_eq!(
        inbox.len(),
        1,
        "backend receives the message addressed to it"
    );
    let received = &inbox[0];
    assert_eq!(received.from, "frontend");
    assert_eq!(received.channel, "@backend");
    assert_eq!(received.body, "please build the login endpoint");

    // Backend broadcasts to the unit; it must not receive its own message.
    let sent = backend.send(None, Some("all-units"), "starting on the endpoint");
    stream.take(&backend, sent);
    assert!(
        backend.inbox(&stream.events).is_empty(),
        "a role never sees its own message",
    );

    // The broadcast does reach a different teammate. Frontend's own earlier direct
    // message went to `@backend`, which does not address frontend, so its inbox
    // holds only the broadcast.
    let broadcast = frontend.inbox(&stream.events);
    assert_eq!(
        broadcast.len(),
        1,
        "frontend receives the all-units broadcast"
    );
    assert_eq!(broadcast[0].channel, "all-units");
    assert_eq!(broadcast[0].from, "backend");

    // The roster is registered with the lane, and read back from its endpoint.
    let Request::Post { path, body } = backend.register(&["api/".to_owned()]) else {
        panic!("a registration is posted")
    };
    assert_eq!(path, "/roster");
    assert_eq!(
        json::print(&body),
        "{\"owned_paths\":[\"api/\"],\"role\":\"backend\"}"
    );
    assert_eq!(
        backend.roster().url(backend.base()),
        "http://127.0.0.1:2739/roster"
    );
}

#[test]
fn a_brief_defaults_to_the_commander_who_fans_orders_out() {
    // A brief reaches the commander by default, and the commander issues orders to
    // specialists.
    let mut stream = Stream::new();
    let mut commander = client("commander");
    let mut backend = client("backend");

    // The General briefs the crew without naming a target: the shared rule resolves
    // it to the commander's channel, and only the commander receives it.
    let default_channel = Channel::resolve(None, None, &RoleId::new("commander"))
        .expect("an unaddressed brief resolves to the commander")
        .name();
    assert_eq!(default_channel.as_str(), "@commander");
    stream.general_note(default_channel.as_str(), "ship the login flow");

    let briefed = commander.inbox(&stream.events);
    assert_eq!(briefed.len(), 1, "the commander receives the brief");
    assert_eq!(briefed[0].from, "general");
    assert_eq!(briefed[0].channel, "@commander");
    assert_eq!(briefed[0].body, "ship the login flow");
    assert!(
        backend.inbox(&stream.events).is_empty(),
        "a specialist does not receive the General's brief to the commander",
    );

    // The commander fans the work out: it orders the backend a scoped task.
    let ordered = commander.order(
        "backend",
        "build the login endpoint",
        "POST /login only",
        &["api/".to_owned()],
        "tests green, no clippy warnings",
        "coordinate the token shape with frontend",
    );
    assert_eq!(
        stream.take(&commander, ordered),
        "ordered backend: build the login endpoint"
    );

    let ordered = backend.inbox(&stream.events);
    assert_eq!(ordered.len(), 1, "the specialist receives the order");
    let order = &ordered[0];
    assert_eq!(order.from, "commander");
    assert_eq!(order.channel, "@backend");
    assert_eq!(order.kind, "order", "it arrives as an order, not a note");
    assert!(
        order.detail.contains("build the login endpoint"),
        "the order carries its title so the specialist reads the task",
    );
    assert!(
        order.detail.contains("acceptance: tests green"),
        "the order carries its acceptance bar",
    );
    assert_eq!(order.body, "coordinate the token shape with frontend");

    // The commander does not receive its own order back.
    assert!(
        commander.inbox(&stream.events).is_empty(),
        "the commander never sees its own order echoed",
    );
}

#[test]
fn an_order_mints_a_task_the_assignee_adopts_and_stamps_on_its_work() {
    // The commander's order mints a task and stamps it on the order; the assignee
    // adopts it from its inbox, so its next message carries the same id.
    let mut stream = Stream::new();
    let commander = client("commander");
    let mut backend = client("backend");

    // A commander broadcast before any order carries no task: work outside a task
    // correlates to nothing.
    let sent = commander.send(None, Some("all-units"), "stand by");
    stream.take(&commander, sent);

    // The commander orders backend: this mints the task and stamps it on the order.
    let ordered = commander.order(
        "backend",
        "build login",
        "POST /login",
        &["api/".to_owned()],
        "tests green",
        "",
    );
    stream.take(&commander, ordered);

    let task = stream.events[1].task.expect("the order carries the minted task id");
    assert!(
        stream.events[0].task.is_none(),
        "a message sent outside any task carries no id",
    );

    // Backend reads the order (adopting its task), then reports back.
    let inbox = backend.inbox(&stream.events);
    assert!(
        inbox.iter().any(|item| item.kind == "order"),
        "backend receives the order",
    );
    let sent = backend.send(Some("commander"), None, "on it");
    stream.take(&backend, sent);

    // Backend's reply carries the very task the order minted, so its work
    // correlates to the assignment.
    assert_eq!(
        stream.events[2].task,
        Some(task),
        "the assignee stamps the adopted task on the messages it sends next",
    );
    assert_eq!(backend.task(), Some(task));
}

#[test]
fn a_shim_role_stamps_its_adopted_task_across_separate_commands() {
    // Each shim command is its own process: a task adopted in one is handed to the
    // next, which stamps it.
    let mut stream = Stream::new();
    let commander = client("commander");
    let ordered = commander.order("backend", "build login", "", &[], "tests green", "");
    stream.take(&commander, ordered);
    let order_task = stream.events[0].task.expect("the order carries a minted task id");

    let mut first = client("backend");
    first.inbox(&stream.events);
    let second = client("backend").with_task(first.task());
    let sent = second.send(Some("commander"), None, "on it");
    stream.take(&second, sent);
    assert_eq!(
        stream.events[1].task,
        Some(order_task),
        "the shim send stamps the task from the earlier order, across processes",
    );
}

#[test]
fn a_commander_steers_a_specialist_in_band_with_redirect_and_belay() {
    // The commander steers a working specialist through its own tools. A
    // `redirect` nudges without stopping; a `belay` halts and re-tasks. Both arrive
    // typed and flagged to honor at once.
    let mut stream = Stream::new();
    let commander = client("commander");
    let mut backend = client("backend");

    // The commander redirects backend mid-task: it arrives as a typed `redirect`,
    // flagged as a directive the specialist honors at its next tool boundary.
    let sent = commander.redirect(
        "backend",
        "prioritize the login flow before the profile page",
    );
    stream.take(&commander, sent);
    let inbox = backend.inbox(&stream.events);
    assert_eq!(inbox.len(), 1, "backend receives the redirect");
    let redirect = &inbox[0];
    assert_eq!(redirect.from, "commander");
    assert_eq!(redirect.channel, "@backend");
    assert_eq!(
        redirect.kind, "redirect",
        "it arrives as a typed redirect, not a note"
    );
    assert!(
        redirect.directive,
        "a redirect is flagged as a directive to honor at once"
    );
    assert_eq!(
        redirect.body,
        "prioritize the login flow before the profile page"
    );

    // The commander then belays backend: halt the current work and take a new
    // order.
    let sent = commander.belay("backend", "stop the refactor, patch the auth regression");
    stream.take(&commander, sent);
    let inbox = backend.inbox(&stream.events);
    assert_eq!(inbox.len(), 1, "backend receives the belay");
    let belay = &inbox[0];
    assert_eq!(belay.kind, "belay", "it arrives as a typed belay");
    assert!(belay.directive, "a belay is flagged as a directive");
    assert_eq!(belay.body, "stop the refactor, patch the auth regression");

    // The commander never sees its own directives echoed back.
    assert!(
        client("commander").inbox(&stream.events).is_empty(),
        "the commander does not receive its own steering directives",
    );
}

#[test]
fn an_agent_asks_a_typed_question_and_receives_a_typed_answer() {
    let mut stream = Stream::new();
    let mut backend = client("backend");
    let mut frontend = client("frontend");

    // backend asks frontend a typed question, the kind stall detection keys on.
    let asked = backend.ask(
        Some("frontend"),
        None,
        "which auth library?",
        &["jwt".to_owned(), "sessions".to_owned()],
    );
    stream.take(&backend, asked);

    // frontend reads it as a `question` (not a note), carrying an id to answer.
    let inbox = frontend.inbox(&stream.events);
    assert_eq!(inbox.len(), 1);
    let question = &inbox[0];
    assert_eq!(
        question.kind, "question",
        "it arrives as a typed question, not a note"
    );
    assert_eq!(question.from, "backend");
    assert_eq!(question.body, "which auth library?");
    assert!(
        !question.id.is_empty(),
        "the question carries an id to reply to"
    );
    assert_eq!(question.detail, "options: jwt, sessions");

    // frontend answers, naming the question id; the answer threads back to backend.
    let answered = frontend.answer(Some("backend"), None, "use jwt", &question.id);
    stream.take(&frontend, answered);
    let reply = backend.inbox(&stream.events);
    assert_eq!(reply.len(), 1);
    assert_eq!(reply[0].kind, "answer", "it arrives as a typed answer");
    assert_eq!(reply[0].from, "frontend");
    assert_eq!(reply[0].body, "use jwt");
}

#[test]
fn a_typed_question_lands_on_the_stream_for_stall_detection() {
    let backend = client("backend");
    let plan = backend
        .ask(Some("frontend"), None, "what token TTL?", &[])
        .unwrap();
    let Plan::Send {
        request: Request::Post { body, .. },
        ..
    } = plan
    else {
        panic!("a question is posted")
    };
    assert_eq!(
        json::print(&body),
        "{\"body\":\"what token TTL?\",\"from\":{\"id\":\"backend\",\"kind\":\"role\"},\
         \"kind\":\"question\",\"options\":[]}"
    );
}

#[test]
fn a_seeded_read_cursor_shows_only_messages_past_it() {
    // The shim persists this cursor so a per-call process resumes where the last
    // one left off, instead of reprinting the whole inbox.
    let mut stream = Stream::new();
    let sender = client("sender");
    let sent = sender.send(Some("reader"), None, "first");
    stream.take(&sender, sent);

    // A fresh client (a new shim process) reads from the start: it sees the
    // message and reports how far it read.
    let mut first = client("reader");
    assert_eq!(
        first.inbox(&stream.events).len(),
        1,
        "the first read sees the message"
    );
    let cursor = first.cursor();
    assert!(
        cursor.is_some(),
        "reading advanced the cursor past the message"
    );
    let count = first.read_through();

    // A second message arrives after that read.
    let sent = sender.send(Some("reader"), None, "second");
    stream.take(&sender, sent);

    // The next process seeds from the saved cursor: it sees only the new message,
    // not the one already read.
    let mut resumed = client("reader").with_cursor(cursor);
    let items = resumed.inbox(&stream.events);
    assert_eq!(items.len(), 1, "only the message past the cursor");
    assert_eq!(items[0].body, "second");

    // A saved count seeds it the same way.
    let mut counted = client("reader").with_read_through(count);
    assert_eq!(counted.inbox(&stream.events), items);

    // Seeding at the current end shows nothing new.
    let mut caught_up = client("reader").with_cursor(resumed.cursor());
    assert!(
        caught_up.inbox(&stream.events).is_empty(),
        "nothing is past the end of the log",
    );
}

#[test]
fn an_unrecognized_cursor_replays_rather_than_skipping() {
    // A cursor naming a message the log no longer holds (a fresh, shorter log
    // after the state is reset) falls back to delivering the whole log, rather
    // than silently skipping genuinely new messages.
    let mut stream = Stream::new();
    let sender = client("sender");
    let sent = sender.send(Some("reader"), None, "after reset");
    stream.take(&sender, sent);

    // A cursor from a prior, since-reset log: its id is absent from this one.
    let stale = MessageId::new();
    let mut reader = client("reader").with_cursor(Some(stale));
    let items = reader.inbox(&stream.events);
    assert_eq!(
        items.len(),
        1,
        "an unknown cursor replays the log instead of skipping new messages"
    );
    assert_eq!(items[0].body, "after reset");
}

#[test]
fn a_subscribed_inbox_seeds_the_backlog_then_pushes_live_messages() {
    let commander = Sender::Role(RoleId::new("commander"));
    let before = message(
        commander.clone(),
        "@backend",
        MessageKind::Note,
        "before you subscribed",
    );
    let again = copy_of(&before);
    let mut backend = client("backend");
    let mut buffer = InboxBuffer::seeded(RoleId::new("backend"), vec![before]);

    // The stream's overlap repeats the backlog message: it is not buffered twice.
    buffer.receive("id: 1", None);
    buffer.receive("data: {}", Some(again));

    // The first read returns the seeded backlog, exactly once.
    let first = backend.delivered(&buffer.drain());
    let backlog: Vec<&str> = first.iter().map(|item| item.body.as_str()).collect();
    assert_eq!(
        backlog,
        ["before you subscribed"],
        "the backlog is seeded once"
    );

    // A read with nothing new returns an empty batch, not a refetch of the backlog.
    assert!(
        backend.delivered(&buffer.drain()).is_empty(),
        "a drained inbox is empty, and the backlog is not refetched"
    );

    // A live message arrives over the stream and drains on the next read.
    buffer.receive("id: 2", None);
    buffer.receive(
        "data: {}",
        Some(message(
            commander,
            "@backend",
            MessageKind::Note,
            "sent after you subscribed",
        )),
    );
    let live = backend.delivered(&buffer.drain());
    assert_eq!(live.len(), 1);
    assert_eq!(
        live[0].body, "sent after you subscribed",
        "a live message is pushed to the subscribed inbox"
    );
    assert_eq!(buffer.last_seq(), Some(2));
    assert_eq!(buffer.resume_after().as_deref(), Some("2"));
}

#[test]
fn the_place_in_the_stream_is_the_highest_sequence_seen() {
    let mut buffer = InboxBuffer::seeded(RoleId::new("backend"), vec![]);
    assert!(!buffer.receive("id: 7", None));
    assert!(!buffer.receive("id: 5", None));
    assert_eq!(buffer.last_seq(), Some(7));
    buffer.receive("id: soon", None);
    assert_eq!(buffer.last_seq(), Some(7));
    buffer.receive("id: 8", None);
    assert_eq!(buffer.resume_after().as_deref(), Some("8"));
    assert!(buffer.drain().is_empty());
}

#[test]
fn a_subscribed_inbox_drops_the_roles_own_messages() {
    let mut buffer = InboxBuffer::seeded(RoleId::new("backend"), vec![]);

    // Backend broadcasts to all-units: its own message must never come back to it.
    let own = message(
        Sender::Role(RoleId::new("backend")),
        "all-units",
        MessageKind::Note,
        "note to the unit",
    );
    buffer.receive("data: {}", Some(own));
    // Nor does an event that is no message, or an undecodable payload, come in.
    buffer.receive(
        "data: {}",
        Some(Event {
            kind: EventKind::Lifecycle(Lifecycle::Idle),
            ..message(Sender::General, "all-units", MessageKind::Note, "")
        }),
    );
    buffer.receive("data: {", None);
    buffer.receive(": keep-alive", None);
    let batch = buffer.drain();
    assert!(
        batch.is_empty(),
        "a role never receives its own message: {batch:?}"
    );
    assert_eq!(buffer.resume_after(), None);
}

#[test]
fn the_pull_fallback_reads_the_inbox_without_a_subscription() {
    let mut stream = Stream::new();
    let commander = client("commander");
    let mut backend = client("backend");

    // No subscription: the client stays on the pull-based history read.
    let sent = commander.send(Some("backend"), None, "pulled from history");
    stream.take(&commander, sent);

    let batch = backend.inbox(&stream.events);
    assert!(
        batch.iter().any(|item| item.body == "pulled from history"),
        "the pull fallback returns the addressed message: {batch:?}"
    );
    // The cursor advanced: a second read returns nothing new.
    assert!(
        backend.inbox(&stream.events).is_empty(),
        "the pull cursor advances"
    );
}

#[test]
fn the_message_log_is_fetched_page_by_page() {
    let broker = client("backend");
    let mut log = MessageLog::new();
    let url = |request: Option<Request>| request.map(|request| request.url(BASE));
    assert_eq!(
        url(log.next_page(&broker)).as_deref(),
        Some("http://127.0.0.1:2739/history?kind=message&limit=500")
    );
    log.take_page(
        vec![message(Sender::General, "all-units", MessageKind::Note, "a")],
        Some("c1".to_owned()),
    );
    assert_eq!(
        url(log.next_page(&broker)).as_deref(),
        Some("http://127.0.0.1:2739/history?kind=message&limit=500&after=c1")
    );
    log.take_page(
        vec![message(Sender::General, "all-units", MessageKind::Note, "b")],
        None,
    );
    assert!(log.next_page(&broker).is_none());
    assert_eq!(log.into_events().len(), 2);
}

#[test]
fn only_messages_on_the_roles_channels_reach_it() {
    let backend = RoleId::new("backend");
    for (channel, reaches) in [
        ("@backend", true),
        ("@frontend", false),
        ("backend+frontend", true),
        ("frontend+qa", false),
        ("all-units", true),
        ("nonsense", false),
    ] {
        let event = message(Sender::General, channel, MessageKind::Belay, "stop");
        let item = addressed(&event, &backend);
        assert_eq!(item.is_some(), reaches, "{channel}");
        if let Some(item) = item {
            assert!(item.directive);
            assert_eq!(item.kind, "belay");
        }
    }
}

#[test]
fn a_kinds_fields_are_summarized() {
    let order = |scope: &str, paths: &[&str], acceptance: &str| MessageKind::Order {
        title: "login".to_owned(),
        scope: scope.to_owned(),
        owned_paths: paths.iter().map(|p| (*p).to_owned()).collect(),
        acceptance: acceptance.to_owned(),
    };
    assert_eq!(kind_detail(&order("", &[], "")), "login");
    assert_eq!(
        kind_detail(&order("auth", &["api/", "db/"], "green")),
        "login; scope: auth; owns: api/, db/; acceptance: green"
    );
    assert_eq!(
        kind_detail(&MessageKind::Artifact {
            reference: "pr/8".to_owned(),
            artifact_kind: ArtifactKind::PullRequest,
        }),
        "artifact: pr/8"
    );
    assert_eq!(kind_detail(&MessageKind::Question { options: vec![] }), "");
    assert_eq!(kind_detail(&MessageKind::Note), "");
}

#[test]
fn bad_arguments_are_refused_before_anything_is_sent() {
    let broker = client("backend");
    let routed = broker.send(None, Some("nonsense"), "hi").unwrap_err();
    assert!(routed.is_invalid() && !routed.is_rejected());
    assert!(routed.to_string().contains("not a routable target"));
    let ordered = broker
        .order("frontend+backend", "do everything", "", &[], "", "")
        .unwrap_err();
    assert_eq!(
        ordered.to_string(),
        "`frontend+backend` is not a role to order; name a single specialist"
    );
    let steered = broker.redirect("all-units+x", "go").unwrap_err();
    assert!(steered.to_string().contains("is not a role to steer"));
    let answered = broker.answer(None, None, "yes", "seven").unwrap_err();
    assert_eq!(answered.to_string(), "`seven` is not a message id");
    let made = broker.artifact(None, None, "", "main", "tag").unwrap_err();
    assert!(made.to_string().contains("`tag` is not an artifact kind"));
}

#[test]
fn a_lane_check_proceeds_warns_or_refuses() {
    let broker = client("backend");
    let owned = ["api/".to_owned()];
    let inside = broker.check_lane(&owned, LaneEnforcement::Block, "api/x.rs");
    assert_eq!(
        inside,
        Plan::Answer("`api/x.rs` is in your lane; proceed.".to_owned())
    );

    let warned = broker.check_lane(&owned, LaneEnforcement::Warn, "web/x.ts");
    match &warned {
        Plan::Send {
            request: Request::Post { path, body },
            done,
        } => {
            assert_eq!(path, "/boundary");
            assert_eq!(
                json::print(body),
                "{\"blocked\":false,\"path\":\"web/x.ts\",\"role\":\"backend\"}"
            );
            assert!(done.contains("is OUTSIDE your lane"));
        }
        other => panic!("{other:?}"),
    }

    let blocked = broker.check_lane(&owned, LaneEnforcement::Block, "web/x.ts");
    let refused = broker.settle(blocked, &Reply::Accepted).unwrap_err();
    assert!(refused.is_invalid());
    assert!(refused.to_string().contains("edits there are blocked"));

    let off = broker.check_lane(&owned, LaneEnforcement::Off, "web/x.ts");
    assert!(matches!(off, Plan::Answer(_)));
}

#[test]
fn a_reply_settles_a_call() {
    let broker = client("backend");
    let claim = || broker.claim("login", "claimed", "");
    assert_eq!(
        broker.settle(claim(), &Reply::Accepted).unwrap(),
        "claimed: login"
    );
    let held = Reply::Refused {
        status: 409,
        text: Some("{\"error\":\"held by qa\"}".to_owned()),
    };
    let error = broker.settle(claim(), &held).unwrap_err();
    assert!(error.is_rejected());
    assert_eq!(error.status(), Some(409));
    assert_eq!(error.to_string(), "held by qa");
    let bare = Reply::Refused {
        status: 500,
        text: Some("oops".to_owned()),
    };
    let error = broker.settle(claim(), &bare).unwrap_err();
    assert_eq!(error.to_string(), "the broker returned HTTP 500");
    let lost = Reply::Unreachable("refused".to_owned());
    let error = broker.settle(claim(), &lost).unwrap_err();
    assert!(error.is_unreachable() && error.status().is_none());
    assert_eq!(
        error.to_string(),
        "could not reach the broker at http://127.0.0.1:2739: refused"
    );
    let malformed = Error::Malformed("could not parse the broker response".to_owned());
    assert!(malformed.is_malformed());
}

#[test]
fn each_call_goes_to_its_endpoint() {
    let broker = client("backend");
    let posted = |plan: Plan| match plan {
        Plan::Send {
            request: Request::Post { path, body },
            done,
        } => (path, json::print(&body), done),
        other => panic!("{other:?}"),
    };
    let (path, body, _) = posted(broker.submit("login", "green", Some("qa")));
    assert_eq!(path, "/gate/submit");
    assert_eq!(
        body,
        "{\"acceptance\":\"green\",\"role\":\"backend\",\"task\":\"login\",\"to\":\"qa\"}"
    );
    assert!(!posted(broker.submit("login", "", None)).1.contains("\"to\""));
    let (path, body, done) = posted(broker.verdict("login", false, "it leaks"));
    assert_eq!(path, "/gate/verdict");
    assert!(body.contains("\"pass\":false"));
    assert_eq!(
        done,
        "failed `login` and returned it to its owner with the failure."
    );
    let (path, body, _) = posted(broker.record("auth", "decision", "JWT"));
    assert_eq!(path, "/board");
    assert!(body.contains("\"section\":\"decision\""));
    assert!(posted(broker.retract("auth")).1.contains("\"retract\":true"));
    assert_eq!(posted(broker.complete("shipped")).0, "/complete");
    assert_eq!(broker.ledger().url(BASE), format!("{BASE}/ledger"));
    assert_eq!(broker.gate().url(BASE), format!("{BASE}/gate"));
    assert_eq!(
        broker.board(Some("gotcha")).url(BASE),
        format!("{BASE}/board?section=gotcha")
    );
    assert_eq!(
        broker.inbox_stream().url(BASE),
        format!("{BASE}/inbox?role=backend")
    );
    let Request::Get { path, query } = broker.briefing(Some("t1"), Some(4096)) else {
        panic!("a briefing is read")
    };
    assert_eq!(path, "/briefing");
    assert_eq!(
        query,
        [
            ("role".to_owned(), "backend".to_owned()),
            ("task".to_owned(), "t1".to_owned()),
            ("budget".to_owned(), "4096".to_owned()),
        ]
    );
}

/// A role of the roster.
fn role_entry(role: &str, owned_paths: &[&str]) -> RoleEntry {
    RoleEntry {
        role: role.to_owned(),
        owned_paths: owned_paths.iter().map(|p| (*p).to_owned()).collect(),
        liveness: "working".to_owned(),
        paused: false,
    }
}

#[test]
fn a_shim_agent_registers_sends_and_reads_its_inbox() {
    let mut stream = Stream::new();
    let endpoint = BrokerEndpoint::new("127.0.0.1", 2739);
    let agent = Agent::from_role(Some("codexbot"), &endpoint).unwrap();
    assert_eq!(agent.registered(), "registered codexbot on the roster");

    // It sends a message, which lands on the stream.
    let mut codexbot = agent.broker(0, None);
    let sent = codexbot.send(None, Some("all-units"), "codex reporting in");
    stream.take(&codexbot, sent);
    assert_eq!(
        stream.events[0].from,
        Sender::Role(RoleId::new("codexbot")),
        "the shim agent's message is on the stream"
    );

    // A teammate direct-messages it; its inbox reads the message, self-filtered.
    let backend = client("backend");
    let sent = backend.send(Some("codexbot"), None, "build the parser");
    stream.take(&backend, sent);
    let inbox = shim::inbox(&codexbot.inbox(&stream.events));
    assert!(
        inbox.contains("build the parser"),
        "the inbox shows the message addressed to the role: {inbox}",
    );
    assert!(
        !inbox.contains("codex reporting in"),
        "the inbox never shows the role's own message: {inbox}",
    );
    assert_eq!(
        inbox,
        "1 message(s):\n- backend on @codexbot (note): build the parser"
    );

    // The roster command lists the unit the agent joined.
    let listed = shim::roster(&[role_entry("backend", &[]), role_entry("codexbot", &[])]);
    assert!(listed.contains("codexbot"), "roster lists the shim agent");
    assert!(listed.contains("backend"), "roster lists its teammate");
}

#[test]
fn a_shim_commander_orders_a_specialist_a_structured_task() {
    // The commander fans a scoped task out to a specialist, not a plain note.
    let mut stream = Stream::new();
    let commander = client("commander");
    let ordered = commander.order(
        "backend",
        "Ship the parser",
        "the tokenizer only",
        &["src/parser/".to_owned()],
        "cargo test passes",
        "start from the grammar",
    );
    stream.take(&commander, ordered);

    // It lands on the stream as a structured order, its fields intact.
    let event = &stream.events[0];
    assert_eq!(
        event.from,
        Sender::Role(RoleId::new("commander")),
        "the commander issued it"
    );
    let EventKind::Message(order) = &event.kind else {
        panic!("a message")
    };
    assert_eq!(
        order.kind,
        MessageKind::Order {
            title: "Ship the parser".to_owned(),
            scope: "the tokenizer only".to_owned(),
            owned_paths: vec!["src/parser/".to_owned()],
            acceptance: "cargo test passes".to_owned(),
        }
    );
    assert_eq!(order.body, "start from the grammar");

    // The specialist reads it in its inbox.
    let inbox = shim::inbox(&client("backend").inbox(&stream.events));
    assert!(
        inbox.contains("Ship the parser"),
        "the specialist's inbox shows the order: {inbox}",
    );
}

#[test]
fn a_shim_order_needs_a_single_specialist_not_a_channel() {
    // An order is a direct task to one specialist; a channel name (a pair here)
    // is not a role to order.
    let refused = client("commander")
        .order("frontend+backend", "do everything", "", &[], "", "")
        .unwrap_err();
    assert!(
        refused.to_string().contains("frontend+backend"),
        "the error names the bad target: {}",
        refused.to_string(),
    );
}

#[test]
fn the_shim_inbox_shows_only_new_messages_across_calls() {
    // Each call is a process of its own: the saved cursor carries the place over.
    let mut stream = Stream::new();
    let sender = client("sender");
    let cursor = InboxCursor::new("/tmp/state", &RoleId::new("reader"));
    let mut saved: Option<String> = None;
    let mut read = |events: &[Event]| {
        let mut reader = client("reader").with_read_through(cursor.load(saved.as_deref()));
        let shown = shim::inbox(&reader.inbox(events));
        saved = Some(cursor.save(reader.read_through()));
        shown
    };

    let sent = sender.send(Some("reader"), None, "first message");
    stream.take(&sender, sent);
    let first = read(&stream.events);
    assert!(
        first.contains("first message"),
        "the first read shows the new message: {first}",
    );

    // A second read with nothing new is empty, not a reprint of the seen message.
    let repeat = read(&stream.events);
    assert!(
        !repeat.contains("first message"),
        "a repeat read does not reprint a seen message: {repeat}",
    );
    assert!(
        repeat.contains("No messages"),
        "with nothing new the inbox is empty: {repeat}",
    );

    // A later message shows on the next read, and only that one.
    let sent = sender.send(Some("reader"), None, "second message");
    stream.take(&sender, sent);
    let third = read(&stream.events);
    assert!(
        third.contains("second message"),
        "a later message shows on the next read: {third}",
    );
    assert!(
        !third.contains("first message"),
        "and the earlier message is not repeated: {third}",
    );
}

#[test]
fn the_shim_boots_from_a_role_card_with_its_lane() {
    // A role card carries the lane, so registration announces the paths it owns.
    let card = RoleCard::new(
        RoleId::new("codexbot"),
        vec!["adapters/".to_owned()],
        "",
        BrokerEndpoint::new("127.0.0.1", 2739),
    );
    let agent = Agent::from_card(card);
    assert_eq!(agent.base, BASE);
    let Request::Post { path, body } = agent.broker(0, None).register(&agent.owned_paths) else {
        panic!("a registration is posted")
    };
    assert_eq!(path, "/roster");
    assert_eq!(body.str_at("role"), Some("codexbot"));
    assert_eq!(
        list(&body, "owned_paths"),
        ["adapters/"],
        "it registers the lane its card declares"
    );
}

#[test]
fn a_role_boots_from_its_card_and_reaches_the_broker() {
    // The card is all the agent is handed: its role, its lane, its acceptance bar,
    // and the broker address.
    let card = RoleCard::new(
        RoleId::new("backend"),
        vec!["api/".to_owned(), "db/".to_owned()],
        "Tests green, migrations reversible.",
        BrokerEndpoint::new("127.0.0.1", 2739),
    );
    let broker = Broker::new(
        &card.broker.base_url(),
        card.role.clone(),
        card.commander.clone(),
    );

    // The briefing proves the role boots knowing its lane and where the unit is.
    let briefing = card.briefing();
    assert!(
        briefing.contains("api/, db/"),
        "the briefing states the lane"
    );
    assert!(
        briefing.contains(&card.broker.base_url()),
        "the briefing gives the broker address",
    );

    // Reaching the broker: register the role and its lane on the roster.
    let Request::Post { body, .. } = broker.register(&card.owned_paths) else {
        panic!("a registration is posted")
    };
    assert_eq!(body.str_at("role"), Some("backend"));
    assert_eq!(
        list(&body, "owned_paths"),
        ["api/", "db/"],
        "it owns its declared lane"
    );
}

/// A specialist's rules: gated on every action.
fn gated() -> RulesOfEngagement {
    default_roe_for(false)
}

/// Posts `role`'s request for sign-off, and waits for its decision.
fn asked(stream: &mut Stream, role: &str, action: ActionKind, detail: &str) -> ApprovalWait {
    let broker = client(role);
    let wait = ApprovalWait {
        role: RoleId::new(role),
        action,
        detail: detail.to_owned(),
        before: stream.events.len(),
    };
    let request = broker
        .request_approval(&gated(), action, None, detail)
        .expect("a specialist's action is gated");
    stream.take(&broker, request);
    wait
}

/// The id of the newest request for sign-off on the stream.
fn request_id(stream: &Stream) -> String {
    let found = stream.events.iter().rev().find_map(|event| match &event.kind {
        EventKind::Message(message)
            if matches!(message.kind, MessageKind::ApprovalRequest { .. }) =>
        {
            Some(message.id.to_string())
        }
        _ => None,
    });
    found.expect("a request is on the stream")
}

/// Plays the General: answers `role`'s request.
fn decide(stream: &mut Stream, role: &str, id: &str, granted: bool, reason: &str) {
    let orders = control::answer(role, id, !granted, Some(reason)).unwrap();
    for sending in &orders.sends {
        if let Request::Post { path, body } = &sending.request {
            stream.post(path, body);
        }
    }
}

#[test]
fn an_ungated_action_proceeds_with_no_wait() {
    // A role that gates nothing: the action proceeds at once, posting nothing.
    let free = RulesOfEngagement::new(&[], 1_000);
    let request = client("backend").request_approval(&free, ActionKind::Push, None, "push api/");
    assert!(
        request.is_none(),
        "no request is posted for an ungated action"
    );
    assert_eq!(rules_or_default(Some(free), false), free, "its own rules");
    assert_eq!(rules_or_default(None, true), default_roe_for(true));
    let outcome = ApprovalOutcome::NotGated;
    assert!(outcome.may_proceed(), "an ungated action proceeds");
}

#[test]
fn a_gated_action_blocks_until_the_general_grants_it() {
    let mut stream = Stream::new();
    let wait = asked(
        &mut stream,
        "backend",
        ActionKind::Push,
        "push api/ to origin/main",
    );
    assert_eq!(wait.observe(&stream.events, false), None, "the role blocks");

    let id = request_id(&stream);
    decide(&mut stream, "backend", &id, true, "looks good");
    assert_eq!(
        wait.observe(&stream.events, false),
        Some(ApprovalOutcome::Granted),
        "the role proceeds on a grant"
    );
    // A decision stands, whatever comes after it.
    decide(&mut stream, "backend", &id, false, "changed my mind");
    assert_eq!(
        wait.observe(&stream.events, true),
        Some(ApprovalOutcome::Granted)
    );
}

#[test]
fn a_gated_action_is_denied_with_the_generals_reason() {
    let mut stream = Stream::new();
    let wait = asked(
        &mut stream,
        "backend",
        ActionKind::Delete,
        "delete the release branch",
    );
    let id = request_id(&stream);
    decide(&mut stream, "backend", &id, false, "keep the branch for now");
    assert_eq!(
        wait.observe(&stream.events, false),
        Some(ApprovalOutcome::Denied {
            reason: "keep the branch for now".to_owned(),
        }),
        "the role gets the denial and its reason",
    );
}

#[test]
fn no_decision_within_the_timeout_fails_closed() {
    // No General answers: the request times out, and the role must not proceed.
    let mut stream = Stream::new();
    let wait = asked(&mut stream, "backend", ActionKind::Merge, "merge the PR");
    let outcome = wait.observe(&stream.events, true);
    assert_eq!(
        outcome,
        Some(ApprovalOutcome::TimedOut),
        "silence fails closed, never proceeds"
    );
    assert!(!outcome.unwrap().may_proceed());
}

#[test]
fn only_the_generals_word_on_the_same_request_counts() {
    let mut stream = Stream::new();
    let wait = asked(&mut stream, "backend", ActionKind::Merge, "merge the PR");
    let id = MessageId::parse(&request_id(&stream)).unwrap();
    let grant = |from: Sender, id: MessageId| {
        let kind = MessageKind::ApprovalDecision {
            in_reply_to: id,
            granted: true,
        };
        message(from, "@backend", kind, "")
    };
    let teammate = Sender::Role(RoleId::new("frontend"));
    stream.events.push(grant(teammate, id));
    stream.events.push(grant(Sender::General, MessageId::new()));
    assert_eq!(wait.observe(&stream.events, false), None);
    stream.events.push(grant(Sender::General, id));
    assert_eq!(
        wait.observe(&stream.events, false),
        Some(ApprovalOutcome::Granted)
    );
}

#[test]
fn the_general_grants_a_blocked_request_end_to_end() {
    // A specialist requests approval for a gated merge; the command blocks.
    let mut stream = Stream::new();
    let wait = asked(
        &mut stream,
        "backend",
        ActionKind::Merge,
        "merge the login PR",
    );
    let id = request_id(&stream);

    // The General lists the pending request and grants it.
    let history = json::parse(&format!(
        "[{{\"from\":{{\"kind\":\"role\",\"id\":\"backend\"}},\"kind\":{{\"kind\":\"message\",\
         \"data\":{{\"kind\":\"approval_request\",\"id\":\"{id}\",\"action\":\"merge\",\
         \"body\":\"merge the login PR\"}}}}}}]"
    ))
    .unwrap();
    let events = history.as_array().unwrap();
    let listed = control::pending_approvals(events);
    assert!(
        listed.contains(&id) && listed.contains("backend") && listed.contains("merge"),
        "the pending request is listed with its id: {listed}",
    );
    let orders = control::approve(events, &id, false, Some("ship it")).unwrap();
    for sending in &orders.sends {
        if let Request::Post { path, body } = &sending.request {
            stream.post(path, body);
        }
    }

    // The blocked request unblocks on the grant.
    let outcome = wait.observe(&stream.events, false).expect("it is decided");
    assert!(outcome.may_proceed(), "the granted request proceeds");
    assert!(
        outcome
            .told(ActionKind::Merge)
            .unwrap()
            .contains("approved"),
        "the requester is told it was approved",
    );

    // The decision is on the stream, threaded to the request.
    let decided = stream.events.iter().any(|event| match &event.kind {
        EventKind::Message(message) => {
            message.kind
                == MessageKind::ApprovalDecision {
                    in_reply_to: MessageId::parse(&id).unwrap(),
                    granted: true,
                }
        }
        _ => false,
    });
    assert!(decided, "the grant is recorded as an approval_decision");
}

#[test]
fn an_ungated_action_proceeds_through_the_shim() {
    // A role whose rules gate nothing: the action proceeds with no wait.
    let rules = RulesOfEngagement::new(&[], 1_000_000);
    let request = client("backend").request_approval(&rules, ActionKind::Push, None, "");
    assert!(
        request.is_none(),
        "no request was posted for an ungated action"
    );
    assert!(
        ApprovalOutcome::NotGated
            .told(ActionKind::Push)
            .unwrap()
            .contains("needs no approval"),
        "the shim reports the action is ungated",
    );
    let late = ApprovalOutcome::TimedOut.told(ActionKind::Push).unwrap_err();
    assert_eq!(late, "push was not decided in time; do not proceed");
    let denied = ApprovalOutcome::Denied {
        reason: "no".to_owned(),
    };
    assert_eq!(denied.told(ActionKind::Push).unwrap_err(), "push denied: no");
}
