//! The command line: the General's sends, the stream, notifications, and the
//! small files a crew keeps.
use crew::approvals::{self, render_list};
use crew::base::{broker_error, normalize_base, resolve_base};
use crew::card::BrokerEndpoint;
use crew::client::{Reply, Request};
use crew::config::CrewConfig;
use crew::control::{
    self, approve, belay, brief, brief_target, command, commander_notice, default_commander,
    find_request_sender, plain_role, posted, redirect, role_channel,
};
use crew::cursor::{sanitize, InboxCursor, TaskContext};
use crew::event::{
    Activity, BoardEvent, BoardSection, BudgetEvent, Event, EventKind, Lifecycle, Message,
    MessageKind, StallEvent, StallKind, StallStatus, TelemetryEvent, Verdict, VerificationEvent,
};
use crew::budget::BudgetScope;
use crew::id::{ChannelId, MessageId, RoleId, Sender, TaskId};
use crew::inbox::InboxItem;
use crew::integrate::{integrate, render, CheckOutcome, Conflict, IntegrationReport, Standing};
use crew::json::{self, Json};
use crew::notify::{moment_of, notification_for, Moment, NotifyPolicy};
use crew::pause::{outcome, pause, resume, standdown};
use crew::path;
use crew::paths;
use crew::pidfile::{
    self, classify, parse_start_time, process_marker, verified_target, Decision, Record, Target,
};
use crew::shim::{self, Agent};
use crew::snapshot::RoleEntry;
use crew::time::Timestamp;
use crew::up::{
    all_registered, chosen_config, commander_entry, print_roster, wait_is_over, AgentState,
};
use crew::usage;
use crew::watch::{
    data_payload, parse_id_line, render_event, watch, watch_path, Follow, NextStep, Tail,
};

fn value(source: &str) -> Json {
    json::parse(source).expect("the JSON reads")
}

/// The compact JSON of a post's body, and its path.
fn posting(request: &Request) -> (String, String) {
    match request {
        Request::Post { path, body } => (path.clone(), json::print(body)),
        Request::Get { path, .. } => panic!("a read of {path}"),
    }
}

fn event(from: Sender, channel: &str, kind: EventKind) -> Event {
    Event {
        ts: Timestamp::now(),
        from,
        channel: ChannelId::new(channel),
        task: None,
        kind,
    }
}

fn note(from: Sender, channel: &str, body: &str) -> Event {
    event(
        from,
        channel,
        EventKind::Message(Message {
            id: MessageId::new(),
            kind: MessageKind::Note,
            body: body.to_owned(),
        }),
    )
}

fn role(name: &str) -> Sender {
    Sender::Role(RoleId::new(name))
}

// The stream.

#[test]
fn renders_a_message_with_its_routing_visible() {
    let event = note(role("frontend"), "@backend", "api is ready");
    let line = render_event(&event);
    assert!(
        line.contains("frontend -> @backend"),
        "sender and channel: {line}"
    );
    assert!(
        line.contains("(note) api is ready"),
        "kind and body: {line}"
    );
}

#[test]
fn renders_the_general_and_a_lifecycle_event() {
    let from_general = note(Sender::General, "all-units", "stand by");
    assert!(render_event(&from_general).contains("general -> all-units (note) stand by"));

    let lifecycle = Event {
        kind: EventKind::Lifecycle(Lifecycle::Started),
        ..note(role("backend"), "all-units", "")
    };
    assert!(render_event(&lifecycle).contains("(lifecycle) started"));
}

#[test]
fn renders_a_verification_step() {
    // The event keys by an id but renders the human title, so the watch line
    // reads by the task's name, not a raw uuid.
    let event = |verdict, verifier: Option<&str>, detail: &str| Event {
        kind: EventKind::Verification(VerificationEvent {
            task: TaskId::new(),
            title: "login".to_owned(),
            owner: RoleId::new("backend"),
            verifier: verifier.map(RoleId::new),
            verdict,
            detail: detail.to_owned(),
        }),
        ..note(role("backend"), "all-units", "")
    };

    let submitted = render_event(&event(Verdict::Submitted, None, "tokens expire"));
    assert!(
        submitted.contains("(verification) backend submitted `login`"),
        "submission names the owner and title, not the uuid: {submitted}"
    );

    let failed = render_event(&event(Verdict::Failed, Some("qa"), "tokens never expire"));
    assert!(
        failed.contains("qa failed `login`") && failed.contains("tokens never expire"),
        "a failure names the verifier and the reason: {failed}"
    );

    let passed = render_event(&event(Verdict::Passed, Some("qa"), ""));
    assert!(
        passed.contains("qa passed `login`") && passed.contains("done"),
        "a pass reads as done: {passed}"
    );
}

#[test]
fn a_line_reads_with_its_clock_time() {
    let mut event = note(role("backend"), "all-units", "hello");
    event.ts = Timestamp { secs: 3661, nanos: 0 };
    assert_eq!(
        render_event(&event),
        "[01:01:01] backend -> all-units (note) hello"
    );
    event.kind = EventKind::Telemetry(TelemetryEvent {
        role: RoleId::new("backend"),
        tokens: 1200,
        cost_micro_usd: 1_500_000,
    });
    let line = render_event(&event);
    assert!(line.contains("1200") && line.contains("$1.50"), "{line}");
}

#[test]
fn reads_a_data_line_and_skips_the_rest() {
    assert_eq!(data_payload("data: {}"), Some("{}"));
    assert_eq!(data_payload("data:{}"), Some("{}"));
    assert_eq!(data_payload("id: 7"), None, "an id line is skipped");
    assert_eq!(data_payload(": keep-alive"), None, "a comment is skipped");
    assert_eq!(data_payload(""), None, "a blank line is skipped");
}

#[test]
fn watch_path_is_the_firehose_or_a_role_inbox() {
    assert_eq!(watch_path(None), "/stream");
    assert_eq!(watch_path(Some("backend")), "/inbox?role=backend");
}

#[test]
fn parse_id_line_reads_the_sse_cursor() {
    assert_eq!(parse_id_line("id: 7"), Some(7));
    assert_eq!(parse_id_line("id:42"), Some(42));
    assert_eq!(
        parse_id_line("data: {}"),
        None,
        "a data line is not a cursor"
    );
    assert_eq!(
        parse_id_line("id: nope"),
        None,
        "a non-numeric id is skipped"
    );
    assert_eq!(parse_id_line(": keep-alive"), None);
}

#[test]
fn apply_line_commits_the_cursor_only_after_the_event_is_delivered() {
    // Committing the cursor after delivery, not on the `id:` line, is what lets a
    // reconnect resume without a gap: an event the reader never received does not
    // advance the cursor past it.
    let mut tail = Tail::resuming(None);
    let mut delivered = 0;

    // An `id:` line arms the pending cursor but does not commit it yet.
    assert!(!tail.apply_line("id: 5", false));
    assert_eq!(
        tail.last_id, None,
        "the cursor is not advanced before delivery"
    );
    assert_eq!(tail.pending, Some(5));

    // The `data:` line delivers the event and commits the cursor.
    if tail.apply_line("data: {}", true) {
        delivered += 1;
    }
    assert_eq!(delivered, 1);
    assert_eq!(
        tail.last_id,
        Some(5),
        "the cursor advances to the delivered event"
    );
    assert_eq!(tail.pending, None);

    // A later `id:` with no `data:` (the connection dropped mid-event) must not
    // advance the cursor past an event the reader never received.
    tail.apply_line("id: 6", false);
    assert_eq!(
        tail.last_id,
        Some(5),
        "an undelivered event does not advance the cursor"
    );
}

#[test]
fn a_dropped_stream_is_followed_again_from_where_it_ended() {
    let mut follow = Follow::start();
    assert_eq!(follow.refused(), NextStep::Fail, "never opened");
    assert_eq!(follow.ended(Some(9)), NextStep::Reconnect);
    assert_eq!(follow.resume_from, Some(9));
    // A connection that delivered nothing keeps the place, and a later refusal is
    // tried again.
    assert_eq!(follow.ended(None), NextStep::Reconnect);
    assert_eq!(follow.resume_from, Some(9));
    assert_eq!(follow.refused(), NextStep::Reconnect);
}

#[test]
fn the_watched_url_names_the_broker_and_the_path() {
    let endpoint = BrokerEndpoint::new("127.0.0.1", 2739);
    assert_eq!(
        watch(None, &endpoint, Some("backend")),
        "http://127.0.0.1:2739/inbox?role=backend"
    );
    assert_eq!(
        watch(Some("broker.internal/"), &endpoint, None),
        "http://broker.internal/stream"
    );
}

// The broker's address.

#[test]
fn broker_base_normalize_base_defaults_the_scheme_and_trims() {
    assert_eq!(normalize_base("localhost:2739/"), "http://localhost:2739");
    assert_eq!(
        normalize_base("http://127.0.0.1:2739"),
        "http://127.0.0.1:2739"
    );
    assert_eq!(
        normalize_base("https://broker.internal"),
        "https://broker.internal"
    );
}

#[test]
fn control_normalize_base_defaults_the_scheme_and_trims() {
    assert_eq!(normalize_base("localhost:2739/"), "http://localhost:2739");
    assert_eq!(
        normalize_base("http://127.0.0.1:2739"),
        "http://127.0.0.1:2739"
    );
}

#[test]
fn a_given_address_wins_over_the_environment() {
    let endpoint = BrokerEndpoint::new("127.0.0.1", 2739);
    assert_eq!(resolve_base(None, &endpoint), "http://127.0.0.1:2739");
    assert_eq!(
        resolve_base(Some(" broker:1/ "), &endpoint),
        "http://broker:1"
    );
    let once = normalize_base(" broker:1// ");
    assert_eq!(normalize_base(&once), once, "a base is its own normal form");
}

#[test]
fn a_broker_error_is_read_from_its_reply() {
    assert_eq!(
        broker_error("{\"error\":\"the task is held by qa\"}").as_deref(),
        Some("the task is held by qa")
    );
    assert_eq!(broker_error("{\"error\":7}"), None);
    assert_eq!(broker_error("<html>"), None);
}

// The General's sends.

#[test]
fn plain_role_strips_the_at_and_whitespace() {
    assert_eq!(plain_role(" @backend "), "backend");
    assert_eq!(plain_role("frontend"), "frontend");
}

#[test]
fn a_role_resolves_to_its_direct_channel_and_a_bad_one_errors() {
    assert_eq!(
        role_channel("backend", "command").unwrap().name().as_str(),
        "@backend"
    );
    assert!(
        role_channel("frontend+backend", "command").is_err(),
        "a pair is not a single role to command",
    );
}

#[test]
fn default_commander_falls_back_to_commander_and_strips_the_at() {
    assert_eq!(default_commander(None), "commander");
    assert_eq!(default_commander(Some("  ")), "commander");
    assert_eq!(default_commander(Some(" @lead ")), "lead");
}

#[test]
fn a_brief_defaults_to_the_commander_and_resolves_channels() {
    // No target: the free-form brief reaches the commander.
    assert_eq!(
        brief_target(None, None, None).unwrap().name().as_str(),
        "@commander",
    );
    // A custom commander name is honored for the default brief.
    assert_eq!(
        brief_target(None, None, Some("lead"))
            .unwrap()
            .name()
            .as_str(),
        "@lead",
    );
    // A named role wins over the default.
    assert_eq!(
        brief_target(Some("backend"), None, None)
            .unwrap()
            .name()
            .as_str(),
        "@backend",
    );
    // A channel name broadcasts.
    assert_eq!(
        brief_target(None, Some("all-units"), None)
            .unwrap()
            .name()
            .as_str(),
        "all-units",
    );
    // An unroutable target is an error, not a silent misfire.
    assert!(
        brief_target(None, Some("nonsense"), None).is_err(),
        "an unrecognized channel does not resolve",
    );
}

#[test]
fn the_commander_notice_names_the_role_and_the_order_and_says_it_is_informed() {
    let notice = commander_notice("backend", "switch to the login bug");
    assert!(notice.contains("backend") && notice.contains("switch to the login bug"));
    assert!(
        notice.contains("informed, not bypassed"),
        "the commander is informed, not bypassed: {notice}",
    );
}

#[test]
fn the_general_briefs_the_commander_a_role_and_all_units() {
    for (to, channel, target, body) in [
        (None, None, "@commander", "ship the login flow"),
        (Some("backend"), None, "@backend", "own the api lane"),
        (None, Some("all-units"), "all-units", "all hands"),
    ] {
        let orders = brief(to, channel, None, body).unwrap();
        assert_eq!(orders.sends.len(), 1);
        let (path, payload) = posting(&orders.sends[0].request);
        assert_eq!(path, format!("/channels/{target}/messages"));
        assert_eq!(
            payload,
            format!("{{\"body\":\"{body}\",\"from\":{{\"kind\":\"general\"}},\"kind\":\"note\"}}")
        );
        assert_eq!(orders.end, Ok(format!("briefed {target}")));
    }
}

#[test]
fn a_brief_to_an_unroutable_target_fails_cleanly() {
    let refused = brief(None, Some("nonsense"), None, "hello").unwrap_err();
    assert!(refused.contains("not a routable target"), "{refused}");
}

#[test]
fn a_directive_goes_to_one_role() {
    let orders = redirect(" @backend", "go left").unwrap();
    let (path, payload) = posting(&orders.sends[0].request);
    assert_eq!(path, "/channels/@backend/messages");
    assert!(payload.contains("\"kind\":\"redirect\"") && payload.contains("go left"));
    assert_eq!(orders.end, Ok("redirect sent to backend".to_owned()));

    let refused = belay("a+b", "stop").unwrap_err();
    assert_eq!(
        refused,
        "`a+b` is not a role to steer; name a single specialist"
    );
}

#[test]
fn an_override_orders_the_role_and_informs_the_commander() {
    let orders = command("backend", "fix login", Some("auth only"), None, None).unwrap();
    assert_eq!(orders.sends.len(), 2);
    let (path, payload) = posting(&orders.sends[0].request);
    assert_eq!(path, "/channels/@backend/messages");
    assert!(payload.contains("\"title\":\"fix login\"") && payload.contains("\"owned_paths\":[]"));
    assert_eq!(orders.sends[0].what, "order");
    let (path, payload) = posting(&orders.sends[1].request);
    assert_eq!(path, "/channels/@commander/messages");
    assert!(payload.contains("Direct order from the General to backend: fix login."));
    assert_eq!(orders.sends[1].what, "commander notice");
    assert_eq!(
        orders.end,
        Ok("ordered backend directly; informed commander".to_owned())
    );

    // The commander, in whatever case, is not informed of its own order.
    let own = command("Commander", "regroup", None, None, None).unwrap();
    assert_eq!(own.sends.len(), 1);
    assert_eq!(own.end, Ok("ordered Commander directly".to_owned()));

    // A commander that is no role fails only after the order went out.
    let lost = command("backend", "fix login", None, None, Some("a+b")).unwrap();
    assert_eq!(lost.sends.len(), 1);
    assert_eq!(
        lost.end,
        Err("`a+b` is not a role to inform; name a single specialist".to_owned())
    );
}

const REQUESTS: &str = r#"{ "events": [
    { "from": { "kind": "role", "id": "backend" },
      "kind": { "data": { "id": "r1", "kind": "approval_request", "action": "merge", "body": "the login PR" } } },
    { "from": { "kind": "role", "id": "qa" },
      "kind": { "data": { "id": "r2", "kind": "approval_request", "action": "push" } } },
    { "from": { "kind": "general" },
      "kind": { "data": { "id": "d1", "kind": "approval_decision", "in_reply_to": "r2", "granted": true } } },
    { "kind": { "data": { "id": "r3", "kind": "approval_request" } } }
] }"#;

fn request_events() -> Vec<Json> {
    match value(REQUESTS) {
        Json::Object(mut entries) => match entries.remove(0).1 {
            Json::Array(events) => events,
            other => panic!("{other:?}"),
        },
        other => panic!("{other:?}"),
    }
}

#[test]
fn only_undecided_requests_are_listed() {
    assert_eq!(
        control::approvals(REQUESTS).unwrap(),
        "2 pending approval request(s):\n  r1  backend wants to merge: the login PR\n      \
         approve: crew approve r1   deny: crew approve r1 --deny\n  r3  ? wants to ?: \n      \
         approve: crew approve r3   deny: crew approve r3 --deny"
    );
    assert_eq!(
        control::approvals("{}").unwrap(),
        "No pending approval requests."
    );
    assert!(control::approvals("nope").is_err());
}

#[test]
fn an_approval_is_answered_to_the_role_that_asked() {
    let events = request_events();
    let orders = approve(&events, " r1 ", false, Some("ship it")).unwrap();
    let (path, payload) = posting(&orders.sends[0].request);
    assert_eq!(path, "/channels/@backend/messages");
    assert_eq!(
        payload,
        "{\"body\":\"ship it\",\"from\":{\"kind\":\"general\"},\"granted\":true,\
         \"in_reply_to\":\"r1\",\"kind\":\"approval_decision\"}"
    );
    assert_eq!(orders.end, Ok("approved backend's request r1".to_owned()));

    let denied = approve(&events, "r1", true, None).unwrap();
    assert!(posting(&denied.sends[0].request)
        .1
        .contains("\"granted\":false"));
    assert_eq!(denied.end, Ok("denied backend's request r1".to_owned()));

    assert!(approve(&events, "  ", false, None)
        .unwrap_err()
        .contains("name the approval request id"));
    assert_eq!(
        find_request_sender(&events, "r9").unwrap_err(),
        "no approval request has id `r9`; see `crew approvals`"
    );
    assert_eq!(
        find_request_sender(&events, "r3").unwrap_err(),
        "the approval request `r3` carries no sender role"
    );
}

#[test]
fn a_refusal_names_what_was_refused() {
    let refused = Reply::Refused {
        status: 409,
        text: Some("{\"error\":\"no such role\"}".to_owned()),
    };
    assert_eq!(
        posted("http://b", "brief", &refused),
        Err("the broker rejected the brief: no such role".to_owned())
    );
    let bare = Reply::Refused {
        status: 500,
        text: None,
    };
    assert_eq!(
        posted("http://b", "brief", &bare),
        Err("the broker rejected the brief: HTTP 500".to_owned())
    );
    assert_eq!(
        posted("http://b", "brief", &Reply::Unreachable("refused".to_owned())),
        Err("could not reach the broker at http://b; is `crewd` running?".to_owned())
    );
    assert_eq!(posted("http://b", "brief", &Reply::Accepted), Ok(()));
}

// The approval list.

#[test]
fn an_empty_gate_reads_as_nothing_waiting() {
    let line = render_list(&value("{ \"requests\": [] }"));
    assert!(line.contains("No approvals are waiting"));
}

#[test]
fn the_list_shows_pending_requests_and_hides_decided_ones() {
    let view = value(
        r#"{ "requests": [
        { "id": "abc", "role": "backend", "action": "merge", "detail": "PR #42", "decision": "pending" },
        { "id": "def", "role": "frontend", "action": "push", "decision": "approved" }
    ]}"#,
    );
    let line = render_list(&view);
    assert!(
        line.contains("1 approval waiting"),
        "counts only pending: {line}"
    );
    assert!(line.contains("abc") && line.contains("backend -> merge: PR #42"));
    assert!(
        !line.contains("def"),
        "a decided request is not listed: {line}"
    );
    assert!(line.contains("crew approve") && line.contains("crew deny"));
}

#[test]
fn a_decision_is_posted_and_a_denial_needs_a_reason() {
    let granted = approvals::approve("abc");
    let (path, payload) = posting(&granted.request);
    assert_eq!(path, "/approvals/abc/decision");
    assert_eq!(payload, "{\"approve\":true,\"reason\":\"\"}");
    assert_eq!(granted.done, "Approved abc. The role may proceed.");

    assert!(approvals::deny("abc", " ").unwrap_err().contains("needs a reason"));
    let denied = approvals::deny("abc", "not yet").unwrap();
    assert_eq!(
        denied.done,
        "Denied abc: not yet. The role will abandon the action."
    );

    let refused = Reply::Refused {
        status: 404,
        text: Some("gone".to_owned()),
    };
    assert_eq!(
        approvals::decided("http://b", &refused),
        Err("the broker refused the decision".to_owned())
    );
    assert_eq!(
        approvals::decided("http://b", &Reply::Unreachable("refused".to_owned())),
        Err("could not reach the broker at http://b; is `crewd` running? (refused)".to_owned())
    );
    assert_eq!(approvals::decided("http://b", &Reply::Accepted), Ok(()));
    assert_eq!(
        approvals::list("nope"),
        Err("the approval gate was malformed".to_owned())
    );
}

// The usage gauge.

#[test]
fn a_paused_gauge_names_the_reset_and_the_escape_hatch() {
    let line = usage::render(&value(
        r#"{ "percent": 95, "threshold": 90, "paused": true,
             "resets_at": "2026-07-23T14:00:00Z" }"#,
    ));
    assert!(line.contains("95%") && line.contains("auto-pause at 90%"));
    assert!(line.contains("paused until 2026-07-23T14:00:00Z"));
    assert!(
        line.contains("crew resume"),
        "names the escape hatch: {line}"
    );
}

#[test]
fn a_running_gauge_reads_as_running() {
    let line = usage::render(&value(
        "{ \"percent\": 40, \"threshold\": 90, \"paused\": false }",
    ));
    assert!(line.contains("40%") && line.contains("running"));
}

#[test]
fn a_gauge_without_readings_reads_as_zero() {
    assert_eq!(
        usage::usage("{}").unwrap(),
        "Subscription usage 0% (auto-pause at 0%): work is running."
    );
    assert_eq!(
        usage::usage("{ not json"),
        Err("the usage gauge was malformed".to_owned())
    );
}

// Pause, resume, stand down.

#[test]
fn outcome_names_the_role_or_the_crew() {
    assert_eq!(outcome("Paused", Some("backend")), "Paused backend.");
    assert_eq!(outcome("Resumed", None), "Resumed the crew.");
}

#[test]
fn a_control_action_targets_a_role_or_the_crew() {
    let one = pause(Some("backend"));
    assert_eq!(
        posting(&one.request),
        ("/pause".to_owned(), "{\"role\":\"backend\"}".to_owned())
    );
    assert_eq!(one.done, "Paused backend.");
    let all = resume(None);
    assert_eq!(
        posting(&all.request),
        ("/resume".to_owned(), "{}".to_owned())
    );
    assert_eq!(
        posting(&standdown().request),
        ("/standdown".to_owned(), "{}".to_owned())
    );
}

// The per-role files.

const STATE: &str = "/var/crew";

#[test]
fn an_unset_cursor_loads_as_zero() {
    let cursor = InboxCursor::new(STATE, &RoleId::new("backend"));
    assert_eq!(
        cursor.load(None),
        0,
        "no file yet means start from the beginning"
    );
}

#[test]
fn a_saved_cursor_round_trips() {
    let cursor = InboxCursor::new(STATE, &RoleId::new("backend"));
    let saved = cursor.save(7);
    assert_eq!(
        cursor.load(Some(&saved)),
        7,
        "a later read resumes from the saved count"
    );

    // Advancing overwrites, so the newest read position wins.
    let saved = cursor.save(12);
    assert_eq!(cursor.load(Some(&saved)), 12);
}

#[test]
fn each_role_keeps_its_own_cursor() {
    let backend = InboxCursor::new(STATE, &RoleId::new("backend"));
    let frontend = InboxCursor::new(STATE, &RoleId::new("frontend"));
    assert_eq!(backend.path(), "/var/crew/shim-cursors/backend.cursor");
    assert_eq!(frontend.path(), "/var/crew/shim-cursors/frontend.cursor");
    let (b, f) = (backend.save(3), frontend.save(9));
    assert_eq!(backend.load(Some(&b)), 3);
    assert_eq!(frontend.load(Some(&f)), 9);
}

#[test]
fn a_malformed_cursor_file_loads_as_zero() {
    let cursor = InboxCursor::new(STATE, &RoleId::new("backend"));
    assert_eq!(cursor.load(Some(" 4\n")), 4);
    assert_eq!(
        cursor.load(Some("not a number")),
        0,
        "a corrupt cursor falls back to the start"
    );
}

#[test]
fn an_unset_task_context_loads_as_none() {
    let context = TaskContext::new(STATE, &RoleId::new("backend"));
    assert!(
        context.load(None).is_none(),
        "no file yet means the role has no task"
    );
    assert_eq!(context.path(), "/var/crew/shim-cursors/backend.task");
}

#[test]
fn a_saved_task_round_trips_and_the_newest_wins() {
    let context = TaskContext::new(STATE, &RoleId::new("backend"));
    let task = TaskId::new();
    let saved = context.save(task);
    assert_eq!(
        context.load(Some(&saved)),
        Some(task),
        "a later read restores the task"
    );

    // Re-tasking overwrites, so the newest assignment wins.
    let next = TaskId::new();
    let saved = context.save(next);
    assert_eq!(context.load(Some(&saved)), Some(next));
    assert_eq!(saved, format!("\"{}\"", next.to_string()));
}

#[test]
fn a_malformed_task_file_loads_as_none() {
    let context = TaskContext::new(STATE, &RoleId::new("backend"));
    assert!(
        context.load(Some("not a task")).is_none(),
        "a corrupt task file falls back to no task"
    );
    assert!(context.load(Some("\"not a task\"")).is_none());
    assert!(context.load(Some("7")).is_none());
}

#[test]
fn sanitize_neutralizes_path_separators() {
    assert_eq!(sanitize("backend"), "backend");
    assert_eq!(sanitize("sdet-unit"), "sdet-unit");
    // Separators become `_`, so a traversal attempt stays one component; the
    // dots are harmless once the `.cursor` suffix is appended.
    assert_eq!(sanitize("../escape"), ".._escape");
    assert_eq!(sanitize("a/b"), "a_b");
}

// Integration.

fn report(standing: Standing) -> IntegrationReport {
    IntegrationReport {
        branch: "crew/integration".to_owned(),
        base: "main".to_owned(),
        merged: vec!["crew/backend".to_owned()],
        conflicts: Vec::new(),
        check: None,
        standing,
    }
}

#[test]
fn a_conflict_is_shown_with_its_files_and_says_nothing_was_dropped() {
    let mut report = report(Standing::Conflicts);
    report.conflicts.push(Conflict {
        branch: "crew/frontend".to_owned(),
        files: vec!["shared.rs".to_owned()],
    });
    let text = render(&report);
    assert!(text.contains("CONFLICT: crew/frontend collides on shared.rs"));
    assert!(text.contains("Nothing was dropped"));
}

#[test]
fn a_green_integration_says_to_push_and_open_a_pr() {
    let text = render(&report(Standing::Green));
    assert!(text.contains("GREEN") && text.contains("open a PR"));
}

#[test]
fn a_failed_check_shows_the_output_tail() {
    let mut report = report(Standing::ChecksFailed);
    report.check = Some(CheckOutcome {
        command: "cargo test".to_owned(),
        passed: false,
        output: "error[E0308]: mismatched types".to_owned(),
    });
    let text = render(&report);
    assert!(text.contains("CHECKS FAILED"));
    assert!(
        text.contains("mismatched types"),
        "shows the failure: {text}"
    );
}

#[test]
fn an_integration_reads_line_by_line() {
    let mut merged = report(Standing::Merged);
    merged.check = Some(CheckOutcome {
        command: "make".to_owned(),
        passed: false,
        output: "one\ntwo\n".to_owned(),
    });
    assert_eq!(
        integrate(".", Some(&merged)),
        "Integrated onto crew/integration (from main):\n  merged: crew/backend\n  \
         check `make`: FAILED\n  ---\n  one\n  two\n  ---\nMERGED: every branch merged cleanly \
         (no checks run). Run the acceptance checks, then push `crew/integration`."
    );
    merged.merged.clear();
    assert!(render(&merged).contains("  merged: nothing\n"));
    assert_eq!(
        integrate("/src", None),
        "No crew/<role> branches to integrate in /src."
    );
}

// Notifications.

fn stall(kind: StallKind, status: StallStatus, detail: &str) -> Event {
    event(
        Sender::General,
        "all-units",
        EventKind::Stall(StallEvent {
            kind,
            status,
            roles: vec![RoleId::new("backend"), RoleId::new("frontend")],
            detail: detail.to_owned(),
        }),
    )
}

fn question(from: &str, channel: &str, body: &str) -> Event {
    event(
        role(from),
        channel,
        EventKind::Message(Message {
            id: MessageId::new(),
            kind: MessageKind::Question { options: vec![] },
            body: body.to_owned(),
        }),
    )
}

fn lifecycle(from: &str, lifecycle: Lifecycle) -> Event {
    event(role(from), "all-units", EventKind::Lifecycle(lifecycle))
}

#[test]
fn classifies_the_actionable_moments() {
    assert_eq!(
        moment_of(&question("backend", "all-units", "which db?")),
        Some(Moment::QuestionAsked)
    );
    assert_eq!(
        moment_of(&lifecycle("backend", Lifecycle::Died)),
        Some(Moment::RoleDied)
    );
    assert_eq!(
        moment_of(&lifecycle("commander", Lifecycle::StoodDown)),
        Some(Moment::CrewStoodDown)
    );
}

#[test]
fn stays_quiet_on_routine_chatter() {
    let note = note(role("backend"), "all-units", "on it");
    let status = event(
        role("frontend"),
        "@commander",
        EventKind::Message(Message {
            id: MessageId::new(),
            kind: MessageKind::Status,
            body: "halfway".to_owned(),
        }),
    );
    let started = lifecycle("backend", Lifecycle::Started);
    let idle = lifecycle("backend", Lifecycle::Idle);
    let activity = event(
        role("backend"),
        "all-units",
        EventKind::Activity(Activity::TurnStarted),
    );

    for routine in [note, status, started, idle, activity] {
        assert_eq!(moment_of(&routine), None, "routine event: {routine:?}");
    }
}

#[test]
fn a_question_notification_names_the_asker_the_channel_and_the_gist() {
    let policy = NotifyPolicy::new(vec![], true);
    let notification =
        notification_for(&question("frontend", "all-units", "REST or gRPC?"), &policy)
            .expect("a question is an actionable moment");
    assert!(
        notification.title.contains("question"),
        "title: {}",
        notification.title
    );
    assert!(
        notification.body.contains("frontend")
            && notification.body.contains("all-units")
            && notification.body.contains("REST or gRPC?"),
        "body: {}",
        notification.body
    );
}

#[test]
fn a_death_notification_names_the_role() {
    let policy = NotifyPolicy::new(vec![], true);
    let notification = notification_for(&lifecycle("backend", Lifecycle::Died), &policy)
        .expect("a death is an actionable moment");
    assert!(
        notification.title.contains("backend") && notification.body.contains("backend"),
        "title {} / body {}",
        notification.title,
        notification.body
    );
}

#[test]
fn a_muted_moment_does_not_notify() {
    let policy = NotifyPolicy::new(vec![Moment::QuestionAsked], true);
    assert!(
        notification_for(&question("backend", "all-units", "which db?"), &policy).is_none(),
        "a muted question does not notify"
    );
    assert!(
        notification_for(&lifecycle("backend", Lifecycle::Died), &policy).is_some(),
        "an unmuted death still notifies"
    );
}

#[test]
fn a_long_question_body_is_elided() {
    let long = "x".repeat(500);
    let policy = NotifyPolicy::new(vec![], true);
    let notification = notification_for(&question("backend", "all-units", &long), &policy)
        .expect("a question is an actionable moment");
    assert!(
        notification.body.ends_with("..."),
        "an overlong body is elided: {}",
        notification.body
    );
    assert!(
        notification.body.len() < long.len(),
        "the body is shorter than the raw question"
    );
}

#[test]
fn a_detected_stall_is_an_actionable_moment() {
    assert_eq!(
        moment_of(&stall(
            StallKind::Deadlock,
            StallStatus::Detected,
            "deadlock: backend waits on frontend, and frontend waits on backend"
        )),
        Some(Moment::RoleStalled)
    );
}

#[test]
fn a_resolved_stall_stays_quiet() {
    assert_eq!(
        moment_of(&stall(
            StallKind::Deadlock,
            StallStatus::Resolved,
            "the deadlock cleared"
        )),
        None,
        "a resolved stall is good news and needs no push"
    );
}

#[test]
fn a_stall_notification_names_the_cause() {
    let policy = NotifyPolicy::new(vec![], true);
    let notification = notification_for(
        &stall(
            StallKind::UnansweredQuestion,
            StallStatus::Detected,
            "backend has waited 12m for frontend to answer",
        ),
        &policy,
    )
    .expect("a detected stall is an actionable moment");
    assert!(
        notification.title.contains("stalled"),
        "title: {}",
        notification.title
    );
    assert!(
        notification
            .body
            .contains("backend has waited 12m for frontend to answer"),
        "body names the specific cause: {}",
        notification.body
    );
}

#[test]
fn a_muted_stall_does_not_notify() {
    let policy = NotifyPolicy::new(vec![Moment::RoleStalled], true);
    assert!(
        notification_for(
            &stall(
                StallKind::LedgerStall,
                StallStatus::Detected,
                "task `login` is stuck"
            ),
            &policy
        )
        .is_none(),
        "a muted stall does not notify"
    );
}

#[test]
fn board_and_budget_events_read_on_the_stream() {
    let board = event(
        role("backend"),
        "all-units",
        EventKind::Board(BoardEvent {
            key: "auth-strategy".to_owned(),
            section: BoardSection::Decision,
            author: RoleId::new("backend"),
            body: "use JWT".to_owned(),
            retracted: false,
        }),
    );
    let line = render_event(&board);
    assert!(line.contains("auth-strategy"), "{line}");
    let budget = event(
        Sender::General,
        "all-units",
        EventKind::Budget(BudgetEvent {
            role: RoleId::new("backend"),
            role_spent: 900,
            role_cap: None,
            crew_spent: 1000,
            crew_budget: Some(1000),
            breach: Some(BudgetScope::Crew),
        }),
    );
    let line = render_event(&budget);
    assert!(
        line.contains("backend spent 900") && line.contains("(budget reached, crew idle-stopped)"),
        "{line}"
    );
}

// The pidfile.

const PIDFILE: &str = "/var/crew/crew.pid";

#[test]
fn the_pidfile_lies_in_the_state_directory() {
    assert_eq!(pidfile::path(STATE), PIDFILE);
    assert_eq!(paths::pidfile("/var/crew/"), PIDFILE);
}

#[test]
fn write_then_verify_resolves_the_running_process() {
    // The file carries the process's marker, so re-deriving it matches and gives
    // back the PID: the happy path end to end.
    let stat = "1234 (crew) S 1 1234 1234 0 -1 4194304 100 0 0 0 5 6 0 0 20 0 1 0 987654 0";
    let marker = process_marker(Some("boot-1\n"), Some(stat));
    let record = Record { pid: 1234, marker };
    let live = process_marker(Some("boot-1\n"), Some(stat));
    assert_eq!(
        verified_target(PIDFILE, Some(&record.render()), live.as_deref()),
        Target::Running(1234)
    );
}

#[test]
fn a_stale_pidfile_naming_a_dead_pid_is_refused_and_removed() {
    // PID 0 is never a live user process, so a pidfile carrying a marker for it
    // is stale: nothing is signaled, and the file is to be removed.
    match verified_target(PIDFILE, Some("0\nboot-1234:987654\n"), None) {
        Target::Refused { why, stale } => {
            assert!(
                why.contains("gone"),
                "the error explains the process is gone: {why}"
            );
            assert!(stale, "the stale pidfile is removed");
        }
        other => panic!("a stale pidfile is refused: {other:?}"),
    }
}

#[test]
fn a_replaced_process_is_refused_and_the_pidfile_removed() {
    match verified_target(PIDFILE, Some("7\nboot:1\n"), Some("boot:2")) {
        Target::Refused { why, stale } => {
            assert!(why.contains("crew process 7, but that PID is now a different process"));
            assert!(stale);
        }
        other => panic!("{other:?}"),
    }
}

#[test]
fn an_old_format_pidfile_falls_back_to_signaling_by_pid() {
    // A pidfile with no marker line gives its PID unverified.
    assert_eq!(
        verified_target(PIDFILE, Some("424242\n"), None),
        Target::Running(424_242)
    );
}

#[test]
fn a_missing_pidfile_reports_no_crew() {
    match verified_target(PIDFILE, None, None) {
        Target::Refused { why, stale } => {
            assert!(
                why.contains("no crew is running"),
                "the error says no crew is running: {why}"
            );
            assert!(!stale);
        }
        other => panic!("no pidfile means no crew: {other:?}"),
    }
    match verified_target(PIDFILE, Some("x"), None) {
        Target::Refused { why, .. } => assert!(why.contains("does not hold a PID")),
        other => panic!("{other:?}"),
    }
}

#[test]
fn a_record_round_trips_with_and_without_a_marker() {
    let with = Record {
        pid: 4321,
        marker: Some("boot:99".to_owned()),
    };
    assert_eq!(Record::parse(&with.render()), Some(with));

    let without = Record {
        pid: 4321,
        marker: None,
    };
    assert_eq!(Record::parse(&without.render()), Some(without));
}

#[test]
fn parse_reads_the_old_single_line_pid_form() {
    // A file that holds only the PID still parses, with no marker, so standing
    // down falls back to signaling by PID.
    assert_eq!(
        Record::parse("2468\n"),
        Some(Record {
            pid: 2468,
            marker: None
        })
    );
    assert_eq!(Record::parse("not-a-pid"), None);
}

#[test]
fn a_matching_marker_signals_and_a_mismatch_is_stale() {
    let record = Record {
        pid: 100,
        marker: Some("boot:5".to_owned()),
    };
    assert_eq!(classify(&record, Some("boot:5")), Decision::Signal(100));
    assert_eq!(classify(&record, Some("boot:9")), Decision::Replaced);
    assert_eq!(classify(&record, None), Decision::Gone);
}

#[test]
fn no_marker_always_signals_by_pid() {
    // Without a marker there is nothing to verify, so it signals by PID
    // regardless.
    let record = Record {
        pid: 100,
        marker: None,
    };
    assert_eq!(classify(&record, None), Decision::Signal(100));
    assert_eq!(classify(&record, Some("boot:5")), Decision::Signal(100));
}

#[test]
fn parse_start_time_reads_field_22_past_a_tricky_comm() {
    // A well-behaved comm.
    let stat = "1234 (crew) S 1 1234 1234 0 -1 4194304 100 0 0 0 5 6 0 0 20 0 1 0 987654 0";
    assert_eq!(parse_start_time(stat), Some(987_654));

    // A comm containing spaces and a close-paren must not shift the fields:
    // the scan goes to the last `)`.
    let tricky = "1234 (weird )name) S 1 1234 1234 0 -1 4194304 100 0 0 0 5 6 0 0 20 0 1 0 42 0";
    assert_eq!(parse_start_time(tricky), Some(42));
}

#[test]
fn a_process_without_a_stat_line_has_no_marker() {
    let stat = "1 (crew) S 1 1 1 0 -1 4194304 100 0 0 0 5 6 0 0 20 0 1 0 42 0";
    assert_eq!(
        process_marker(Some(" boot-9 \n"), Some(stat)).as_deref(),
        Some("boot-9:42")
    );
    assert_eq!(process_marker(Some("boot-9"), None), None);
    assert_eq!(process_marker(None, Some(stat)), None);
    assert_eq!(process_marker(Some("boot-9"), Some("1 (crew) S")), None);
}

// The agent on the command line.

fn item(detail: &str, body: &str) -> InboxItem {
    InboxItem {
        id: "1".to_owned(),
        from: "qa".to_owned(),
        channel: "@backend".to_owned(),
        kind: "note".to_owned(),
        detail: detail.to_owned(),
        body: body.to_owned(),
        directive: false,
    }
}

#[test]
fn the_command_line_inbox_leads_with_the_detail() {
    assert_eq!(shim::inbox(&[]), "No messages.");
    assert_eq!(
        shim::inbox(&[item("", "hi"), item("build it", ""), item("build it", "now")]),
        "3 message(s):\n- qa on @backend (note): hi\n- qa on @backend (note): build it\n\
         - qa on @backend (note): build it. now"
    );
}

#[test]
fn the_command_line_roster_lists_the_lanes() {
    assert_eq!(shim::roster(&[]), "The roster is empty.");
    let entry = |role: &str, paths: &[&str]| RoleEntry {
        role: role.to_owned(),
        owned_paths: paths.iter().map(|p| (*p).to_owned()).collect(),
        liveness: "working".to_owned(),
        paused: false,
    };
    assert_eq!(
        shim::roster(&[entry("commander", &[]), entry("backend", &["api/", "db/"])]),
        "2 role(s):\n- commander [working]\n- backend [working] owns api/, db/"
    );
}

#[test]
fn the_shim_errors_without_a_role_context() {
    // No role card and no CREW_ROLE: the shim cannot know who it acts as.
    let endpoint = BrokerEndpoint::new("127.0.0.1", 2739);
    for unset in [None, Some("  ")] {
        let why = Agent::from_role(unset, &endpoint).unwrap_err();
        assert!(
            why.contains("CREW_ROLE"),
            "the error names the missing environment: {why}"
        );
        assert!(shim::bare_card(unset, endpoint.clone()).is_err());
    }
}

#[test]
fn a_bare_boot_takes_the_role_from_the_environment() {
    let endpoint = BrokerEndpoint::new("127.0.0.1", 2739);
    let agent = Agent::from_role(Some(" codexbot "), &endpoint).unwrap();
    assert_eq!(agent.role, RoleId::new("codexbot"));
    assert_eq!(agent.commander, RoleId::new("commander"));
    assert_eq!(agent.base, "http://127.0.0.1:2739");
    assert!(agent.owned_paths.is_empty());
    assert_eq!(agent.registered(), "registered codexbot on the roster");
    assert_eq!(agent.broker(4, None).read_through(), 4);

    let card = shim::bare_card(Some("codexbot"), endpoint).unwrap();
    assert_eq!(card.role, RoleId::new("codexbot"));
    let from_card = Agent::from_card(card);
    assert_eq!(from_card, agent);
}

// Bringing a crew up.

#[test]
fn the_given_config_wins_then_the_default_one() {
    assert_eq!(
        chosen_config(Some("x.toml"), true).as_deref(),
        Some("x.toml")
    );
    assert_eq!(chosen_config(None, true).as_deref(), Some("crew.toml"));
    assert_eq!(chosen_config(None, false), None);
}

#[test]
fn the_live_roster_shows_each_role_and_its_lane() {
    let config = CrewConfig::default();
    let states = [
        Some(AgentState::Working),
        Some(AgentState::Idle),
        Some(AgentState::Dead),
        None,
    ];
    let shown = print_roster(&config, &states);
    assert!(shown.starts_with("\nCrew is up. 4 roles online:\n  commander    working  routes, owns no lane"));
    assert!(shown.contains("\n  backend      idle     "));
    assert!(shown.contains("\n  qa           pending  "), "{shown}");
    assert!(commander_entry(&config).starts_with("\nBrief the commander (`commander`) to set"));
    let registered: Vec<RoleId> = config.roles.iter().map(|spec| spec.role.clone()).collect();
    assert!(all_registered(&config, &registered));
    assert!(!all_registered(&config, &registered[1..]));
    assert!(wait_is_over(&config, &registered, false));
    assert!(!wait_is_over(&config, &registered[1..], false));
    assert!(wait_is_over(&config, &registered[1..], true), "the time is up");
}

#[test]
fn a_file_stands_in_its_parent_directory() {
    for (file, dir) in [
        ("crew.toml", "."),
        ("./crew.toml", "."),
        ("../crew.toml", ".."),
        ("conf/crew.toml", "conf"),
        ("conf//crew.toml", "conf"),
        ("conf/./crew.toml", "conf"),
        ("a/b/crew.toml/", "a/b"),
        ("/crew.toml", "/"),
        ("/etc/crew.toml", "/etc"),
        ("/", "."),
        ("", "."),
        (".", "."),
    ] {
        assert_eq!(path::dir_of(file), dir, "{file}");
    }

    // Every short path over the characters that matter.
    let mut texts = vec![String::new()];
    let mut last = texts.clone();
    for _ in 0..6 {
        let mut longer = Vec::new();
        for text in &last {
            for c in ['/', '.', 'a'] {
                longer.push(format!("{text}{c}"));
            }
        }
        texts.extend(longer.iter().cloned());
        last = longer;
    }
    for text in &texts {
        let parent = std::path::Path::new(text)
            .parent()
            .map(|dir| dir.to_str().unwrap())
            .filter(|dir| !dir.is_empty());
        assert_eq!(path::dir_of(text), parent.unwrap_or("."), "{text:?}");
    }
}
