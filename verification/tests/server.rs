//! The tool server: JSON-RPC in, replies or broker work out.
use crew::client::{Broker, Plan, Reply, Request};
use crew::config::LaneEnforcement;
use crew::event::{Event, EventKind, Message, MessageKind};
use crew::id::{ChannelId, MessageId, RoleId, Sender};
use crew::inbox::InboxItem;
use crew::json::{self, Json};
use crew::server::{
    inbox_notification, str_list_arg, tool_reply, usize_arg, Reading, Server, Step, Turn,
};
use crew::snapshot::{
    render_board, render_briefing, render_gate, render_inbox, render_ledger, render_roster,
    BoardEntryView, BoardSnapshot, BriefingPacket, GateSnapshot, GateTask, LedgerItem, RoleEntry,
    RosterSnapshot, Standing,
};
use crew::time::Timestamp;
use serde_json::Value;

/// A server whose broker points nowhere; the protocol paths under test never
/// call it.
fn server() -> Server {
    Server::new(
        Broker::new(
            "http://127.0.0.1:1",
            RoleId::new("backend"),
            RoleId::new("commander"),
        ),
        vec!["api/".to_owned()],
        LaneEnforcement::Warn,
    )
}

/// A value as `serde_json` reads its text back.
fn read(json: &Json) -> Value {
    serde_json::from_str(&json::print(json)).unwrap()
}

/// The reply to a line that is answered at once.
fn handle(line: &str) -> Value {
    match server().handle_line(line) {
        Turn::Reply(reply) => read(&reply),
        other => panic!("not a reply: {other:?}"),
    }
}

/// The work that a tool call asks for.
fn call(name: &str, arguments: &str) -> Result<Step, String> {
    server().call_tool(name, &json::parse(arguments).unwrap())
}

#[test]
fn render_inbox_flags_a_general_directive_to_honor_at_once() {
    let item = |kind: &str, directive: bool| InboxItem {
        id: "11111111-1111-1111-1111-111111111111".to_owned(),
        from: "general".to_owned(),
        channel: "@backend".to_owned(),
        kind: kind.to_owned(),
        detail: String::new(),
        body: "switch to the login bug".to_owned(),
        directive,
    };

    let rendered = render_inbox(&[item("redirect", true)]);
    assert!(
        rendered.contains("[honor now]"),
        "a directive is flagged: {rendered}"
    );
    assert!(rendered.contains("(redirect)"), "and names the kind");

    let plain = render_inbox(&[item("note", false)]);
    assert!(
        !plain.contains("[honor now]"),
        "a plain message is not flagged: {plain}"
    );
}

#[test]
fn initialize_echoes_the_protocol_version_and_advertises_tools() {
    let response = handle(
        r#"{ "jsonrpc": "2.0", "id": 1, "method": "initialize",
             "params": { "protocolVersion": "2025-06-18" } }"#,
    );
    let result = &response["result"];
    assert_eq!(
        result["protocolVersion"], "2025-06-18",
        "echoes the client's version"
    );
    assert_eq!(result["serverInfo"]["name"], "crew-mcp");
    assert!(
        result["capabilities"]["tools"].is_object(),
        "advertises tools"
    );
    assert!(
        result["capabilities"]["logging"].is_object(),
        "advertises logging, for the inbox notifications it pushes"
    );

    let default = handle(r#"{ "id": 1, "method": "initialize" }"#);
    assert_eq!(default["result"]["protocolVersion"], "2024-11-05");
}

#[test]
fn an_inbox_notification_is_a_well_formed_logging_message() {
    let value = read(&inbox_notification());
    assert_eq!(value["jsonrpc"], "2.0");
    assert_eq!(
        value["method"], "notifications/message",
        "an MCP server-to-client logging notification"
    );
    assert!(
        value.get("id").is_none(),
        "a notification carries no id, so the client sends no reply"
    );
    assert_eq!(value["params"]["level"], "info");
    assert!(
        value["params"]["data"]
            .as_str()
            .unwrap()
            .contains("crew_inbox"),
        "the nudge points the agent at crew_inbox: {value}"
    );
    assert!(
        !json::print(&inbox_notification()).contains('\n'),
        "the notification is one line"
    );
}

#[test]
fn tools_list_offers_the_crew_tools() {
    let response = handle(r#"{ "jsonrpc": "2.0", "id": 2, "method": "tools/list" }"#);
    let tools = response["result"]["tools"].as_array().unwrap();
    let names: Vec<&str> = tools.iter().map(|t| t["name"].as_str().unwrap()).collect();
    assert_eq!(
        names,
        [
            "crew_send",
            "crew_order",
            "crew_redirect",
            "crew_belay",
            "crew_ask",
            "crew_answer",
            "crew_status",
            "crew_artifact",
            "crew_inbox",
            "crew_roster",
            "crew_lane",
            "crew_claim",
            "crew_ledger",
            "crew_submit",
            "crew_verdict",
            "crew_gate",
            "crew_complete",
            "crew_board",
            "crew_record",
            "crew_briefing"
        ]
    );
    // Each tool documents itself and its arguments.
    for tool in tools {
        assert!(
            !tool["description"].as_str().unwrap().is_empty(),
            "tool has a description"
        );
        assert_eq!(tool["inputSchema"]["type"], "object");
    }
    // crew_send requires a body; crew_order requires a role and a title.
    let send = tools.iter().find(|t| t["name"] == "crew_send").unwrap();
    assert_eq!(send["inputSchema"]["required"], Value::from(vec!["body"]));
    let order = tools.iter().find(|t| t["name"] == "crew_order").unwrap();
    assert_eq!(
        order["inputSchema"]["required"],
        Value::from(vec!["to", "title"])
    );
    // crew_redirect and crew_belay each steer one specialist: a role and a body.
    let redirect = tools.iter().find(|t| t["name"] == "crew_redirect").unwrap();
    assert_eq!(
        redirect["inputSchema"]["required"],
        Value::from(vec!["to", "body"])
    );
    let belay = tools.iter().find(|t| t["name"] == "crew_belay").unwrap();
    assert_eq!(
        belay["inputSchema"]["required"],
        Value::from(vec!["to", "body"])
    );
    // Argument schemas name their type, their choices, and their items.
    let artifact = tools.iter().find(|t| t["name"] == "crew_artifact").unwrap();
    assert_eq!(
        artifact["inputSchema"]["properties"]["artifact_kind"]["enum"],
        Value::from(vec!["branch", "pull_request", "file", "route"])
    );
    assert_eq!(
        order["inputSchema"]["properties"]["owned_paths"]["items"]["type"],
        "string"
    );
    assert!(
        tools[8]["inputSchema"].get("required").is_none(),
        "the inbox needs nothing"
    );
}

#[test]
fn a_notification_gets_no_reply() {
    let reply =
        server().handle_line(r#"{ "jsonrpc": "2.0", "method": "notifications/initialized" }"#);
    assert_eq!(reply, Turn::Silent, "a notification is not answered");
}

#[test]
fn an_unknown_method_is_a_method_not_found_error() {
    let response = handle(r#"{ "jsonrpc": "2.0", "id": 3, "method": "resources/list" }"#);
    assert_eq!(response["error"]["code"], -32601);
    assert_eq!(
        response["error"]["message"],
        "method not found: resources/list"
    );
    assert_eq!(response["id"], 3, "the reply carries the id");
}

#[test]
fn malformed_json_is_a_parse_error() {
    let response = handle("{ not json");
    assert_eq!(response["error"]["code"], -32700);
}

#[test]
fn a_request_without_a_method_or_a_tool_name_is_an_error() {
    let response = handle(r#"{ "id": "a" }"#);
    assert_eq!(response["error"]["code"], -32600);
    let response = handle(r#"{ "id": null, "method": "tools/call", "params": {} }"#);
    assert_eq!(response["error"]["code"], -32602);
    assert!(response["id"].is_null());
    let response = handle(r#"{ "id": 1, "method": "ping" }"#);
    assert!(response["result"].as_object().unwrap().is_empty());
}

/// The error text of a tool call that never reaches the broker.
fn tool_error(params: &str) -> String {
    let response = handle(&format!(
        "{{ \"jsonrpc\": \"2.0\", \"id\": 4, \"method\": \"tools/call\", \"params\": {params} }}"
    ));
    assert_eq!(response["result"]["isError"], true);
    response["result"]["content"][0]["text"]
        .as_str()
        .unwrap()
        .to_owned()
}

#[test]
fn crew_send_without_a_body_is_a_tool_error_not_a_broker_call() {
    assert!(tool_error(r#"{ "name": "crew_send", "arguments": {} }"#).contains("body"));
}

#[test]
fn crew_order_without_a_target_is_a_tool_error_not_a_broker_call() {
    assert!(
        tool_error(r#"{ "name": "crew_order", "arguments": { "title": "do it" } }"#).contains("to")
    );
}

#[test]
fn crew_redirect_without_a_body_is_a_tool_error_not_a_broker_call() {
    assert!(
        tool_error(r#"{ "name": "crew_redirect", "arguments": { "to": "backend" } }"#)
            .contains("body")
    );
}

#[test]
fn crew_belay_without_a_target_is_a_tool_error_not_a_broker_call() {
    assert!(
        tool_error(r#"{ "name": "crew_belay", "arguments": { "body": "stop that" } }"#)
            .contains("to")
    );
}

#[test]
fn crew_verdict_without_pass_is_a_tool_error_not_a_broker_call() {
    assert!(
        tool_error(r#"{ "name": "crew_verdict", "arguments": { "task": "login" } }"#)
            .contains("pass")
    );
}

#[test]
fn crew_answer_without_in_reply_to_is_a_tool_error_not_a_broker_call() {
    assert!(
        tool_error(r#"{ "name": "crew_answer", "arguments": { "body": "use JWT" } }"#)
            .contains("in_reply_to")
    );
}

#[test]
fn crew_status_without_a_body_is_a_tool_error_not_a_broker_call() {
    assert!(tool_error(r#"{ "name": "crew_status", "arguments": {} }"#).contains("body"));
}

#[test]
fn crew_artifact_without_a_reference_is_a_tool_error_not_a_broker_call() {
    assert!(
        tool_error(r#"{ "name": "crew_artifact", "arguments": { "artifact_kind": "branch" } }"#)
            .contains("reference")
    );
}

#[test]
fn crew_submit_without_a_task_is_a_tool_error_not_a_broker_call() {
    assert!(tool_error(r#"{ "name": "crew_submit", "arguments": {} }"#).contains("task"));
}

#[test]
fn crew_record_without_a_key_is_a_tool_error_not_a_broker_call() {
    assert!(tool_error(
        r#"{ "name": "crew_record", "arguments": { "section": "decision", "body": "x" } }"#
    )
    .contains("key"));
}

#[test]
fn an_unknown_tool_is_a_tool_error() {
    assert!(tool_error(r#"{ "name": "crew_dance", "arguments": {} }"#).contains("unknown tool"));
}

#[test]
fn a_missing_argument_is_told_what_it_is_for() {
    for (name, arguments, saying) in [
        ("crew_order", r#"{"to":"qa","title":"  "}"#, "`title`"),
        ("crew_belay", r#"{"to":"qa"}"#, "`body` (the new order)"),
        ("crew_ask", "{}", "non-empty `body`"),
        ("crew_answer", "{}", "non-empty `body`"),
        (
            "crew_artifact",
            r#"{"reference":"main"}"#,
            "`artifact_kind` (branch, pull_request, file, or route)",
        ),
        ("crew_lane", "{}", "`path`"),
        ("crew_claim", "{}", "`task`"),
        ("crew_verdict", r#"{"pass":true}"#, "`task`"),
        ("crew_record", r#"{"key":"k"}"#, "`section`"),
        (
            "crew_record",
            r#"{"key":"k","section":"gotcha"}"#,
            "`body` (the content)",
        ),
        ("crew_redirect", "{}", "`to` role to steer"),
    ] {
        let why = call(name, arguments).unwrap_err();
        assert!(why.contains(saying), "{name}: {why}");
    }
}

#[test]
fn a_tool_call_turns_into_broker_work_under_its_id() {
    let turn = server().handle_line(
        r#"{ "jsonrpc": "2.0", "id": 9, "method": "tools/call",
             "params": { "name": "crew_send", "arguments": { "body": " hi ", "to": "qa" } } }"#,
    );
    let Turn::Tool { id, step } = turn else {
        panic!("{turn:?}")
    };
    assert_eq!(read(&id), Value::from(9));
    let Step::Act(plan) = step else {
        panic!("{step:?}")
    };
    let outcome = server().settle(plan, &Reply::Accepted);
    assert_eq!(outcome, Ok("sent to @qa".to_owned()));
    let reply = read(&tool_reply(&id, &outcome));
    assert_eq!(reply["id"], 9);
    assert_eq!(reply["result"]["isError"], false);
    assert_eq!(reply["result"]["content"][0]["text"], "sent to @qa");

    let refused = Err("the broker returned HTTP 500".to_owned());
    assert_eq!(read(&tool_reply(&id, &refused))["result"]["isError"], true);
}

#[test]
fn each_reading_tool_names_what_it_reads() {
    for (name, arguments, reading, url) in [
        ("crew_roster", "{}", Reading::Roster, "/roster"),
        ("crew_ledger", "{}", Reading::Ledger, "/ledger"),
        ("crew_gate", "{}", Reading::Gate, "/gate"),
        ("crew_board", "{}", Reading::Board, "/board"),
        (
            "crew_board",
            r#"{"section":"gotcha"}"#,
            Reading::Board,
            "/board?section=gotcha",
        ),
        ("crew_briefing", "{}", Reading::Briefing, "/briefing"),
    ] {
        match call(name, arguments).unwrap() {
            Step::Read(what, request) => {
                assert_eq!(what, reading);
                assert_eq!(request.url(""), url);
            }
            other => panic!("{other:?}"),
        }
    }
    assert_eq!(call("crew_inbox", "{}").unwrap(), Step::Inbox);
}

#[test]
fn an_acting_tool_posts_what_it_was_told() {
    let posted = |name: &str, arguments: &str| match call(name, arguments).unwrap() {
        Step::Act(Plan::Send {
            request: Request::Post { path, body },
            ..
        }) => (path, read(&body)),
        other => panic!("{other:?}"),
    };
    let (path, body) = posted("crew_claim", r#"{"task":"login"}"#);
    assert_eq!(path, "/ledger");
    assert_eq!(body["state"], "claimed");
    let (path, body) = posted(
        "crew_ask",
        r#"{"body":"which?","options":["a"," ","b",7]}"#,
    );
    assert_eq!(path, "/channels/@commander/messages");
    assert_eq!(body["options"], Value::from(vec!["a", "b"]));
    let (path, body) = posted("crew_record", r#"{"key":"k","retract":true}"#);
    assert_eq!(path, "/board");
    assert_eq!(body["retract"], true);
    let (path, body) = posted(
        "crew_order",
        r#"{"to":"qa","title":"test it","owned_paths":["tests/"]}"#,
    );
    assert_eq!(path, "/channels/@qa/messages");
    assert_eq!(body["owned_paths"], Value::from(vec!["tests/"]));
    assert!(body["task"].is_string(), "an order carries a task");
    let (path, body) = posted("crew_verdict", r#"{"task":"login","pass":true}"#);
    assert_eq!(path, "/gate/verdict");
    assert_eq!(body["failure"], "");
    assert_eq!(
        posted("crew_complete", r#"{"summary":"shipped"}"#).0,
        "/complete"
    );
    assert_eq!(posted("crew_submit", r#"{"task":"login"}"#).0, "/gate/submit");
}

#[test]
fn arguments_are_read_by_type() {
    let arguments = json::parse(r#"{"budget":4096,"bad":-1,"half":1.5,"list":"x"}"#).unwrap();
    assert_eq!(usize_arg(&arguments, "budget"), Some(4096));
    assert_eq!(usize_arg(&arguments, "bad"), None);
    assert_eq!(usize_arg(&arguments, "half"), None);
    assert_eq!(usize_arg(&arguments, "none"), None);
    assert!(str_list_arg(&arguments, "list").is_empty());
}

#[test]
fn the_inbox_tool_reads_only_what_is_new() {
    let mut server = server();
    let log = [Event {
        ts: Timestamp::now(),
        from: Sender::General,
        channel: ChannelId::new("@backend"),
        task: None,
        kind: EventKind::Message(Message {
            id: MessageId(7),
            kind: MessageKind::Note,
            body: "hello".to_owned(),
        }),
    }];
    assert_eq!(
        server.read_inbox(&log),
        "1 new message(s):\n- general on @backend (note) \
         [id 00000000-0000-0000-0000-000000000007]: hello"
    );
    assert_eq!(server.read_inbox(&log), "No new messages.");
    assert!(server.read_delivered(&log).contains("hello"));
    assert_eq!(server.broker().read_through(), 1);
}

#[test]
fn the_ledger_and_the_done_gate_read_line_by_line() {
    assert_eq!(
        render_ledger(&[]),
        "The ledger is empty; no work is claimed."
    );
    let claim = |title: &str| LedgerItem {
        task: "login".to_owned(),
        title: title.to_owned(),
        owner: "backend".to_owned(),
        state: "in_progress".to_owned(),
    };
    assert_eq!(
        render_ledger(&[claim(""), claim("the flow")]),
        "2 task(s):\n- login [in_progress] backend\n- login [in_progress] backend (the flow)"
    );

    let empty = GateSnapshot { tasks: vec![] };
    assert!(render_gate(&empty).contains("is empty"));
    let snapshot = GateSnapshot {
        tasks: vec![
            GateTask {
                task: "login".to_owned(),
                owner: "backend".to_owned(),
                verifier: Some("qa".to_owned()),
                verdict: "failed".to_owned(),
                detail: "it leaks".to_owned(),
            },
            GateTask {
                task: "docs".to_owned(),
                owner: "docs".to_owned(),
                verifier: None,
                verdict: "submitted".to_owned(),
                detail: String::new(),
            },
        ],
    };
    assert_eq!(
        render_gate(&snapshot),
        "2 task(s) under the done-gate:\n- login owned by backend [failed by qa]: it leaks\n\
         - docs owned by docs [submitted]"
    );
}

#[test]
fn the_roster_flags_who_must_pull_no_work() {
    let roster = |standing, paused| RosterSnapshot {
        standing,
        roles: vec![RoleEntry {
            role: "backend".to_owned(),
            owned_paths: vec!["api/".to_owned()],
            liveness: "idle".to_owned(),
            paused,
        }],
    };
    assert_eq!(
        render_roster(&roster(Standing::Running, false)),
        "1 role(s):\n- backend [idle] owns api/"
    );
    assert_eq!(
        render_roster(&roster(Standing::Running, true)),
        "1 role(s):\n- backend [idle] owns api/ [PAUSED: pull no new work]"
    );
    assert!(render_roster(&roster(Standing::Paused, false)).contains("(the crew is PAUSED)"));
    let down = render_roster(&roster(Standing::StoodDown, false));
    assert!(down.contains("STOOD DOWN") && down.contains("[PAUSED: pull no new work]"));
    let empty = RosterSnapshot {
        standing: Standing::default(),
        roles: vec![],
    };
    assert_eq!(render_roster(&empty), "The roster is empty.");
}

#[test]
fn the_board_and_the_briefing_say_how_much_they_hold() {
    let board = |n: usize| BoardSnapshot {
        entries: (0..n)
            .map(|i| BoardEntryView {
                key: format!("k{i}"),
                section: "decision".to_owned(),
                author: "qa".to_owned(),
                body: "yes".to_owned(),
            })
            .collect(),
    };
    assert_eq!(render_board(&board(0)), "The situation board is empty.");
    assert_eq!(
        render_board(&board(1)),
        "1 board entry:\n- [decision] k0 (by qa): yes"
    );
    assert!(render_board(&board(2)).starts_with("2 board entries:\n"));

    let packet = |capped| BriefingPacket {
        text: "catch up".to_owned(),
        size: 8,
        budget: 4096,
        capped,
    };
    assert_eq!(
        render_briefing(&packet(false)),
        "catch up\n\n[briefing: 8 of 4096 bytes]"
    );
    assert!(render_briefing(&packet(true)).contains("[briefing capped to 8 of 4096 bytes;"));
}

#[test]
fn json_is_read_and_written_as_text() {
    let value = json::parse(r#" {"b":[1,true,null],"a":"x\n\"y\""} "#).unwrap();
    assert_eq!(json::print(&value), r#"{"a":"x\n\"y\"","b":[1,true,null]}"#);
    assert_eq!(value.str_at("a"), Some("x\n\"y\""));
    assert!(json::parse("{,}").is_none());
    assert_eq!(
        json::parse("18446744073709551615").unwrap().as_u64(),
        Some(u64::MAX)
    );
    let copy = value.copy();
    assert_eq!(copy, value);
    // A plain integer is kept as it is, to either end of its range.
    for number in ["0", "-1", "18446744073709551615", "-9223372036854775808"] {
        assert_eq!(json::print(&Json::Number(number.to_owned())), number);
    }
}
