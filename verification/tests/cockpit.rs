//! The live cockpit: folding the stream, the keys, and what the screen shows.
use crew::cockpit::{
    channel_involves, describe_activity, message_summary, Cockpit, RosterRoleSeed, RosterSeed,
    StatsRoleSeed, StatsSeed, Status, FEED_CAP,
};
use crew::event::{
    Activity, ArtifactKind, Event, EventKind, Lifecycle, Message, MessageKind, TelemetryEvent,
};
use crew::id::{ChannelId, MessageId, RoleId, Sender};
use crew::keys::{handle_key, Flow, Key, KeyPress};
use crew::screen::{
    detail, elide_cell, feed_list, footer, header, roles_table, visible_from, TITLE,
};
use crew::time::Timestamp;

/// An event on `channel` from `from` carrying `kind`.
fn event(from: Sender, channel: &str, kind: EventKind) -> Event {
    Event {
        ts: Timestamp::now(),
        from,
        channel: ChannelId::new(channel),
        task: None,
        kind,
    }
}

fn role(name: &str) -> Sender {
    Sender::Role(RoleId::new(name))
}

fn message(kind: MessageKind, body: &str) -> EventKind {
    EventKind::Message(Message {
        id: MessageId::new(),
        kind,
        body: body.to_owned(),
    })
}

fn roster() -> RosterSeed {
    RosterSeed {
        standing: "running".to_owned(),
        roles: vec![
            RosterRoleSeed {
                role: RoleId::new("commander"),
                liveness: "working".to_owned(),
                paused: false,
                owned_paths: vec![],
            },
            RosterRoleSeed {
                role: RoleId::new("backend"),
                liveness: "idle".to_owned(),
                paused: false,
                owned_paths: vec!["api/".to_owned()],
            },
        ],
    }
}

fn stats(tokens: u64, cost_micro_usd: u64) -> StatsSeed {
    StatsSeed {
        roles: vec![StatsRoleSeed {
            role: RoleId::new("backend"),
            tokens,
            cost_micro_usd,
            active_secs: 42,
        }],
    }
}

fn seeded() -> Cockpit {
    let mut cockpit = Cockpit::default();
    cockpit.seed_roster(roster());
    cockpit.seed_stats(stats(1000, 30000));
    cockpit
}

fn press(code: Key) -> KeyPress {
    KeyPress {
        code,
        control: false,
    }
}

#[test]
fn seeding_reflects_the_roster_and_stats() {
    let cockpit = seeded();
    assert_eq!(cockpit.role_count(), 2, "both roles are tracked");
    assert_eq!(cockpit.live_count(), 2, "working + idle are live");
    assert_eq!(cockpit.standing(), "running");

    let backend = cockpit
        .roles()
        .into_iter()
        .find(|row| row.role == RoleId::new("backend"))
        .unwrap();
    assert_eq!(backend.status, Status::Idle);
    assert_eq!(backend.tokens, 1000, "stats seeded the tokens");
    assert_eq!(backend.cost_micro_usd, 30000);
    assert_eq!(backend.owned_paths, ["api/"]);
    assert_eq!(cockpit.aggregate(), (1000, 30000));
}

#[test]
fn a_lifecycle_event_moves_a_role_status_and_the_live_count() {
    let mut cockpit = seeded();
    // backend goes to working, then dies.
    cockpit.apply(&event(
        role("backend"),
        "all-units",
        EventKind::Lifecycle(Lifecycle::Started),
    ));
    assert_eq!(cockpit.roles()[0].role, RoleId::new("backend"));
    let status_of = |cockpit: &Cockpit, name: &str| {
        cockpit
            .roles()
            .into_iter()
            .find(|row| row.role == RoleId::new(name))
            .unwrap()
            .status
    };
    assert_eq!(status_of(&cockpit, "backend"), Status::Working);
    assert_eq!(cockpit.live_count(), 2);

    cockpit.apply(&event(
        role("backend"),
        "all-units",
        EventKind::Lifecycle(Lifecycle::Died),
    ));
    assert_eq!(status_of(&cockpit, "backend"), Status::Dead);
    assert_eq!(cockpit.live_count(), 1, "a dead role is not live");
}

#[test]
fn a_role_first_seen_on_the_stream_is_added() {
    let mut cockpit = seeded();
    cockpit.apply(&event(
        role("scout"),
        "all-units",
        EventKind::Lifecycle(Lifecycle::Started),
    ));
    assert_eq!(
        cockpit.role_count(),
        3,
        "a role that registers after boot appears"
    );
    assert!(cockpit
        .roles()
        .iter()
        .any(|r| r.role == RoleId::new("scout")));
}

#[test]
fn pause_and_resume_toggle_the_flag_without_dropping_the_status() {
    let mut cockpit = seeded();
    cockpit.apply(&event(
        role("backend"),
        "all-units",
        EventKind::Lifecycle(Lifecycle::Paused),
    ));
    {
        let rows = cockpit.roles();
        let backend = rows
            .iter()
            .find(|r| r.role == RoleId::new("backend"))
            .unwrap();
        assert!(backend.paused, "paused sets the flag");
        assert_eq!(
            backend.status,
            Status::Idle,
            "the status is unchanged by a pause"
        );
    }

    cockpit.apply(&event(
        role("backend"),
        "all-units",
        EventKind::Lifecycle(Lifecycle::Resumed),
    ));
    let rows = cockpit.roles();
    let backend = rows
        .iter()
        .find(|r| r.role == RoleId::new("backend"))
        .unwrap();
    assert!(!backend.paused, "resumed clears the flag");
}

#[test]
fn an_activity_event_sets_the_current_action_and_the_drill_in_log() {
    let mut cockpit = seeded();
    cockpit.apply(&event(
        role("backend"),
        "@backend",
        EventKind::Activity(Activity::ToolCall {
            tool: "Read".to_owned(),
        }),
    ));
    cockpit.apply(&event(
        role("backend"),
        "@backend",
        EventKind::Activity(Activity::TurnEnded),
    ));

    {
        let rows = cockpit.roles();
        let backend = rows
            .iter()
            .find(|r| r.role == RoleId::new("backend"))
            .unwrap();
        assert_eq!(
            backend.action, "turn ended",
            "the latest activity is the current action"
        );
    }

    // Select backend and drill in; its log carries both activities, in order.
    while cockpit.selected_role().map(|r| r.role.clone()) != Some(RoleId::new("backend")) {
        cockpit.select_next();
    }
    cockpit.toggle_detail();
    assert!(cockpit.in_detail());
    assert_eq!(cockpit.detail_activity(), ["tool: Read", "turn ended"]);
}

#[test]
fn a_telemetry_event_accumulates_tokens_and_cost() {
    let mut cockpit = seeded();
    cockpit.apply(&event(
        role("backend"),
        "all-units",
        EventKind::Telemetry(TelemetryEvent {
            role: RoleId::new("backend"),
            tokens: 500,
            cost_micro_usd: 15000,
        }),
    ));
    let rows = cockpit.roles();
    let backend = rows
        .iter()
        .find(|r| r.role == RoleId::new("backend"))
        .unwrap();
    assert_eq!(
        backend.tokens, 1500,
        "live telemetry adds to the seeded 1000"
    );
    assert_eq!(backend.cost_micro_usd, 45000);
    assert_eq!(cockpit.aggregate(), (1500, 45000));
}

#[test]
fn a_message_event_lands_on_the_feed_and_is_filterable() {
    let mut cockpit = seeded();
    cockpit.apply(&event(
        role("commander"),
        "@backend",
        message(
            MessageKind::Order {
                title: "build login".to_owned(),
                scope: String::new(),
                owned_paths: vec![],
                acceptance: String::new(),
            },
            "",
        ),
    ));
    cockpit.apply(&event(
        role("backend"),
        "@commander",
        message(MessageKind::Status, "on it"),
    ));
    cockpit.apply(&event(
        Sender::General,
        "all-units",
        message(MessageKind::Note, "all hands"),
    ));

    {
        let feed = cockpit.feed();
        assert_eq!(feed.len(), 3, "every message is on the feed");
        let first = feed[0];
        assert_eq!(first.from, "commander");
        assert_eq!(first.channel, "@backend");
        assert_eq!(first.kind, "order");
        assert_eq!(first.summary, "build login");
    }

    // Filter to backend: its own status message and the order addressed to it.
    assert_eq!(cockpit.selected_role().unwrap().role, RoleId::new("backend"));
    cockpit.toggle_role_filter();
    {
        let backend_feed = cockpit.feed();
        assert_eq!(
            backend_feed.len(),
            2,
            "the order to @backend and backend's own message"
        );
        assert!(backend_feed
            .iter()
            .all(|line| line.from == "backend" || line.channel == "@backend"));
    }

    // Filter to a channel: only lines on it.
    cockpit.clear_filter();
    while cockpit.filter_label() != "channel:all-units" {
        cockpit.cycle_channel_filter();
    }
    assert_eq!(cockpit.feed().len(), 1);
    assert_eq!(cockpit.feed()[0].summary, "all hands");
}

#[test]
fn the_feed_is_bounded() {
    let mut cockpit = seeded();
    for n in 0..(FEED_CAP + 50) {
        cockpit.apply(&event(
            role("backend"),
            "all-units",
            message(MessageKind::Note, &format!("note {n}")),
        ));
    }
    assert_eq!(
        cockpit.feed().len(),
        FEED_CAP,
        "the feed never grows past its cap"
    );
    assert_eq!(
        cockpit.feed().last().unwrap().summary,
        format!("note {}", FEED_CAP + 49),
        "the newest message is kept",
    );
}

#[test]
fn selection_wraps_and_the_role_filter_toggles() {
    let mut cockpit = seeded(); // commander, backend (sorted)
    assert_eq!(
        cockpit.selected_role().unwrap().role,
        RoleId::new("backend"),
        "backend sorts first"
    );
    cockpit.select_next();
    assert_eq!(
        cockpit.selected_role().unwrap().role,
        RoleId::new("commander")
    );
    cockpit.select_next();
    assert_eq!(
        cockpit.selected_role().unwrap().role,
        RoleId::new("backend"),
        "selection wraps"
    );

    // Toggling the role filter targets the selected role, then clears.
    cockpit.toggle_role_filter();
    assert_eq!(cockpit.filter_label(), "role:backend");
    cockpit.toggle_role_filter();
    assert_eq!(cockpit.filter_label(), "all");
}

#[test]
fn the_channel_filter_cycles_through_the_feed_channels() {
    let mut cockpit = seeded();
    cockpit.apply(&event(
        role("backend"),
        "@commander",
        message(MessageKind::Status, "a"),
    ));
    cockpit.apply(&event(
        role("commander"),
        "all-units",
        message(MessageKind::Note, "b"),
    ));
    // Channels seen, sorted: "@commander", "all-units".
    cockpit.cycle_channel_filter();
    assert_eq!(cockpit.filter_label(), "channel:@commander");
    cockpit.cycle_channel_filter();
    assert_eq!(cockpit.filter_label(), "channel:all-units");
    cockpit.cycle_channel_filter();
    assert_eq!(
        cockpit.filter_label(),
        "all",
        "cycling past the last channel clears the filter"
    );
}

#[test]
fn a_non_cockpit_event_kind_is_ignored() {
    let mut cockpit = seeded();
    let before = cockpit.feed().len();
    // An artifact message still lands (it is a message), but a board event does
    // not.
    cockpit.apply(&event(
        role("backend"),
        "@commander",
        message(
            MessageKind::Artifact {
                reference: "pr/8".to_owned(),
                artifact_kind: ArtifactKind::PullRequest,
            },
            "",
        ),
    ));
    assert_eq!(cockpit.feed().len(), before + 1);
}

#[test]
fn every_summary_and_action_is_one_short_line() {
    let order = |title: &str, body: &str| Message {
        id: MessageId::new(),
        kind: MessageKind::Order {
            title: title.to_owned(),
            scope: String::new(),
            owned_paths: vec![],
            acceptance: String::new(),
        },
        body: body.to_owned(),
    };
    assert_eq!(message_summary(&order("ship\n it ", " ")), "ship it");
    assert_eq!(message_summary(&order("ship", "now\nplease")), "ship: now please");
    assert_eq!(message_summary(&order("", " only\tthe body ")), "only the body");

    let long = "x".repeat(300);
    let cut = format!("{}\u{2026}", "x".repeat(200));
    assert_eq!(message_summary(&order(&long, "")), cut);
    assert_eq!(message_summary(&order(&"y".repeat(200), "")), "y".repeat(200));

    // One short line is shown as it is written.
    assert_eq!(message_summary(&order("a  b ", "")), "a  b ");
    let tool = describe_activity(&Activity::ToolCall {
        tool: "two  blanks".to_owned(),
    });
    assert_eq!(tool, "tool: two  blanks");
    let raw = describe_activity(&Activity::Other {
        raw: "a\tb".to_owned(),
    });
    assert_eq!(raw, "(a\tb)");

    let tool = describe_activity(&Activity::ToolCall { tool: long.clone() });
    assert_eq!(tool.chars().count(), 201);
    assert!(tool.starts_with("tool: xxx") && tool.ends_with('\u{2026}'));
    let other = describe_activity(&Activity::Other {
        raw: "a\nb".to_owned(),
    });
    assert_eq!(other, "(a b)");
    let other = describe_activity(&Activity::Other { raw: long });
    assert_eq!(other.chars().count(), 201);
}

#[test]
fn a_drill_in_needs_a_role() {
    let mut cockpit = Cockpit::default();
    cockpit.toggle_detail();
    assert!(!cockpit.in_detail());
    assert!(!cockpit.leave_detail(), "there was nothing to leave");
}

#[test]
fn a_pair_channel_involves_both_members() {
    assert!(channel_involves("backend+frontend", "frontend"));
    assert!(channel_involves("@backend", "backend"));
    assert!(!channel_involves("all-units", "backend"));
}

/// Everything the overview shows, as one text.
fn overview(cockpit: &Cockpit) -> String {
    let mut out = format!("{TITLE}{}\n", header(cockpit));
    for row in roles_table(cockpit) {
        out.push_str(&format!(
            "{} {} {} {} {} {}\n",
            row.role,
            row.status.label(),
            row.action,
            row.tokens,
            row.cost,
            row.selected
        ));
    }
    for line in feed_list(cockpit, 20) {
        out.push_str(&format!("{line:?}\n"));
    }
    out.push_str(footer(cockpit));
    out
}

#[test]
fn the_overview_shows_the_header_roles_and_feed() {
    let mut cockpit = Cockpit::default();
    cockpit.seed_roster(roster());
    cockpit.seed_stats(stats(1500, 45000));
    cockpit.apply(&event(
        role("commander"),
        "@backend",
        message(MessageKind::Note, "start on the login endpoint"),
    ));

    let text = overview(&cockpit);
    // The header shows the live count (working + idle) and the aggregate spend.
    assert!(
        text.contains("2 live / 2 roles"),
        "header shows live/total: {text}"
    );
    assert!(text.contains("running"), "header shows the standing");
    assert!(text.contains("$0.04"), "header shows the aggregate cost");
    // The roles table lists each role with its status.
    assert!(text.contains("commander"), "the commander is listed");
    assert!(text.contains("backend"), "backend is listed");
    assert!(
        text.contains("working") && text.contains("idle"),
        "statuses render"
    );
    assert!(text.contains("1500"), "backend's tokens render");
    // The feed shows the message.
    assert!(
        text.contains("start on the login endpoint"),
        "the message flow renders: {text}",
    );
    // The footer shows the key hints.
    assert!(
        text.contains("drill-in") && text.contains("quit"),
        "the key hints render"
    );
}

#[test]
fn drilling_in_shows_a_role_activity_detail() {
    let mut cockpit = Cockpit::default();
    cockpit.seed_roster(roster());
    cockpit.apply(&event(
        role("backend"),
        "@backend",
        EventKind::Activity(Activity::ToolCall {
            tool: "Read".to_owned(),
        }),
    ));
    cockpit.apply(&event(
        role("backend"),
        "@backend",
        EventKind::Activity(Activity::Output {
            text: "editing the router".to_owned(),
        }),
    ));

    // Select backend and drill in.
    while cockpit.selected_role().map(|r| r.role.clone()) != Some(RoleId::new("backend")) {
        cockpit.select_next();
    }
    cockpit.toggle_detail();

    let shown = detail(&cockpit, 20).expect("a role is selected");
    let text = format!("{shown:?} {}", footer(&cockpit));
    assert!(
        text.contains("activity"),
        "the detail pane is titled activity"
    );
    assert!(text.contains("tool: Read"), "the role's tool call is shown");
    assert!(
        text.contains("editing the router"),
        "the role's output is shown"
    );
    assert!(
        text.contains("lane: api/"),
        "the detail shows the role's lane"
    );
    assert!(
        text.contains("back"),
        "the detail footer shows how to go back"
    );
}

#[test]
fn an_empty_crew_renders_without_panicking() {
    // A cockpit with no roles or feed still shows its chrome.
    let text = overview(&Cockpit::default());
    assert!(
        text.contains("crew top"),
        "the header renders for an empty crew"
    );
    assert!(text.contains("0 live / 0 roles"));
    assert!(detail(&Cockpit::default(), 20).is_none());
}

#[test]
fn a_long_cell_is_cut_with_an_ellipsis() {
    assert_eq!(elide_cell("abc", 3), "abc");
    assert_eq!(elide_cell("abcd", 3), "ab\u{2026}");
    assert_eq!(elide_cell("abcd", 0), "\u{2026}");
    assert_eq!(visible_from(3, 10), 0);
}

#[test]
fn q_and_ctrl_c_quit() {
    let mut cockpit = seeded();
    assert_eq!(handle_key(&mut cockpit, press(Key::Char('q'))), Flow::Quit);
    assert_eq!(
        handle_key(
            &mut cockpit,
            KeyPress {
                code: Key::Char('c'),
                control: true
            },
        ),
        Flow::Quit,
    );
}

#[test]
fn navigation_and_drill_in_keys_drive_the_cockpit() {
    let mut cockpit = seeded();
    // Down moves the selection off the first role and back around.
    assert_eq!(
        cockpit.selected_role().unwrap().role,
        RoleId::new("backend")
    );
    assert_eq!(handle_key(&mut cockpit, press(Key::Down)), Flow::Continue);
    assert_eq!(
        cockpit.selected_role().unwrap().role,
        RoleId::new("commander")
    );
    assert_eq!(handle_key(&mut cockpit, press(Key::Up)), Flow::Continue);
    assert_eq!(
        cockpit.selected_role().unwrap().role,
        RoleId::new("backend")
    );

    // Enter drills in; Esc backs out (not quit); Esc again from the overview quits.
    handle_key(&mut cockpit, press(Key::Enter));
    assert!(cockpit.in_detail(), "Enter drills in");
    assert_eq!(handle_key(&mut cockpit, press(Key::Esc)), Flow::Continue);
    assert!(!cockpit.in_detail(), "Esc backs out of the detail");
    assert_eq!(
        handle_key(&mut cockpit, press(Key::Esc)),
        Flow::Quit,
        "Esc from the overview quits",
    );
}

#[test]
fn filter_keys_toggle_and_clear() {
    let mut cockpit = seeded();
    handle_key(&mut cockpit, press(Key::Char('f')));
    assert_eq!(
        cockpit.filter_label(),
        "role:backend",
        "f filters to the selected role"
    );
    handle_key(&mut cockpit, press(Key::Char('x')));
    assert_eq!(cockpit.filter_label(), "all", "x clears the filter");
}
