//! The cockpit state: a model of the crew, folded from the roster and the event
//! stream.
//!
//! [`Cockpit`] holds everything a live view of the crew shows: each role with
//! its status, current action, tokens, and cost; the recent message flow; and
//! the interaction state (the selected role, the drill-in, the feed filter). It
//! is seeded from the roster and stats snapshots and advanced one event at a
//! time.
use std::collections::VecDeque;

use vstd::prelude::*;

use crate::budget;
use crate::event;
use crate::event::{
    message_kind_label, sender_label, Activity, Event, EventKind, Lifecycle, Message, MessageKind,
};
use crate::id::{RoleId, Sender};
use crate::rolemap;
use crate::rolemap::RoleMap;
use crate::text;

verus! {

/// The most message-flow lines the cockpit keeps.
pub const FEED_CAP: usize = 500;

/// The most recent activity lines the cockpit keeps per role.
pub const ACTIVITY_CAP: usize = 200;

/// The most characters a rendered summary or action carries before it is
/// elided.
pub const MAX_SUMMARY: usize = 200;

/// A role's live status in the cockpit.
#[derive(Debug, Clone, Copy, PartialEq, Eq, Structural)]
pub enum Status {
    /// Up and working.
    Working,
    /// Registered but idle.
    Idle,
    /// Cleanly stood down.
    Stopped,
    /// Gave up after repeated crashes.
    Dead,
}

impl Status {
    /// The status a liveness label means; an unknown one is stopped, so a role
    /// is never shown as live on a guess.
    pub open spec fn of_liveness(label: Seq<char>) -> Status {
        if label == "working"@ {
            Status::Working
        } else if label == "idle"@ {
            Status::Idle
        } else if label == "dead"@ {
            Status::Dead
        } else {
            Status::Stopped
        }
    }

    /// The status a transition moves a role to, if it changes the liveness.
    pub open spec fn of_lifecycle(lifecycle: Lifecycle) -> Option<Status> {
        match lifecycle {
            Lifecycle::Started | Lifecycle::Restarted | Lifecycle::Recovered => Some(
                Status::Working,
            ),
            Lifecycle::Idle => Some(Status::Idle),
            Lifecycle::Stopped => Some(Status::Stopped),
            Lifecycle::Died => Some(Status::Dead),
            Lifecycle::Paused | Lifecycle::Resumed | Lifecycle::StoodDown
            | Lifecycle::MissionComplete => None,
        }
    }

    /// Whether a role in this status is up: working or idle.
    pub open spec fn live(self) -> bool {
        self == Status::Working || self == Status::Idle
    }

    /// The short label shown in the roles table.
    pub open spec fn label_text(self) -> Seq<char> {
        match self {
            Status::Working => "working"@,
            Status::Idle => "idle"@,
            Status::Stopped => "stopped"@,
            Status::Dead => "dead"@,
        }
    }

    /// The status a roster's liveness label means.
    pub fn from_liveness(label: &str) -> (r: Self)
        ensures
            r == Status::of_liveness(label@),
    {
        if text::same(label, "working") {
            Status::Working
        } else if text::same(label, "idle") {
            Status::Idle
        } else if text::same(label, "dead") {
            Status::Dead
        } else {
            Status::Stopped
        }
    }

    /// The status a `lifecycle` transition moves a role to, if it changes the
    /// liveness.
    pub fn from_lifecycle(lifecycle: Lifecycle) -> (r: Option<Self>)
        ensures
            r == Status::of_lifecycle(lifecycle),
    {
        match lifecycle {
            Lifecycle::Started | Lifecycle::Restarted | Lifecycle::Recovered => Some(
                Status::Working,
            ),
            Lifecycle::Idle => Some(Status::Idle),
            Lifecycle::Stopped => Some(Status::Stopped),
            Lifecycle::Died => Some(Status::Dead),
            Lifecycle::Paused | Lifecycle::Resumed | Lifecycle::StoodDown
            | Lifecycle::MissionComplete => None,
        }
    }

    /// Whether a role in this status counts toward the live agent count.
    pub fn is_live(self) -> (r: bool)
        ensures
            r == self.live(),
    {
        match self {
            Status::Working | Status::Idle => true,
            Status::Stopped | Status::Dead => false,
        }
    }

    /// The short label shown in the roles table.
    pub fn label(self) -> (r: &'static str)
        ensures
            r@ == self.label_text(),
    {
        match self {
            Status::Working => "working",
            Status::Idle => "idle",
            Status::Stopped => "stopped",
            Status::Dead => "dead",
        }
    }
}

/// One role's row in the cockpit: its status, current action, and spend.
#[derive(Debug)]
pub struct RoleRow {
    /// The role this row is for.
    pub role: RoleId,
    /// Its live status.
    pub status: Status,
    /// Whether the role is individually paused.
    pub paused: bool,
    /// What the role is doing now; empty until an activity lands.
    pub action: String,
    /// Cumulative tokens spent.
    pub tokens: u64,
    /// Cumulative cost in millionths of a dollar.
    pub cost_micro_usd: u64,
    /// Working time in whole seconds, as of the last snapshot.
    pub active_secs: u64,
    /// The paths the role owns, its lane.
    pub owned_paths: Vec<String>,
}

/// A row by what it holds.
#[verifier::ext_equal]
pub struct RowView {
    pub role: Seq<char>,
    pub status: Status,
    pub paused: bool,
    pub action: Seq<char>,
    pub tokens: u64,
    pub cost_micro_usd: u64,
    pub active_secs: u64,
    pub owned_paths: Seq<Seq<char>>,
}

impl View for RoleRow {
    type V = RowView;

    open spec fn view(&self) -> RowView {
        RowView {
            role: self.role@,
            status: self.status,
            paused: self.paused,
            action: self.action@,
            tokens: self.tokens,
            cost_micro_usd: self.cost_micro_usd,
            active_secs: self.active_secs,
            owned_paths: text::texts(self.owned_paths@),
        }
    }
}

impl RowView {
    /// A fresh row for a role first seen in `status`.
    pub open spec fn fresh(role: Seq<char>, status: Status) -> RowView {
        RowView {
            role,
            status,
            paused: false,
            action: Seq::empty(),
            tokens: 0,
            cost_micro_usd: 0,
            active_secs: 0,
            owned_paths: Seq::empty(),
        }
    }
}

impl RoleRow {
    /// A fresh row for a role first seen in `status`.
    pub fn new(role: RoleId, status: Status) -> (r: Self)
        ensures
            r@ == RowView::fresh(role@, status),
    {
        let r = RoleRow {
            role,
            status,
            paused: false,
            action: String::new(),
            tokens: 0,
            cost_micro_usd: 0,
            active_secs: 0,
            owned_paths: Vec::new(),
        };
        assert(r@ =~= RowView::fresh(role@, status));
        r
    }
}

/// One line in the message feed: who sent it, where, its kind, and a summary.
#[derive(Debug, PartialEq, Eq)]
pub struct FeedLine {
    /// Who sent it: a role's id, or `general`.
    pub from: String,
    /// The channel it was sent on.
    pub channel: String,
    /// The message kind.
    pub kind: &'static str,
    /// A one-line summary of the message.
    pub summary: String,
}

/// A feed line by what it holds.
#[verifier::ext_equal]
pub struct LineView {
    pub from: Seq<char>,
    pub channel: Seq<char>,
    pub kind: Seq<char>,
    pub summary: Seq<char>,
}

impl View for FeedLine {
    type V = LineView;

    open spec fn view(&self) -> LineView {
        LineView {
            from: self.from@,
            channel: self.channel@,
            kind: self.kind@,
            summary: self.summary@,
        }
    }
}

/// The filter narrowing the message feed.
#[derive(Debug, PartialEq, Eq)]
pub enum Filter {
    /// The whole feed.
    All,
    /// Only lines involving the role: sent by it, or on its own channel.
    Role(RoleId),
    /// Only lines on the channel.
    Channel(String),
}

/// A filter by what it holds.
pub enum FilterView {
    All,
    Role(Seq<char>),
    Channel(Seq<char>),
}

impl View for Filter {
    type V = FilterView;

    open spec fn view(&self) -> FilterView {
        match self {
            Filter::All => FilterView::All,
            Filter::Role(role) => FilterView::Role(role@),
            Filter::Channel(channel) => FilterView::Channel(channel@),
        }
    }
}

/// The roster snapshot the cockpit seeds from.
#[derive(Debug)]
pub struct RosterSeed {
    /// The crew's control standing: `running`, `paused`, or `stood_down`.
    pub standing: String,
    /// The registered roles.
    pub roles: Vec<RosterRoleSeed>,
}

/// One role in the roster snapshot.
#[derive(Debug)]
pub struct RosterRoleSeed {
    /// The role's id.
    pub role: RoleId,
    /// The role's current liveness.
    pub liveness: String,
    /// Whether the role is individually paused.
    pub paused: bool,
    /// The paths the role owns.
    pub owned_paths: Vec<String>,
}

/// The stats snapshot the cockpit seeds tokens and cost from.
#[derive(Debug)]
pub struct StatsSeed {
    /// The per-role rollup.
    pub roles: Vec<StatsRoleSeed>,
}

/// One role's tokens, cost, and time in the stats snapshot.
#[derive(Debug)]
pub struct StatsRoleSeed {
    /// The role.
    pub role: RoleId,
    /// Cumulative tokens spent.
    pub tokens: u64,
    /// Cumulative cost in millionths of a dollar.
    pub cost_micro_usd: u64,
    /// Working time in whole seconds.
    pub active_secs: u64,
}

/// The whole cockpit state: the folded crew plus the interaction state.
#[derive(Debug)]
pub struct Cockpit {
    roles: RoleMap<RoleRow>,
    feed: VecDeque<FeedLine>,
    activity: RoleMap<VecDeque<String>>,
    standing: String,
    selected: usize,
    detail: bool,
    filter: Filter,
}

/// The cockpit by what it holds.
#[verifier::ext_equal]
pub struct CockpitView {
    /// Every role's row.
    pub rows: Map<Seq<char>, RowView>,
    /// The recent message flow, oldest first.
    pub feed: Seq<LineView>,
    /// Each role's recent activity, oldest first.
    pub logs: Map<Seq<char>, Seq<Seq<char>>>,
    /// The crew's control standing.
    pub standing: Seq<char>,
    /// The selected position, before it is held to the rows there are.
    pub selected: nat,
    /// Whether the drill-in was asked for.
    pub detail: bool,
    /// The active feed filter.
    pub filter: FilterView,
}

/// The last `cap` items of a list.
pub open spec fn last_of<T>(s: Seq<T>, cap: int) -> Seq<T> {
    if s.len() > cap {
        s.skip(s.len() - cap)
    } else {
        s
    }
}

/// Text on one tidy line: white space collapsed, and capped with an ellipsis.
pub open spec fn tidied(s: Seq<char>) -> Seq<char> {
    text::clipped(text::joined(text::words(s), " "@), MAX_SUMMARY as int, "\u{2026}"@)
}

/// Whether a text is one line of no more than [`MAX_SUMMARY`] characters.
pub open spec fn short_line(s: Seq<char>) -> bool {
    s.len() <= MAX_SUMMARY && !s.contains('\n') && !s.contains('\r')
}

/// Text on one line: as it is written where it is one short line, else tidied.
pub open spec fn on_one_line(s: Seq<char>) -> Seq<char> {
    if short_line(s) {
        s
    } else {
        tidied(s)
    }
}

/// A one-line description of an activity, elided where it is long.
pub open spec fn action_text(activity: Activity) -> Seq<char> {
    match activity {
        Activity::TurnStarted => "turn started"@,
        Activity::TurnEnded => "turn ended"@,
        Activity::ToolCall { tool } => on_one_line("tool: "@ + tool@),
        Activity::Output { text } => tidied(text@),
        Activity::Other { raw } => on_one_line("("@ + raw@ + ")"@),
    }
}

/// A one-line summary of a message, elided where it is long: an order's title
/// first, else its body.
pub open spec fn summary_text(message: Message) -> Seq<char> {
    let body = text::trimmed(message.body@);
    match message.kind {
        MessageKind::Order { title, .. } if title@.len() > 0 => if body.len() == 0 {
            on_one_line(title@)
        } else {
            tidied(title@ + ": "@ + body)
        },
        _ => tidied(body),
    }
}

/// Whether a channel involves `role`: its direct channel, or a pair it belongs
/// to.
pub open spec fn involves(channel: Seq<char>, role: Seq<char>) -> bool {
    ||| channel == seq!['@'] + role
    ||| text::split_at_first(channel, '+') matches Some((first, second)) && (first == role || second
        == role)
}

/// Whether a filter shows a line.
pub open spec fn shows(filter: FilterView, line: LineView) -> bool {
    match filter {
        FilterView::All => true,
        FilterView::Role(role) => line.from == role || involves(line.channel, role),
        FilterView::Channel(channel) => line.channel == channel,
    }
}

impl CockpitView {
    /// The row of `role`, or a fresh one in `status` where there is none.
    pub open spec fn row_or(self, role: Seq<char>, status: Status) -> RowView {
        if self.rows.dom().contains(role) {
            self.rows[role]
        } else {
            RowView::fresh(role, status)
        }
    }

    /// The cockpit with a row set.
    pub open spec fn with_row(self, row: RowView) -> CockpitView {
        CockpitView { rows: self.rows.insert(row.role, row), ..self }
    }

    /// The cockpit once a role of the roster is seeded.
    pub open spec fn roster_role(self, seed: RosterRoleSeed) -> CockpitView {
        self.with_row(
            RowView {
                status: Status::of_liveness(seed.liveness@),
                paused: seed.paused,
                owned_paths: text::texts(seed.owned_paths@),
                ..self.row_or(seed.role@, Status::Stopped)
            },
        )
    }

    /// The cockpit once the roster's roles are seeded in order.
    pub open spec fn roster_roles(self, seeds: Seq<RosterRoleSeed>) -> CockpitView
        decreases seeds.len(),
    {
        if seeds.len() == 0 {
            self
        } else {
            self.roster_roles(seeds.drop_last()).roster_role(seeds.last())
        }
    }

    /// The cockpit once a roster snapshot is seeded.
    pub open spec fn with_roster(self, seed: RosterSeed) -> CockpitView {
        CockpitView {
            standing: if seed.standing@.len() == 0 {
                self.standing
            } else {
                seed.standing@
            },
            ..self
        }.roster_roles(seed.roles@)
    }

    /// The cockpit once a role's stats are seeded.
    pub open spec fn stats_role(self, seed: StatsRoleSeed) -> CockpitView {
        self.with_row(
            RowView {
                tokens: seed.tokens,
                cost_micro_usd: seed.cost_micro_usd,
                active_secs: seed.active_secs,
                ..self.row_or(seed.role@, Status::Stopped)
            },
        )
    }

    /// The cockpit once the stats are seeded in order.
    pub open spec fn with_stats(self, seeds: Seq<StatsRoleSeed>) -> CockpitView
        decreases seeds.len(),
    {
        if seeds.len() == 0 {
            self
        } else {
            self.with_stats(seeds.drop_last()).stats_role(seeds.last())
        }
    }

    /// The cockpit once a lifecycle event is folded in.
    pub open spec fn with_lifecycle(self, from: Sender, lifecycle: Lifecycle) -> CockpitView {
        let moved = match from {
            Sender::Role(role) => {
                let row = self.row_or(role@, Status::Working);
                self.with_row(
                    RowView {
                        status: match Status::of_lifecycle(lifecycle) {
                            Some(status) => status,
                            None => row.status,
                        },
                        paused: if lifecycle == Lifecycle::Paused {
                            true
                        } else if lifecycle == Lifecycle::Resumed {
                            false
                        } else {
                            row.paused
                        },
                        ..row
                    },
                )
            },
            Sender::General => self,
        };
        CockpitView {
            standing: if lifecycle == Lifecycle::StoodDown {
                "stood down"@
            } else if lifecycle == Lifecycle::MissionComplete {
                "mission complete"@
            } else {
                self.standing
            },
            ..moved
        }
    }

    /// The recent activity of `role`.
    pub open spec fn log_of(self, role: Seq<char>) -> Seq<Seq<char>> {
        if self.logs.dom().contains(role) {
            self.logs[role]
        } else {
            Seq::empty()
        }
    }

    /// The cockpit once an activity event is folded in.
    pub open spec fn with_activity(self, from: Sender, activity: Activity) -> CockpitView {
        match from {
            Sender::Role(role) => {
                let action = action_text(activity);
                CockpitView {
                    logs: self.logs.insert(
                        role@,
                        last_of(self.log_of(role@).push(action), ACTIVITY_CAP as int),
                    ),
                    ..self.with_row(RowView { action, ..self.row_or(role@, Status::Working) })
                }
            },
            Sender::General => self,
        }
    }

    /// The cockpit once a usage report is folded in.
    pub open spec fn with_usage(self, role: Seq<char>, tokens: u64, cost: u64) -> CockpitView {
        let row = self.row_or(role, Status::Working);
        self.with_row(
            RowView {
                tokens: budget::capped_sum(row.tokens, tokens),
                cost_micro_usd: budget::capped_sum(row.cost_micro_usd, cost),
                ..row
            },
        )
    }

    /// The cockpit once a message lands on the feed.
    pub open spec fn with_message(self, e: Event, message: Message) -> CockpitView {
        CockpitView {
            feed: last_of(
                self.feed.push(
                    LineView {
                        from: event::sender_text(e.from),
                        channel: e.channel@,
                        kind: message.kind.label_text(),
                        summary: summary_text(message),
                    },
                ),
                FEED_CAP as int,
            ),
            ..self
        }
    }

    /// The cockpit once an event is folded in.
    pub open spec fn folded(self, e: Event) -> CockpitView {
        match e.kind {
            EventKind::Lifecycle(lifecycle) => self.with_lifecycle(e.from, lifecycle),
            EventKind::Activity(activity) => self.with_activity(e.from, activity),
            EventKind::Telemetry(telemetry) => self.with_usage(
                telemetry.role@,
                telemetry.tokens,
                telemetry.cost_micro_usd,
            ),
            EventKind::Message(message) => self.with_message(e, message),
            _ => self,
        }
    }

    /// The cockpit after a series of events.
    pub open spec fn after(self, events: Seq<Event>) -> CockpitView
        decreases events.len(),
    {
        if events.len() == 0 {
            self
        } else {
            self.after(events.drop_last()).folded(events.last())
        }
    }

    /// The role names, in order.
    pub open spec fn names(self) -> Seq<Seq<char>> {
        rolemap::in_order(self.rows.dom())
    }

    /// The rows, in the order of their names.
    pub open spec fn ordered(self) -> Seq<RowView> {
        self.names().map_values(|name: Seq<char>| self.rows[name])
    }

    /// The selected position, held to the rows there are.
    pub open spec fn position(self) -> int {
        if self.names().len() == 0 {
            0
        } else if self.selected >= self.names().len() {
            self.names().len() - 1
        } else {
            self.selected as int
        }
    }

    /// The selected row.
    pub open spec fn chosen(self) -> Option<RowView> {
        if self.names().len() == 0 {
            None
        } else {
            Some(self.rows[self.names()[self.position()]])
        }
    }

    /// The feed under the active filter.
    pub open spec fn shown(self) -> Seq<LineView> {
        self.feed.filter(|line: LineView| shows(self.filter, line))
    }

    /// The channels present in the feed.
    pub open spec fn channel_set(self) -> Set<Seq<char>> {
        self.feed.map_values(|line: LineView| line.channel).to_set()
    }

    /// The channels present in the feed, in order.
    pub open spec fn channels(self) -> Seq<Seq<char>> {
        rolemap::in_order(self.channel_set())
    }

    /// The filter that follows when the channels are cycled.
    pub open spec fn next_channel_filter(self) -> FilterView {
        let channels = self.channels();
        if channels.len() == 0 {
            FilterView::All
        } else {
            match self.filter {
                FilterView::Channel(channel) if channels.contains(channel) => {
                    let i = channels.index_of(channel);
                    if i + 1 < channels.len() {
                        FilterView::Channel(channels[i + 1])
                    } else {
                        FilterView::All
                    }
                },
                _ => FilterView::Channel(channels[0]),
            }
        }
    }
}

impl View for Cockpit {
    type V = CockpitView;

    closed spec fn view(&self) -> CockpitView {
        CockpitView {
            rows: self.roles@.map_values(|row: RoleRow| row@),
            feed: self.feed@.map_values(|line: FeedLine| line@),
            logs: self.activity@.map_values(|log: VecDeque<String>| text::texts(log@)),
            standing: self.standing@,
            selected: self.selected as nat,
            detail: self.detail,
            filter: self.filter@,
        }
    }
}

impl Cockpit {
    /// What the cockpit keeps: each row under its own role, feed and logs within
    /// their caps, and a drill-in only where there is a role to drill into.
    pub closed spec fn wf(self) -> bool {
        self.kept() && (self.detail ==> self@.names().len() > 0)
    }

    /// What the cockpit keeps of its rows, its feed and its logs.
    spec fn kept(self) -> bool {
        &&& self.roles.wf()
        &&& self.activity.wf()
        &&& forall|name: Seq<char>|
            self.roles@.dom().contains(name) ==> (#[trigger] self.roles@[name]).role@ == name
        &&& self.feed@.len() <= FEED_CAP
        &&& forall|name: Seq<char>|
            self.activity@.dom().contains(name) ==> (#[trigger] self.activity@[name])@.len()
                <= ACTIVITY_CAP
    }

    /// A well-formed cockpit holds no more than its caps, keeps each row under its
    /// role's name, lists its finitely many roles by name, and drills into a role
    /// only where it has one.
    pub proof fn the_invariant_bounds_the_state(self)
        requires
            self.wf(),
        ensures
            self@.feed.len() <= FEED_CAP,
            forall|name: Seq<char>| #[trigger] self@.log_of(name).len() <= ACTIVITY_CAP,
            forall|name: Seq<char>|
                self@.rows.dom().contains(name) ==> (#[trigger] self@.rows[name]).role == name,
            self@.rows.dom().finite(),
            rolemap::strictly_sorted(self@.names()),
            self@.names().to_set() == self@.rows.dom(),
            self@.detail ==> self@.chosen() is Some,
    {
        self.lemma_ordered();
        self.roles.lemma_keys();
        assert(self@.names().to_set() =~= self@.rows.dom());
        assert forall|name: Seq<char>| #[trigger] self@.log_of(name).len() <= ACTIVITY_CAP by {
            if self@.logs.dom().contains(name) {
                assert(self.activity@[name]@.len() <= ACTIVITY_CAP);
            }
        }
        assert forall|name: Seq<char>| self@.rows.dom().contains(name) implies (
        #[trigger] self@.rows[name]).role == name by {
            assert(self.roles@[name].role@ == name);
        }
    }

    /// The row of `role` taken out of the rows, or a fresh one in `status`.
    fn take_row(&mut self, role: &RoleId, status: Status) -> (r: RoleRow)
        requires
            old(self).wf(),
        ensures
            final(self).kept(),
            r@ == old(self)@.row_or(role@, status),
            r.role@ == role@,
            final(self)@ == (CockpitView {
                rows: old(self)@.rows.remove(role@),
                ..old(self)@
            }),
    {
        let ghost before = self@;
        let taken = self.roles.take(role);
        assert(self@.rows =~= before.rows.remove(role@));
        assert(self@ =~= (CockpitView { rows: before.rows.remove(role@), ..before }));
        match taken {
            Some(row) => row,
            None => RoleRow::new(role.clone(), status),
        }
    }

    /// Puts a row under its role.
    fn put_row(&mut self, row: RoleRow)
        requires
            old(self).kept(),
        ensures
            final(self).wf(),
            final(self)@ == old(self)@.with_row(row@),
    {
        let ghost before = self@;
        let key = row.role.clone();
        self.roles.insert(key, row);
        assert(self@.rows =~= before.rows.insert(row@.role, row@));
        assert(self@ =~= before.with_row(row@));
        proof {
            self.lemma_ordered();
            self.roles.lemma_keys();
            assert(self@.rows.dom().contains(row@.role));
            assert(self.roles.keys().contains(row@.role));
        }
    }

    /// Seeds the roles and the standing from a roster snapshot.
    pub fn seed_roster(&mut self, seed: RosterSeed)
        requires
            old(self).wf(),
        ensures
            final(self).wf(),
            final(self)@ == old(self)@.with_roster(seed),
    {
        let ghost before = self@;
        let standing = seed.standing;
        if !standing.as_str().is_empty() {
            self.standing = standing;
        }
        let ghost based = self@;
        assert(based =~= (CockpitView {
            standing: if seed.standing@.len() == 0 {
                before.standing
            } else {
                seed.standing@
            },
            ..before
        }));
        let roles = seed.roles;
        for role in it: roles
            invariant
                it.seq() == roles@,
                self.wf(),
                self@ == based.roster_roles(roles@.take(it.index())),
        {
            let ghost here = self@;
            let mut row = self.take_row(&role.role, Status::Stopped);
            row.status = Status::from_liveness(role.liveness.as_str());
            row.paused = role.paused;
            row.owned_paths = role.owned_paths;
            self.put_row(row);
            proof {
                let i = it.index();
                assert(self@ =~= here.roster_role(role)) by {
                    assert(self@.rows =~= here.roster_role(role).rows);
                }
                assert(roles@.take(i + 1).drop_last() =~= roles@.take(i));
                assert(roles@.take(i + 1).last() == role);
            }
        }
        assert(roles@.take(roles@.len() as int) =~= roles@);
    }

    /// Seeds each role's tokens, cost, and working time from a stats snapshot.
    pub fn seed_stats(&mut self, seed: StatsSeed)
        requires
            old(self).wf(),
        ensures
            final(self).wf(),
            final(self)@ == old(self)@.with_stats(seed.roles@),
    {
        let ghost based = self@;
        let roles = seed.roles;
        for role in it: roles
            invariant
                it.seq() == roles@,
                self.wf(),
                self@ == based.with_stats(roles@.take(it.index())),
        {
            let ghost here = self@;
            let mut row = self.take_row(&role.role, Status::Stopped);
            row.tokens = role.tokens;
            row.cost_micro_usd = role.cost_micro_usd;
            row.active_secs = role.active_secs;
            self.put_row(row);
            proof {
                let i = it.index();
                assert(self@ =~= here.stats_role(role)) by {
                    assert(self@.rows =~= here.stats_role(role).rows);
                }
                assert(roles@.take(i + 1).drop_last() =~= roles@.take(i));
                assert(roles@.take(i + 1).last() == role);
            }
        }
        assert(roles@.take(roles@.len() as int) =~= roles@);
    }

    /// Folds one live event into the state. Kinds other than `lifecycle`,
    /// `activity`, `telemetry` and `message` do not change the cockpit.
    pub fn apply(&mut self, e: &Event)
        requires
            old(self).wf(),
        ensures
            final(self).wf(),
            final(self)@ == old(self)@.folded(*e),
    {
        match &e.kind {
            EventKind::Lifecycle(lifecycle) => self.apply_lifecycle(&e.from, *lifecycle),
            EventKind::Activity(activity) => self.apply_activity(&e.from, activity),
            EventKind::Telemetry(telemetry) => {
                let ghost before = self@;
                let mut row = self.take_row(&telemetry.role, Status::Working);
                row.tokens = row.tokens.saturating_add(telemetry.tokens);
                row.cost_micro_usd = row.cost_micro_usd.saturating_add(telemetry.cost_micro_usd);
                self.put_row(row);
                assert(self@ =~= before.folded(*e)) by {
                    assert(self@.rows =~= before.folded(*e).rows);
                }
            },
            EventKind::Message(message) => self.push_feed(e, message),
            _ => {},
        }
    }

    /// Folds a `lifecycle` event: move the role's status, toggle its pause, or
    /// update the crew standing.
    fn apply_lifecycle(&mut self, from: &Sender, lifecycle: Lifecycle)
        requires
            old(self).wf(),
        ensures
            final(self).wf(),
            final(self)@ == old(self)@.with_lifecycle(*from, lifecycle),
    {
        let ghost before = self@;
        if let Sender::Role(role) = from {
            let mut row = self.take_row(role, Status::Working);
            if let Some(status) = Status::from_lifecycle(lifecycle) {
                row.status = status;
            }
            match lifecycle {
                Lifecycle::Paused => {
                    row.paused = true;
                },
                Lifecycle::Resumed => {
                    row.paused = false;
                },
                _ => {},
            }
            self.put_row(row);
        }
        match lifecycle {
            Lifecycle::StoodDown => {
                self.standing = "stood down".to_owned();
            },
            Lifecycle::MissionComplete => {
                self.standing = "mission complete".to_owned();
            },
            _ => {},
        }
        assert(self@ =~= before.with_lifecycle(*from, lifecycle)) by {
            assert(self@.rows =~= before.with_lifecycle(*from, lifecycle).rows);
        }
    }

    /// Folds an `activity` event: set the role's current action and append to
    /// its drill-in log.
    fn apply_activity(&mut self, from: &Sender, activity: &Activity)
        requires
            old(self).wf(),
        ensures
            final(self).wf(),
            final(self)@ == old(self)@.with_activity(*from, *activity),
    {
        let ghost before = self@;
        if let Sender::Role(role) = from {
            let action = describe_activity(activity);
            let mut row = self.take_row(role, Status::Working);
            row.action = action.clone();
            self.put_row(row);
            let ghost placed = self@;
            let mut log: VecDeque<String> = match self.activity.take(role) {
                Some(log) => log,
                None => VecDeque::new(),
            };
            let ghost old_log = text::texts(log@);
            assert(old_log =~= before.log_of(role@));
            log.push_back(action);
            assert(text::texts(log@) =~= old_log.push(action@));
            if log.len() > ACTIVITY_CAP {
                let ghost full = text::texts(log@);
                log.pop_front();
                assert(text::texts(log@) =~= full.skip(1));
            }
            self.activity.insert(role.clone(), log);
            assert(self@.logs =~= before.with_activity(*from, *activity).logs);
            assert(self@.rows =~= before.with_activity(*from, *activity).rows);
            assert(self@ =~= before.with_activity(*from, *activity));
        }
    }

    /// Appends a `message` event to the feed, capped at [`FEED_CAP`].
    fn push_feed(&mut self, e: &Event, message: &Message)
        requires
            old(self).wf(),
        ensures
            final(self).wf(),
            final(self)@ == old(self)@.with_message(*e, *message),
    {
        let ghost before = self@;
        let line = FeedLine {
            from: sender_label(&e.from),
            channel: e.channel.as_str().to_owned(),
            kind: message_kind_label(&message.kind),
            summary: message_summary(message),
        };
        self.feed.push_back(line);
        assert(self@.feed =~= before.feed.push(line@));
        if self.feed.len() > FEED_CAP {
            let ghost full = self@.feed;
            self.feed.pop_front();
            assert(self@.feed =~= full.skip(1));
        }
        assert(self@ =~= before.with_message(*e, *message));
    }
}

impl Default for Cockpit {
    /// An empty cockpit of a running crew.
    fn default() -> (r: Self)
        ensures
            r.wf(),
            r@ == (CockpitView {
                rows: Map::empty(),
                feed: Seq::empty(),
                logs: Map::empty(),
                standing: "running"@,
                selected: 0,
                detail: false,
                filter: FilterView::All,
            }),
    {
        let r = Cockpit {
            roles: RoleMap::new(),
            feed: VecDeque::new(),
            activity: RoleMap::new(),
            standing: "running".to_owned(),
            selected: 0,
            detail: false,
            filter: Filter::All,
        };
        assert(r@.rows =~= Map::empty());
        assert(r@.logs =~= Map::empty());
        assert(r@.feed =~= Seq::empty());
        r
    }
}

/// A one-line description of an activity, for the action column and the
/// drill-in.
pub fn describe_activity(activity: &Activity) -> (r: String)
    ensures
        r@ == action_text(*activity),
{
    match activity {
        Activity::TurnStarted => "turn started".to_owned(),
        Activity::TurnEnded => "turn ended".to_owned(),
        Activity::ToolCall { tool } => one_line(
            "tool: ".to_owned().concat(tool.as_str()).as_str(),
        ),
        Activity::Output { text } => elide(text.as_str()),
        Activity::Other { raw } => one_line(
            "(".to_owned().concat(raw.as_str()).concat(")").as_str(),
        ),
    }
}

/// A one-line summary of a message: its title for an order, else its body.
pub fn message_summary(message: &Message) -> (r: String)
    ensures
        r@ == summary_text(*message),
{
    let body = text::trim(message.body.as_str());
    match &message.kind {
        MessageKind::Order { title, .. } => {
            if title.as_str().is_empty() {
                elide(body)
            } else if body.is_empty() {
                one_line(title.as_str())
            } else {
                elide(title.clone().concat(": ").concat(body).as_str())
            }
        },
        _ => elide(body),
    }
}

/// Whether a channel involves `role`: its direct `@role` channel, or a pair it
/// belongs to.
pub fn channel_involves(channel: &str, role: &str) -> (r: bool)
    ensures
        r == involves(channel@, role@),
{
    let mut direct = String::new();
    direct.push('@');
    direct.append(role);
    assert(direct@ =~= seq!['@'] + role@);
    if text::same(channel, direct.as_str()) {
        return true;
    }
    match text::split_once(channel, '+') {
        Some((first, second)) => text::same(first, role) || text::same(second, role),
        None => false,
    }
}

/// `s` on one tidy line: white space collapsed and capped at [`MAX_SUMMARY`]
/// with an ellipsis.
pub fn elide(s: &str) -> (r: String)
    ensures
        r@ == tidied(s@),
{
    let words = text::split_whitespace(s);
    let flat = text::join(words.as_slice(), " ");
    text::clip(flat.as_str(), MAX_SUMMARY, "\u{2026}")
}

/// `s` as it is written where it is one line of no more than [`MAX_SUMMARY`]
/// characters, else tidied like [`elide`].
pub fn one_line(s: &str) -> (r: String)
    ensures
        r@ == on_one_line(s@),
{
    if s.unicode_len() <= MAX_SUMMARY && !text::contains_char(s, '\n') && !text::contains_char(
        s,
        '\r',
    ) {
        s.to_owned()
    } else {
        elide(s)
    }
}

/// The rows behind a list of row references.
pub open spec fn rows_of(rows: Seq<&RoleRow>) -> Seq<RowView> {
    rows.map_values(|row: &RoleRow| row@)
}

/// The lines behind a list of line references.
pub open spec fn lines_seen(lines: Seq<&FeedLine>) -> Seq<LineView> {
    lines.map_values(|line: &FeedLine| line@)
}

/// The texts behind a list of string slices.
pub open spec fn slices(list: Seq<&str>) -> Seq<Seq<char>> {
    list.map_values(|s: &str| s@)
}

/// The sum of the rows' tokens.
pub open spec fn total_tokens(rows: Seq<RowView>) -> int
    decreases rows.len(),
{
    if rows.len() == 0 {
        0
    } else {
        total_tokens(rows.drop_last()) + rows.last().tokens
    }
}

/// The sum of the rows' costs.
pub open spec fn total_cost(rows: Seq<RowView>) -> int
    decreases rows.len(),
{
    if rows.len() == 0 {
        0
    } else {
        total_cost(rows.drop_last()) + rows.last().cost_micro_usd
    }
}

/// `n`, held at the largest `u64`.
pub open spec fn held_u64(n: int) -> int {
    if n > u64::MAX {
        u64::MAX as int
    } else {
        n
    }
}

/// How many of the rows are live.
pub open spec fn live_rows(rows: Seq<RowView>) -> int
    decreases rows.len(),
{
    if rows.len() == 0 {
        0
    } else {
        live_rows(rows.drop_last()) + if rows.last().status.live() {
            1int
        } else {
            0
        }
    }
}

impl Cockpit {
    /// The rows stand in the map's order.
    proof fn lemma_ordered(self)
        requires
            self.kept(),
        ensures
            self@.names() == self.roles.keys(),
            self@.ordered().len() == self.roles.keys().len(),
            forall|i: int|
                0 <= i < self.roles.keys().len() ==> #[trigger] self@.ordered()[i]
                    == self.roles.values()[i]@,
    {
        self.roles.lemma_keys();
        assert(self@.rows.dom() =~= self.roles@.dom());
        assert forall|i: int| 0 <= i < self.roles.keys().len() implies #[trigger] self@.ordered()[i]
            == self.roles.values()[i]@ by {
            let name = self.roles.keys()[i];
            assert(self@.names()[i] == name);
            assert(self@.rows[name] == self.roles@[name]@);
        }
    }

    /// Every role, sorted by id.
    pub fn roles(&self) -> (r: Vec<&RoleRow>)
        requires
            self.wf(),
        ensures
            rows_of(r@) == self@.ordered(),
    {
        proof {
            self.lemma_ordered();
        }
        let mut out: Vec<&RoleRow> = Vec::new();
        let n: usize = self.roles.len();
        let mut i: usize = 0;
        while i < n
            invariant
                i <= n == self.roles.keys().len(),
                self.wf(),
                self@.ordered().len() == n,
                forall|j: int|
                    0 <= j < n ==> #[trigger] self@.ordered()[j] == self.roles.values()[j]@,
                rows_of(out@) == self@.ordered().take(i as int),
            decreases n - i,
        {
            let (_, row) = self.roles.at(i);
            let ghost before = rows_of(out@);
            out.push(row);
            assert(rows_of(out@) =~= before.push(row@));
            i = i + 1;
            assert(self@.ordered().take(i as int) =~= self@.ordered().take(i - 1).push(
                self@.ordered()[i - 1],
            ));
        }
        assert(self@.ordered().take(n as int) =~= self@.ordered());
        out
    }

    /// The number of roles the cockpit tracks.
    pub fn role_count(&self) -> (r: usize)
        requires
            self.wf(),
        ensures
            r == self@.names().len(),
    {
        proof {
            self.lemma_ordered();
        }
        self.roles.len()
    }

    /// The live agent count: the roles that are working or idle.
    pub fn live_count(&self) -> (r: usize)
        requires
            self.wf(),
        ensures
            r == live_rows(self@.ordered()),
    {
        let rows = self.roles();
        let ghost all = self@.ordered();
        let mut count: usize = 0;
        let mut i: usize = 0;
        while i < rows.len()
            invariant
                i <= rows.len(),
                rows_of(rows@) == all,
                count <= i,
                count == live_rows(all.take(i as int)),
            decreases rows.len() - i,
        {
            assert(all[i as int] == rows@[i as int]@);
            if rows[i].status.is_live() {
                count = count + 1;
            }
            i = i + 1;
            assert(all.take(i as int).drop_last() =~= all.take(i - 1));
            assert(all.take(i as int).last() == all[i - 1]);
        }
        assert(all.take(all.len() as int) =~= all);
        count
    }

    /// The crew's aggregate tokens and cost, summed across every role.
    pub fn aggregate(&self) -> (r: (u64, u64))
        requires
            self.wf(),
        ensures
            r.0 == held_u64(total_tokens(self@.ordered())),
            r.1 == held_u64(total_cost(self@.ordered())),
    {
        let rows = self.roles();
        let ghost all = self@.ordered();
        let mut tokens: u64 = 0;
        let mut cost: u64 = 0;
        let mut i: usize = 0;
        while i < rows.len()
            invariant
                i <= rows.len(),
                rows_of(rows@) == all,
                tokens == held_u64(total_tokens(all.take(i as int))),
                cost == held_u64(total_cost(all.take(i as int))),
                total_tokens(all.take(i as int)) >= 0,
                total_cost(all.take(i as int)) >= 0,
            decreases rows.len() - i,
        {
            assert(all[i as int] == rows@[i as int]@);
            tokens = tokens.saturating_add(rows[i].tokens);
            cost = cost.saturating_add(rows[i].cost_micro_usd);
            i = i + 1;
            assert(all.take(i as int).drop_last() =~= all.take(i - 1));
            assert(all.take(i as int).last() == all[i - 1]);
        }
        assert(all.take(all.len() as int) =~= all);
        (tokens, cost)
    }

    /// The crew's control standing, for the header.
    pub fn standing(&self) -> (r: &str)
        ensures
            r@ == self@.standing,
    {
        self.standing.as_str()
    }

    /// The message feed under the active filter, oldest first.
    pub fn feed(&self) -> (r: Vec<&FeedLine>)
        ensures
            lines_seen(r@) == self@.shown(),
    {
        let ghost all = self@.feed;
        let ghost p = |line: LineView| shows(self@.filter, line);
        let mut out: Vec<&FeedLine> = Vec::new();
        let mut i: usize = 0;
        let n: usize = self.feed.len();
        proof {
            reveal(Seq::filter);
            assert(all.take(0).filter(p) =~= Seq::<LineView>::empty());
            assert(lines_seen(out@) =~= Seq::<LineView>::empty());
        }
        while i < n
            invariant
                i <= n == self.feed@.len(),
                all == self@.feed,
                p == (|line: LineView| shows(self@.filter, line)),
                lines_seen(out@) == all.take(i as int).filter(p),
            decreases n - i,
        {
            let line = &self.feed[i];
            let ghost before = lines_seen(out@);
            assert(all[i as int] == line@);
            if self.feed_shows(line) {
                out.push(line);
                assert(lines_seen(out@) =~= before.push(line@));
            }
            i = i + 1;
            proof {
                reveal(Seq::filter);
                assert(all.take(i as int).drop_last() =~= all.take(i - 1));
                assert(all.take(i as int).last() == all[i - 1]);
            }
        }
        assert(all.take(n as int) =~= all);
        out
    }

    /// A label for the active filter, for the header (`all`, `role:backend`,
    /// `channel:@backend`).
    pub fn filter_label(&self) -> (r: String)
        ensures
            r@ == (match self@.filter {
                FilterView::All => "all"@,
                FilterView::Role(role) => "role:"@ + role,
                FilterView::Channel(channel) => "channel:"@ + channel,
            }),
    {
        match &self.filter {
            Filter::All => "all".to_owned(),
            Filter::Role(role) => "role:".to_owned().concat(role.as_str()),
            Filter::Channel(channel) => "channel:".to_owned().concat(channel.as_str()),
        }
    }

    /// The selected row index, clamped to the current roles.
    pub fn selected(&self) -> (r: usize)
        requires
            self.wf(),
        ensures
            r == self@.position(),
    {
        let count: usize = self.role_count();
        if count == 0 {
            0
        } else if self.selected >= count {
            count - 1
        } else {
            self.selected
        }
    }

    /// The selected role, if any role is present.
    pub fn selected_role(&self) -> (r: Option<&RoleRow>)
        requires
            self.wf(),
        ensures
            match r {
                Some(row) => self@.chosen() == Some(row@),
                None => self@.chosen() is None,
            },
    {
        proof {
            self.lemma_ordered();
        }
        if self.roles.len() == 0 {
            None
        } else {
            let i: usize = self.selected();
            assert(self@.ordered()[i as int] == self.roles.values()[i as int]@);
            let (_, row) = self.roles.at(i);
            Some(row)
        }
    }

    /// Whether the drill-in detail view is showing.
    pub fn in_detail(&self) -> (r: bool)
        requires
            self.wf(),
        ensures
            r == (self@.detail && self@.chosen() is Some),
    {
        self.detail && self.selected_role().is_some()
    }

    /// The selected role's recent activity, oldest first, for the drill-in.
    pub fn detail_activity(&self) -> (r: Vec<&str>)
        requires
            self.wf(),
        ensures
            slices(r@) == (match self@.chosen() {
                Some(row) => self@.log_of(row.role),
                None => Seq::empty(),
            }),
    {
        let mut out: Vec<&str> = Vec::new();
        assert(slices(out@) =~= Seq::<Seq<char>>::empty());
        let row = match self.selected_role() {
            Some(row) => row,
            None => {
                return out;
            },
        };
        let log = match self.activity.get(&row.role) {
            Some(log) => log,
            None => {
                return out;
            },
        };
        let ghost all = text::texts(log@);
        assert(self@.logs[row.role@] == all);
        let n: usize = log.len();
        let mut i: usize = 0;
        while i < n
            invariant
                i <= n == log@.len(),
                all == text::texts(log@),
                slices(out@) == all.take(i as int),
            decreases n - i,
        {
            let line = &log[i];
            let ghost before = slices(out@);
            out.push(line.as_str());
            assert(slices(out@) =~= before.push(line@));
            i = i + 1;
            assert(all.take(i as int) =~= all.take(i - 1).push(all[i - 1]));
        }
        assert(all.take(n as int) =~= all);
        out
    }

    /// Whether `line` is shown under the active filter.
    fn feed_shows(&self, line: &FeedLine) -> (r: bool)
        ensures
            r == shows(self@.filter, line@),
    {
        match &self.filter {
            Filter::All => true,
            Filter::Role(role) => text::same(line.from.as_str(), role.as_str()) || channel_involves(
                line.channel.as_str(),
                role.as_str(),
            ),
            Filter::Channel(channel) => line.channel == *channel,
        }
    }

    /// Moves the selection down one role (wrapping at the end).
    pub fn select_next(&mut self)
        requires
            old(self).wf(),
        ensures
            final(self).wf(),
            final(self)@ == old(self)@.next_selected(),
    {
        let count: usize = self.role_count();
        let at: usize = self.selected();
        if count > 0 {
            self.selected = if at + 1 == count {
                0
            } else {
                at + 1
            };
        }
    }

    /// Moves the selection up one role (wrapping at the start).
    pub fn select_prev(&mut self)
        requires
            old(self).wf(),
        ensures
            final(self).wf(),
            final(self)@ == old(self)@.prev_selected(),
    {
        let count: usize = self.role_count();
        let at: usize = self.selected();
        if count > 0 {
            self.selected = if at == 0 {
                count - 1
            } else {
                at - 1
            };
        }
    }

    /// Toggles the drill-in detail view for the selected role.
    pub fn toggle_detail(&mut self)
        requires
            old(self).wf(),
        ensures
            final(self).wf(),
            final(self)@ == (CockpitView {
                detail: if old(self)@.chosen() is Some {
                    !old(self)@.detail
                } else {
                    old(self)@.detail
                },
                ..old(self)@
            }),
    {
        if self.selected_role().is_some() {
            self.detail = !self.detail;
        }
    }

    /// Leaves the detail view; returns whether it was showing.
    pub fn leave_detail(&mut self) -> (r: bool)
        requires
            old(self).wf(),
        ensures
            final(self).wf(),
            final(self)@ == (CockpitView { detail: false, ..old(self)@ }),
            r == old(self)@.detail,
            r == (old(self)@.detail && old(self)@.chosen() is Some),
    {
        let was = self.detail;
        self.detail = false;
        was
    }

    /// Toggles the feed filter to the selected role's traffic, or back to all.
    pub fn toggle_role_filter(&mut self)
        requires
            old(self).wf(),
        ensures
            final(self).wf(),
            final(self)@ == old(self)@.role_filter_toggled(),
    {
        let selected = match self.selected_role() {
            Some(row) => Some(row.role.clone()),
            None => None,
        };
        let next = match selected {
            None => Filter::All,
            Some(selected) => {
                let already = match &self.filter {
                    Filter::Role(role) => role.same(&selected),
                    _ => false,
                };
                if already {
                    Filter::All
                } else {
                    Filter::Role(selected)
                }
            },
        };
        self.filter = next;
    }

    /// Cycles the feed filter through the channels seen in the feed: off, then
    /// each channel in turn, then off again.
    pub fn cycle_channel_filter(&mut self)
        requires
            old(self).wf(),
        ensures
            final(self).wf(),
            final(self)@ == (CockpitView {
                filter: old(self)@.next_channel_filter(),
                ..old(self)@
            }),
    {
        let channels = self.feed_channels();
        let ghost names = self@.channels();
        if channels.len() == 0 {
            self.filter = Filter::All;
            return;
        }
        assert(names.len() == channels@.len());
        let mut current: Option<usize> = None;
        if let Filter::Channel(channel) = &self.filter {
            let mut i: usize = 0;
            while i < channels.len() && current.is_none()
                invariant
                    i <= channels.len(),
                    text::texts(channels@) == names,
                    rolemap::strictly_sorted(names),
                    match current {
                        Some(k) => k < channels.len() && names[k as int] == channel@,
                        None => forall|j: int| 0 <= j < i ==> names[j] != channel@,
                    },
                decreases channels.len() - i,
            {
                assert(names[i as int] == channels@[i as int]@);
                if channels[i] == *channel {
                    current = Some(i);
                }
                i = i + 1;
            }
            proof {
                match current {
                    Some(k) => {
                        rolemap::lemma_one_place(names, k as int);
                    },
                    None => {
                        assert(!names.contains(channel@));
                    },
                }
            }
        }
        let next = match current {
            None => Filter::Channel(channels[0].clone()),
            Some(index) => {
                if index + 1 < channels.len() {
                    Filter::Channel(channels[index + 1].clone())
                } else {
                    Filter::All
                }
            },
        };
        assert(names[0] == channels@[0]@);
        assert(current matches Some(k) && k + 1 < channels.len() ==> names[current->0 + 1]
            == channels@[current->0 + 1]@);
        assert(next@ == self@.next_channel_filter());
        self.filter = next;
    }

    /// Clears any filter, showing the whole feed.
    pub fn clear_filter(&mut self)
        requires
            old(self).wf(),
        ensures
            final(self).wf(),
            final(self)@ == (CockpitView { filter: FilterView::All, ..old(self)@ }),
    {
        self.filter = Filter::All;
    }

    /// The distinct channels present in the feed, sorted, for cycling.
    fn feed_channels(&self) -> (r: Vec<String>)
        ensures
            text::texts(r@) == self@.channels(),
            rolemap::strictly_sorted(self@.channels()),
    {
        let ghost all = self@.feed.map_values(|line: LineView| line.channel);
        let mut found: RoleMap<()> = RoleMap::new();
        let n: usize = self.feed.len();
        let mut i: usize = 0;
        assert(found@.dom() =~= all.take(0).to_set());
        while i < n
            invariant
                i <= n == self.feed@.len(),
                all == self@.feed.map_values(|line: LineView| line.channel),
                found.wf(),
                found@.dom() == all.take(i as int).to_set(),
            decreases n - i,
        {
            let line = &self.feed[i];
            let ghost before = found@.dom();
            found.insert(RoleId::new(line.channel.as_str()), ());
            assert(all[i as int] == line.channel@);
            proof {
                let shorter = all.take(i as int);
                let longer = all.take(i + 1);
                assert(longer =~= shorter.push(all[i as int]));
                assert(longer.to_set() =~= shorter.to_set().insert(all[i as int])) by {
                    assert forall|c: Seq<char>| longer.to_set().contains(c)
                        == shorter.to_set().insert(all[i as int]).contains(c) by {
                        if longer.contains(c) {
                            let k = longer.index_of(c);
                            if k < i {
                                assert(shorter[k] == c);
                            }
                        }
                        if shorter.contains(c) {
                            let k = shorter.index_of(c);
                            assert(longer[k] == c);
                        }
                        assert(longer[i as int] == all[i as int]);
                    }
                }
                assert(found@.dom() =~= before.insert(all[i as int]));
            }
            i = i + 1;
        }
        assert(all.take(n as int) =~= all);
        proof {
            found.lemma_keys();
        }
        let ghost names = found.keys();
        assert(names == self@.channels());
        let mut out: Vec<String> = Vec::new();
        let m: usize = found.len();
        let mut k: usize = 0;
        while k < m
            invariant
                k <= m == names.len(),
                found.wf(),
                names == found.keys(),
                text::texts(out@) == names.take(k as int),
            decreases m - k,
        {
            let (name, _) = found.at(k);
            let ghost before = text::texts(out@);
            out.push(name.as_str().to_owned());
            assert(text::texts(out@) =~= before.push(name@));
            k = k + 1;
            assert(names.take(k as int) =~= names.take(k - 1).push(names[k - 1]));
        }
        assert(names.take(m as int) =~= names);
        out
    }
}

impl CockpitView {
    /// The cockpit with the next role selected, wrapping at the end.
    pub open spec fn next_selected(self) -> CockpitView {
        if self.names().len() == 0 {
            self
        } else {
            CockpitView {
                selected: if self.position() + 1 == self.names().len() {
                    0
                } else {
                    (self.position() + 1) as nat
                },
                ..self
            }
        }
    }

    /// The cockpit with the previous role selected, wrapping at the start.
    pub open spec fn prev_selected(self) -> CockpitView {
        if self.names().len() == 0 {
            self
        } else {
            CockpitView {
                selected: if self.position() == 0 {
                    (self.names().len() - 1) as nat
                } else {
                    (self.position() - 1) as nat
                },
                ..self
            }
        }
    }

    /// The cockpit with the role filter toggled.
    pub open spec fn role_filter_toggled(self) -> CockpitView {
        CockpitView {
            filter: match self.chosen() {
                None => FilterView::All,
                Some(row) => if self.filter == FilterView::Role(row.role) {
                    FilterView::All
                } else {
                    FilterView::Role(row.role)
                },
            },
            ..self
        }
    }
}

/// Moving down and then up, or up and then down, keeps the selected role.
pub proof fn selection_moves_undo_each_other(c: CockpitView)
    ensures
        c.next_selected().prev_selected().position() == c.position(),
        c.prev_selected().next_selected().position() == c.position(),
{
    assert(c.next_selected().names() == c.names());
    assert(c.prev_selected().names() == c.names());
}

/// The selected position is always a role's, as long as there is one.
pub proof fn the_selection_stays_on_a_role(c: CockpitView)
    ensures
        c.names().len() > 0 ==> 0 <= c.position() < c.names().len(),
        c.next_selected().rows == c.rows,
        c.prev_selected().rows == c.rows,
{
}

/// Toggling the role filter twice on one selection shows the whole feed, unless
/// the filter was on that role to begin with.
pub proof fn the_role_filter_toggles(c: CockpitView)
    requires
        c.chosen() is Some,
        c.filter != FilterView::Role(c.chosen()->0.role),
    ensures
        c.role_filter_toggled().filter == FilterView::Role(c.chosen()->0.role),
        c.role_filter_toggled().role_filter_toggled().filter == FilterView::All,
{
    assert(c.role_filter_toggled().names() == c.names());
    assert(c.role_filter_toggled().chosen() == c.chosen());
}

/// The cockpit with the channel filter cycled `k` times.
pub open spec fn cycled(c: CockpitView, k: nat) -> CockpitView
    decreases k,
{
    if k == 0 {
        c
    } else {
        let before = cycled(c, (k - 1) as nat);
        CockpitView { filter: before.next_channel_filter(), ..before }
    }
}

/// Cycling from the whole feed visits each of its channels once, in order, and
/// then shows the whole feed again.
pub proof fn cycling_visits_every_channel(c: CockpitView, k: nat)
    requires
        c.filter == FilterView::All,
        1 <= k <= c.channels().len() + 1,
    ensures
        cycled(c, k).filter == (if k <= c.channels().len() {
            FilterView::Channel(c.channels()[k - 1])
        } else {
            FilterView::All
        }),
        cycled(c, k).feed == c.feed,
    decreases k,
{
    let channels = c.channels();
    rolemap::lemma_order_exists(c.feed.map_values(|line: LineView| line.channel));
    let before = cycled(c, (k - 1) as nat);
    if k > 1 {
        cycling_visits_every_channel(c, (k - 1) as nat);
        assert(before.channels() == channels);
        rolemap::lemma_one_place(channels, k - 2);
    }
}

/// However long the stream, the feed holds no more than its cap, and neither
/// does any role's log.
pub proof fn the_caps_hold(c: CockpitView, events: Seq<Event>, role: Seq<char>)
    requires
        c.feed.len() <= FEED_CAP,
        c.log_of(role).len() <= ACTIVITY_CAP,
    ensures
        c.after(events).feed.len() <= FEED_CAP,
        c.after(events).log_of(role).len() <= ACTIVITY_CAP,
    decreases events.len(),
{
    if events.len() > 0 {
        the_caps_hold(c, events.drop_last(), role);
    }
}

/// A message lands last on the feed, whatever the feed held.
pub proof fn a_message_lands_on_the_feed(c: CockpitView, e: Event, message: Message)
    requires
        e.kind == EventKind::Message(message),
    ensures
        c.folded(e).feed.len() > 0,
        c.folded(e).feed.last() == (LineView {
            from: event::sender_text(e.from),
            channel: e.channel@,
            kind: message.kind.label_text(),
            summary: summary_text(message),
        }),
        c.folded(e).rows == c.rows,
{
}

/// Text on one tidy line holds no line break: its only white space is the plain
/// space. It carries no more than [`MAX_SUMMARY`] characters and the ellipsis
/// that marks a cut, and is whole where nothing was cut.
pub proof fn a_tidy_line_is_one_short_line(s: Seq<char>)
    ensures
        tidied(s).len() <= MAX_SUMMARY + 1,
        forall|i: int|
            0 <= i < tidied(s).len() ==> text::white_space(#[trigger] tidied(s)[i]) ==> tidied(s)[i]
                == ' ',
        !tidied(s).contains('\n'),
        !tidied(s).contains('\r'),
        tidied(s).len() > MAX_SUMMARY ==> tidied(s).last() == '\u{2026}',
        text::joined(text::words(s), " "@).len() <= MAX_SUMMARY ==> tidied(s) == text::joined(
            text::words(s),
            " "@,
        ),
{
    reveal_strlit("\u{2026}");
    reveal_strlit(" ");
    text::lemma_words_solid(s);
    text::lemma_joined_by_space(text::words(s));
}

/// Text that is one short line is shown as it is written, and any other on one
/// short line.
pub proof fn a_short_line_is_kept(s: Seq<char>)
    ensures
        short_line(s) ==> on_one_line(s) == s,
        on_one_line(s).len() <= MAX_SUMMARY + 1,
        !on_one_line(s).contains('\n'),
        !on_one_line(s).contains('\r'),
{
    a_tidy_line_is_one_short_line(s);
}

/// Every summary and every action is one short line.
pub proof fn summaries_and_actions_are_one_short_line(message: Message, activity: Activity)
    ensures
        summary_text(message).len() <= MAX_SUMMARY + 1,
        !summary_text(message).contains('\n'),
        !summary_text(message).contains('\r'),
        action_text(activity).len() <= MAX_SUMMARY + 1,
        !action_text(activity).contains('\n'),
        !action_text(activity).contains('\r'),
{
    let body = text::trimmed(message.body@);
    a_tidy_line_is_one_short_line(body);
    if let MessageKind::Order { title, .. } = message.kind {
        a_short_line_is_kept(title@);
        a_tidy_line_is_one_short_line(title@ + ": "@ + body);
    }
    reveal_strlit("turn started");
    reveal_strlit("turn ended");
    match activity {
        Activity::ToolCall { tool } => a_short_line_is_kept("tool: "@ + tool@),
        Activity::Output { text } => a_tidy_line_is_one_short_line(text@),
        Activity::Other { raw } => a_short_line_is_kept("("@ + raw@ + ")"@),
        _ => {},
    }
}

/// Events other than lifecycle, activity, telemetry and message change nothing,
/// and no event touches the selection, the drill-in or the filter.
pub proof fn events_leave_the_interaction_alone(c: CockpitView, e: Event)
    ensures
        c.folded(e).selected == c.selected,
        c.folded(e).detail == c.detail,
        c.folded(e).filter == c.filter,
        !(e.kind is Lifecycle || e.kind is Activity || e.kind is Telemetry || e.kind is Message)
            ==> c.folded(e) == c,
{
}

/// The roles that are up: working or idle.
pub open spec fn live_names(c: CockpitView) -> Set<Seq<char>> {
    c.rows.dom().filter(
        |name: Seq<char>|
            c.rows[name].status == Status::Working || c.rows[name].status == Status::Idle,
    )
}

/// A transition shows as what it is: a role that stopped or died is not live and
/// reads so; one that started, came back or went idle is live and reads so. A pause
/// is no change of liveness, and neither is the crew's standing.
pub proof fn a_transition_shows_as_what_it_is(
    lifecycle: Lifecycle,
    moved: Option<Status>,
    live: bool,
    label: &'static str,
)
    requires
        call_ensures(Status::from_lifecycle, (lifecycle,), moved),
        moved is Some ==> call_ensures(Status::is_live, (moved->0,), live),
        moved is Some ==> call_ensures(Status::label, (moved->0,), label),
    ensures
        lifecycle == Lifecycle::Stopped ==> moved is Some && !live && label@ == "stopped"@,
        lifecycle == Lifecycle::Died ==> moved is Some && !live && label@ == "dead"@,
        lifecycle == Lifecycle::Idle ==> moved is Some && live && label@ == "idle"@,
        lifecycle == Lifecycle::Started || lifecycle == Lifecycle::Restarted || lifecycle
            == Lifecycle::Recovered ==> moved is Some && live && label@ == "working"@,
        lifecycle == Lifecycle::Paused || lifecycle == Lifecycle::Resumed || lifecycle
            == Lifecycle::StoodDown || lifecycle == Lifecycle::MissionComplete ==> moved is None,
{
}

/// A liveness label reads back as itself, and one that is none of the four is not
/// taken for a live role.
pub proof fn a_liveness_label_reads_back(
    status: Status,
    label: &str,
    shown: &'static str,
    read: Status,
    live: bool,
)
    requires
        call_ensures(Status::label, (status,), shown),
        call_ensures(Status::from_liveness, (label,), read),
        call_ensures(Status::is_live, (read,), live),
    ensures
        label@ == shown@ ==> read == status,
        label@ != "working"@ && label@ != "idle"@ ==> !live,
        label@ == "working"@ || label@ == "idle"@ ==> live,
{
    reveal_strlit("working");
    reveal_strlit("idle");
    reveal_strlit("dead");
    reveal_strlit("stopped");
    assert("working"@[0] == 'w' && "idle"@[0] == 'i' && "dead"@[0] == 'd' && "stopped"@[0] == 's');
}

/// A role's transition moves that role, and only its liveness or its pause: stopped
/// or dead it no longer counts as live, started, back or idle it does; every other
/// role and all that was spent and done stays.
pub proof fn a_transition_moves_its_role(
    c: CockpitView,
    e: Event,
    role: RoleId,
    lifecycle: Lifecycle,
    other: Seq<char>,
)
    requires
        e.from == Sender::Role(role),
        e.kind == EventKind::Lifecycle(lifecycle),
        c.rows.dom().contains(role@) ==> c.rows[role@].role == role@,
    ensures
        ({
            let after = c.folded(e);
            let up = lifecycle == Lifecycle::Started || lifecycle == Lifecycle::Restarted
                || lifecycle == Lifecycle::Recovered || lifecycle == Lifecycle::Idle;
            let down = lifecycle == Lifecycle::Stopped || lifecycle == Lifecycle::Died;
            &&& after.rows.dom() == c.rows.dom().insert(role@)
            &&& up ==> live_names(after) == live_names(c).insert(role@)
            &&& down ==> live_names(after) == live_names(c).remove(role@)
            &&& !up && !down && c.rows.dom().contains(role@) ==> after.rows[role@].status
                == c.rows[role@].status
            &&& lifecycle == Lifecycle::Stopped ==> after.rows[role@].status == Status::Stopped
            &&& lifecycle == Lifecycle::Died ==> after.rows[role@].status == Status::Dead
            &&& lifecycle == Lifecycle::Idle ==> after.rows[role@].status == Status::Idle
            &&& up && lifecycle != Lifecycle::Idle ==> after.rows[role@].status == Status::Working
            &&& lifecycle == Lifecycle::Paused ==> after.rows[role@].paused
            &&& lifecycle == Lifecycle::Resumed ==> !after.rows[role@].paused
            &&& lifecycle != Lifecycle::Paused && lifecycle != Lifecycle::Resumed
                && c.rows.dom().contains(role@) ==> after.rows[role@].paused == c.rows[role@].paused
            &&& c.rows.dom().contains(role@) ==> after.rows[role@].tokens == c.rows[role@].tokens
                && after.rows[role@].cost_micro_usd == c.rows[role@].cost_micro_usd
                && after.rows[role@].action == c.rows[role@].action
                && after.rows[role@].active_secs == c.rows[role@].active_secs
                && after.rows[role@].owned_paths == c.rows[role@].owned_paths
            &&& other != role@ && c.rows.dom().contains(other) ==> after.rows[other]
                == c.rows[other]
            &&& after.feed == c.feed
            &&& after.logs == c.logs
        }),
{
    let after = c.folded(e);
    assert(after.rows.dom() =~= c.rows.dom().insert(role@));
    if lifecycle == Lifecycle::Stopped || lifecycle == Lifecycle::Died {
        assert(live_names(after) =~= live_names(c).remove(role@));
    } else if lifecycle != Lifecycle::Paused && lifecycle != Lifecycle::Resumed && lifecycle
        != Lifecycle::StoodDown && lifecycle != Lifecycle::MissionComplete {
        assert(live_names(after) =~= live_names(c).insert(role@));
    }
}

/// The crew's standing follows the crew: it stands down, or its mission completes,
/// whoever says so; nothing else that happens changes it.
pub proof fn the_standing_follows_the_crew(c: CockpitView, e: Event)
    ensures
        e.kind == EventKind::Lifecycle(Lifecycle::StoodDown) ==> c.folded(e).standing
            == "stood down"@,
        e.kind == EventKind::Lifecycle(Lifecycle::MissionComplete) ==> c.folded(e).standing
            == "mission complete"@,
        e.kind != EventKind::Lifecycle(Lifecycle::StoodDown) && e.kind != EventKind::Lifecycle(
            Lifecycle::MissionComplete,
        ) ==> c.folded(e).standing == c.standing,
        e.from == Sender::General && !(e.kind is Telemetry) ==> c.folded(e).rows == c.rows,
{
}

proof fn lemma_live_rows(names: Seq<Seq<char>>, rows: Map<Seq<char>, RowView>)
    requires
        names.no_duplicates(),
    ensures
        live_rows(names.map_values(|name: Seq<char>| rows[name])) == names.to_set().filter(
            |name: Seq<char>|
                rows[name].status == Status::Working || rows[name].status == Status::Idle,
        ).len(),
        names.to_set().filter(
            |name: Seq<char>|
                rows[name].status == Status::Working || rows[name].status == Status::Idle,
        ).finite(),
    decreases names.len(),
{
    let f = |name: Seq<char>| rows[name];
    let p = |name: Seq<char>|
        rows[name].status == Status::Working || rows[name].status == Status::Idle;
    if names.len() == 0 {
        assert(names.to_set().filter(p) =~= Set::empty());
    } else {
        let front = names.drop_last();
        let last = names.last();
        lemma_live_rows(front, rows);
        assert(names.map_values(f).drop_last() =~= front.map_values(f));
        assert(!front.contains(last)) by {
            if front.contains(last) {
                let i = front.index_of(last);
                assert(names[i] == names[names.len() - 1]);
            }
        }
        assert forall|n: Seq<char>| names.to_set().contains(n) <==> front.to_set().insert(
            last,
        ).contains(n) by {
            if names.contains(n) && n != last {
                let i = names.index_of(n);
                assert(front[i] == n);
            }
            if front.contains(n) {
                let i = front.index_of(n);
                assert(names[i] == n);
            }
            assert(names[names.len() - 1] == last);
        }
        if p(last) {
            assert(names.to_set().filter(p) =~= front.to_set().filter(p).insert(last));
        } else {
            assert(names.to_set().filter(p) =~= front.to_set().filter(p));
        }
    }
}

/// The header counts each role once, and as live exactly the roles that are
/// working or idle.
pub proof fn the_header_counts_live_roles(c: Cockpit, live: usize, all: usize)
    requires
        c.wf(),
        call_ensures(Cockpit::live_count, (&c,), live),
        call_ensures(Cockpit::role_count, (&c,), all),
    ensures
        live == live_names(c@).len(),
        all == c@.rows.dom().len(),
{
    c.the_invariant_bounds_the_state();
    let names = c@.names();
    assert forall|i: int, j: int| 0 <= i < names.len() && 0 <= j < names.len() && i != j implies names[i]
        != names[j] by {
        rolemap::lemma_one_place(names, i);
        rolemap::lemma_one_place(names, j);
    }
    assert(names.no_duplicates());
    lemma_live_rows(names, c@.rows);
    names.unique_seq_to_set();
}

/// Totals add up over the rows: no row is left out, and none counts twice.
pub proof fn totals_add_up(a: Seq<RowView>, b: Seq<RowView>, row: RowView)
    ensures
        total_tokens(a + b) == total_tokens(a) + total_tokens(b),
        total_cost(a + b) == total_cost(a) + total_cost(b),
        total_tokens(seq![row]) == row.tokens,
        total_cost(seq![row]) == row.cost_micro_usd,
        total_tokens(Seq::empty()) == 0,
        total_cost(Seq::empty()) == 0,
    decreases b.len(),
{
    reveal_with_fuel(total_tokens, 2);
    reveal_with_fuel(total_cost, 2);
    assert(seq![row].drop_last() =~= Seq::<RowView>::empty());
    if b.len() == 0 {
        assert(a + b =~= a);
    } else {
        totals_add_up(a, b.drop_last(), row);
        assert((a + b).drop_last() =~= a + b.drop_last());
    }
}

/// The spend shown is what the rows spent, held at the largest number.
pub proof fn the_spend_shown_is_what_was_spent(c: Cockpit, r: (u64, u64))
    requires
        c.wf(),
        call_ensures(Cockpit::aggregate, (&c,), r),
    ensures
        total_tokens(c@.ordered()) <= u64::MAX ==> r.0 == total_tokens(c@.ordered()),
        total_tokens(c@.ordered()) > u64::MAX ==> r.0 == u64::MAX,
        total_cost(c@.ordered()) <= u64::MAX ==> r.1 == total_cost(c@.ordered()),
        total_cost(c@.ordered()) > u64::MAX ==> r.1 == u64::MAX,
{
}

/// An activity becomes what its role is doing and the newest line of the role's log,
/// behind the lines the log can still hold; it touches nothing else.
pub proof fn an_activity_is_what_the_role_does(
    c: CockpitView,
    e: Event,
    role: RoleId,
    activity: Activity,
    said: String,
    other: Seq<char>,
)
    requires
        e.from == Sender::Role(role),
        e.kind == EventKind::Activity(activity),
        call_ensures(describe_activity, (&activity,), said),
        c.rows.dom().contains(role@) ==> c.rows[role@].role == role@,
    ensures
        ({
            let after = c.folded(e);
            let before = if c.logs.dom().contains(role@) {
                c.logs[role@]
            } else {
                Seq::empty()
            };
            &&& after.rows.dom().contains(role@) && after.rows[role@].action == said@
            &&& after.logs.dom().contains(role@) && after.logs[role@].len() > 0
            &&& after.logs[role@].last() == said@
            &&& before.len() < 200 ==> after.logs[role@] == before.push(said@)
            &&& before.len() == 200 ==> after.logs[role@] == before.skip(1).push(said@)
            &&& c.rows.dom().contains(role@) ==> after.rows[role@].status == c.rows[role@].status
                && after.rows[role@].tokens == c.rows[role@].tokens
            &&& !c.rows.dom().contains(role@) ==> after.rows[role@].status == Status::Working
            &&& other != role@ && c.rows.dom().contains(other) ==> after.rows[other]
                == c.rows[other]
            &&& other != role@ && c.logs.dom().contains(other) ==> after.logs[other]
                == c.logs[other]
            &&& after.feed == c.feed
        }),
{
    let before = c.log_of(role@);
    if before.len() == 200 {
        assert(before.push(said@).skip(1) =~= before.skip(1).push(said@));
    }
}

/// A usage report adds its tokens and its cost to its role, whoever sent it, and to
/// no other.
pub proof fn a_usage_report_adds_to_its_role(
    c: CockpitView,
    e: Event,
    report: event::TelemetryEvent,
    other: Seq<char>,
)
    requires
        e.kind == EventKind::Telemetry(report),
        c.rows.dom().contains(report.role@) ==> c.rows[report.role@].role == report.role@,
    ensures
        ({
            let role = report.role@;
            let after = c.folded(e);
            let tokens: int = if c.rows.dom().contains(role) {
                c.rows[role].tokens as int
            } else {
                0
            };
            let cost: int = if c.rows.dom().contains(role) {
                c.rows[role].cost_micro_usd as int
            } else {
                0
            };
            &&& after.rows.dom() == c.rows.dom().insert(role)
            &&& after.rows[role].tokens == if tokens + report.tokens <= u64::MAX {
                tokens + report.tokens
            } else {
                u64::MAX as int
            }
            &&& after.rows[role].cost_micro_usd == if cost + report.cost_micro_usd <= u64::MAX {
                cost + report.cost_micro_usd
            } else {
                u64::MAX as int
            }
            &&& c.rows.dom().contains(role) ==> after.rows[role].status == c.rows[role].status
                && after.rows[role].paused == c.rows[role].paused
            &&& other != role && c.rows.dom().contains(other) ==> after.rows[other] == c.rows[other]
            &&& after.feed == c.feed
            &&& after.logs == c.logs
        }),
{
    assert(c.folded(e).rows.dom() =~= c.rows.dom().insert(report.role@));
}

/// A message is shown as it was sent: by its sender, on its channel, under its kind,
/// newest last, behind the lines the feed can still hold.
pub proof fn a_message_is_shown_as_sent(c: CockpitView, e: Event, message: Message, said: String)
    requires
        e.kind == EventKind::Message(message),
        call_ensures(message_summary, (&message,), said),
    ensures
        ({
            let after = c.folded(e).feed;
            let line = after.last();
            &&& after.len() > 0
            &&& line.channel == e.channel@
            &&& line.kind == message.kind.label_text()
            &&& line.summary == said@
            &&& e.from matches Sender::Role(role) ==> line.from == role@
            &&& e.from == Sender::General ==> line.from == "general"@
            &&& c.feed.len() < 500 ==> after == c.feed.push(line)
            &&& c.feed.len() == 500 ==> after == c.feed.skip(1).push(line)
            &&& c.folded(e).logs == c.logs
        }),
{
    if c.feed.len() == 500 {
        let line = c.folded(e).feed.last();
        assert(c.feed.push(line).skip(1) =~= c.feed.skip(1).push(line));
    }
}

/// A short text is told as it is: a tool call by its tool, and an order by its title
/// and then its body; any message that is no titled order by its body.
pub proof fn what_is_told_is_what_was_said(
    activity: Activity,
    message: Message,
    action: String,
    summary: String,
)
    requires
        call_ensures(describe_activity, (&activity,), action),
        call_ensures(message_summary, (&message,), summary),
    ensures
        activity == Activity::TurnStarted ==> action@ == "turn started"@,
        activity == Activity::TurnEnded ==> action@ == "turn ended"@,
        activity matches Activity::ToolCall { tool } ==> tool@.len() <= 190 && !tool@.contains('\n')
            && !tool@.contains('\r') ==> action@ == "tool: "@ + tool@,
        activity matches Activity::Output { text: said } ==> text::joined(
            text::words(said@),
            " "@,
        ).len() <= 200 ==> action@ == text::joined(text::words(said@), " "@),
        ({
            let body = text::trimmed(message.body@);
            let full = match message.kind {
                MessageKind::Order { title, .. } => if title@.len() == 0 {
                    body
                } else if body.len() == 0 {
                    title@
                } else {
                    title@ + ": "@ + body
                },
                _ => body,
            };
            let flat = text::joined(text::words(full), " "@);
            let kept = message.kind is Order && message.kind->title@.len() > 0 && body.len() == 0
                && full.len() <= 200 && !full.contains('\n') && !full.contains('\r');
            &&& kept ==> summary@ == full
            &&& !kept && flat.len() <= 200 ==> summary@ == flat
            &&& !kept && flat.len() > 200 ==> summary@ == flat.take(200) + seq!['\u{2026}']
        }),
{
    reveal_strlit("tool: ");
    reveal_strlit("\u{2026}");
    assert("\u{2026}"@ =~= seq!['\u{2026}']);
    if let Activity::ToolCall { tool } = activity {
        let full = "tool: "@ + tool@;
        if tool@.len() <= 190 && !tool@.contains('\n') && !tool@.contains('\r') {
            assert forall|i: int| 0 <= i < full.len() implies full[i] != '\n' && full[i] != '\r' by {
                if i >= 6 {
                    assert(full[i] == tool@[i - 6]);
                    assert(tool@.contains(tool@[i - 6]));
                }
            }
        }
    }
}

/// A roster role is shown as the roster has it, whatever was shown of it before,
/// and keeps what it has spent; the others stay as they were.
pub proof fn the_roster_is_shown_as_it_is(
    c: CockpitView,
    seeds: Seq<RosterRoleSeed>,
    seed: RosterRoleSeed,
    status: Status,
    label: &str,
    other: Seq<char>,
)
    requires
        label@ == seed.liveness@,
        call_ensures(Status::from_liveness, (label,), status),
        ({
            let earlier = c.roster_roles(seeds);
            earlier.rows.dom().contains(seed.role@) ==> earlier.rows[seed.role@].role == seed.role@
        }),
    ensures
        ({
            let earlier = c.roster_roles(seeds);
            let after = c.roster_roles(seeds.push(seed));
            let row = after.rows[seed.role@];
            &&& after.rows.dom() == earlier.rows.dom().insert(seed.role@)
            &&& row.status == status
            &&& row.paused == seed.paused
            &&& row.owned_paths.len() == seed.owned_paths@.len()
            &&& forall|i: int|
                0 <= i < row.owned_paths.len() ==> #[trigger] row.owned_paths[i]
                    == seed.owned_paths@[i]@
            &&& earlier.rows.dom().contains(seed.role@) ==> row.tokens
                == earlier.rows[seed.role@].tokens && row.action == earlier.rows[seed.role@].action
            &&& other != seed.role@ && earlier.rows.dom().contains(other) ==> after.rows[other]
                == earlier.rows[other]
            &&& after.standing == earlier.standing && after.feed == earlier.feed
        }),
        c.roster_roles(Seq::empty()) == c,
{
    assert(seeds.push(seed).drop_last() =~= seeds);
    assert(c.roster_roles(seeds.push(seed)).rows.dom() =~= c.roster_roles(seeds).rows.dom().insert(
        seed.role@,
    ));
}

/// A roster that gives a standing sets it, and one that gives none keeps it.
pub proof fn the_roster_sets_the_standing(c: CockpitView, seed: RosterSeed)
    ensures
        seed.roles@.len() == 0 && seed.standing@.len() > 0 ==> c.with_roster(seed).standing
            == seed.standing@,
        seed.roles@.len() == 0 && seed.standing@.len() == 0 ==> c.with_roster(seed).standing
            == c.standing,
        c.with_roster(seed).rows == c.roster_roles(seed.roles@).rows,
        c.with_roster(seed).feed == c.feed,
{
    let based = CockpitView {
        standing: if seed.standing@.len() == 0 {
            c.standing
        } else {
            seed.standing@
        },
        ..c
    };
    lemma_roster_rows(c, based, seed.roles@);
}

proof fn lemma_roster_rows(a: CockpitView, b: CockpitView, seeds: Seq<RosterRoleSeed>)
    requires
        a.rows == b.rows,
    ensures
        a.roster_roles(seeds).rows == b.roster_roles(seeds).rows,
        b.roster_roles(seeds).feed == b.feed,
    decreases seeds.len(),
{
    if seeds.len() > 0 {
        lemma_roster_rows(a, b, seeds.drop_last());
    }
}

/// A role's stats are shown as the snapshot has them, and leave its liveness, its
/// action and every other role alone.
pub proof fn stats_are_shown_as_they_are(
    c: CockpitView,
    seeds: Seq<StatsRoleSeed>,
    seed: StatsRoleSeed,
    other: Seq<char>,
)
    requires
        ({
            let earlier = c.with_stats(seeds);
            earlier.rows.dom().contains(seed.role@) ==> earlier.rows[seed.role@].role == seed.role@
        }),
    ensures
        ({
            let earlier = c.with_stats(seeds);
            let after = c.with_stats(seeds.push(seed));
            let row = after.rows[seed.role@];
            &&& after.rows.dom() == earlier.rows.dom().insert(seed.role@)
            &&& row.tokens == seed.tokens
            &&& row.cost_micro_usd == seed.cost_micro_usd
            &&& row.active_secs == seed.active_secs
            &&& earlier.rows.dom().contains(seed.role@) ==> row.status
                == earlier.rows[seed.role@].status && row.action == earlier.rows[seed.role@].action
                && row.paused == earlier.rows[seed.role@].paused
            &&& !earlier.rows.dom().contains(seed.role@) ==> row.status == Status::Stopped
            &&& other != seed.role@ && earlier.rows.dom().contains(other) ==> after.rows[other]
                == earlier.rows[other]
        }),
        c.with_stats(Seq::empty()) == c,
{
    assert(seeds.push(seed).drop_last() =~= seeds);
    assert(c.with_stats(seeds.push(seed)).rows.dom() =~= c.with_stats(seeds).rows.dom().insert(
        seed.role@,
    ));
}

/// A filter shows exactly what it is on: everything, the lines a role sent or that
/// are on a channel of its own, or the lines of one channel.
pub proof fn a_filter_shows_what_it_is_on(line: LineView, role: Seq<char>, a: Seq<char>, b: Seq<char>)
    ensures
        shows(FilterView::All, line),
        shows(FilterView::Channel(a), line) <==> line.channel == a,
        line.from == role ==> shows(FilterView::Role(role), line),
        line.channel == seq!['@'] + role ==> shows(FilterView::Role(role), line),
        line.from != role && line.channel == seq!['@'] + a && !a.contains('+') && a != role && !(
        role.contains('+')) ==> !shows(FilterView::Role(role), line),
        line.channel == a + seq!['+'] + b && !a.contains('+') && line.from != role && line.channel
            != seq!['@'] + role ==> (shows(FilterView::Role(role), line) <==> role == a || role
            == b),
        !line.channel.contains('+') && line.from != role && line.channel != seq!['@'] + role
            ==> !shows(FilterView::Role(role), line),
{
    let on = line.channel;
    text::lemma_run(on, text::other_than('+'));
    if on == a + seq!['+'] + b && !a.contains('+') {
        assert forall|j: int| 0 <= j < a.len() implies text::other_than('+')(#[trigger] on[j]) by {
            assert(on[j] == a[j]);
            assert(a.contains(a[j]));
        }
        assert(on[a.len() as int] == '+');
        text::lemma_run_is(on, text::other_than('+'), a.len() as int);
        assert(on.take(a.len() as int) =~= a);
        assert(on.skip(a.len() as int + 1) =~= b);
    }
    if on == seq!['@'] + a && !a.contains('+') {
        assert forall|j: int| 0 <= j < on.len() implies #[trigger] on[j] != '+' by {
            if j > 0 {
                assert(on[j] == a[j - 1]);
                assert(a.contains(a[j - 1]));
            }
        }
        assert(a != role ==> on != seq!['@'] + role) by {
            if on == seq!['@'] + role {
                assert(on.skip(1) =~= a && on.skip(1) =~= role);
            }
        }
    }
    let i = text::run(on, text::other_than('+'));
    if i < on.len() {
        assert(!text::other_than('+')(on[i]));
        assert(on.contains('+'));
    }
}

/// The feed shown is the lines of the feed that the filter shows, in their order:
/// all of them without a filter.
pub proof fn the_feed_shown_is_the_feed_filtered(c: CockpitView, line: LineView)
    ensures
        c.shown().contains(line) <==> c.feed.contains(line) && shows(c.filter, line),
        c.filter == FilterView::All ==> c.shown() == c.feed,
{
    let p = |line: LineView| shows(c.filter, line);
    if c.shown().contains(line) {
        c.feed.lemma_filter_contains_rev(p, line);
        let k = choose|k: int| 0 <= k < c.shown().len() && c.shown()[k] == line;
        c.feed.lemma_filter_pred(p, k);
    }
    if c.feed.contains(line) && shows(c.filter, line) {
        let k = choose|k: int| 0 <= k < c.feed.len() && c.feed[k] == line;
        c.feed.lemma_filter_contains(p, k);
    }
    if c.filter == FilterView::All {
        lemma_filter_all(c.feed, p);
    }
}

proof fn lemma_filter_all(s: Seq<LineView>, p: spec_fn(LineView) -> bool)
    requires
        forall|i: int| 0 <= i < s.len() ==> p(#[trigger] s[i]),
    ensures
        s.filter(p) == s,
    decreases s.len(),
{
    reveal(Seq::filter);
    if s.len() > 0 {
        lemma_filter_all(s.drop_last(), p);
        assert(s.drop_last().push(s.last()) =~= s);
    } else {
        assert(s.filter(p) =~= s);
    }
}

/// Selecting goes down and up the roles one by one, and round at either end.
pub proof fn selecting_goes_round(c: CockpitView)
    requires
        c.names().len() > 0,
    ensures
        c.next_selected().position() == if c.position() == c.names().len() - 1 {
            0
        } else {
            c.position() + 1
        },
        c.prev_selected().position() == if c.position() == 0 {
            c.names().len() - 1
        } else {
            c.position() - 1
        },
        c.selected < c.names().len() ==> c.position() == c.selected,
        c.chosen() == Some(c.rows[c.names()[c.position()]]),
        c.next_selected().filter == c.filter && c.next_selected().detail == c.detail,
{
    assert(c.next_selected().names() == c.names());
    assert(c.prev_selected().names() == c.names());
}

/// A role first seen stands as it was seen: not paused, at nothing, with nothing spent
/// and no lane.
pub proof fn a_new_row_starts_from_nothing(role: RoleId, status: Status, row: RoleRow)
    requires
        call_ensures(RoleRow::new, (role, status), row),
    ensures
        row@.role == role@ && row@.status == status && !row@.paused,
        row@.action.len() == 0 && row@.owned_paths.len() == 0,
        row@.tokens == 0 && row@.cost_micro_usd == 0 && row@.active_secs == 0,
{
}

/// Applying a role's transition shows the role as what it then is, and leaves every
/// other role, the feed and the logs as they were.
pub proof fn applying_a_transition_shows_it(
    c: &mut Cockpit,
    e: Event,
    role: RoleId,
    lifecycle: Lifecycle,
    other: Seq<char>,
)
    requires
        call_ensures(Cockpit::apply, (c, &e), ()),
        e.from == Sender::Role(role),
        e.kind == EventKind::Lifecycle(lifecycle),
        old(c)@.rows.dom().contains(role@) ==> old(c)@.rows[role@].role == role@,
    ensures
        final(c)@.rows.dom() == old(c)@.rows.dom().insert(role@),
        lifecycle == Lifecycle::Stopped ==> final(c)@.rows[role@].status == Status::Stopped
            && !live_names(final(c)@).contains(role@),
        lifecycle == Lifecycle::Died ==> final(c)@.rows[role@].status == Status::Dead
            && !live_names(final(c)@).contains(role@),
        lifecycle == Lifecycle::Idle ==> final(c)@.rows[role@].status == Status::Idle
            && live_names(final(c)@).contains(role@),
        lifecycle == Lifecycle::Started || lifecycle == Lifecycle::Restarted || lifecycle
            == Lifecycle::Recovered ==> final(c)@.rows[role@].status == Status::Working
            && live_names(final(c)@).contains(role@),
        lifecycle == Lifecycle::Paused ==> final(c)@.rows[role@].paused,
        lifecycle == Lifecycle::Resumed ==> !final(c)@.rows[role@].paused,
        other != role@ && old(c)@.rows.dom().contains(other) ==> final(c)@.rows[other]
            == old(c)@.rows[other],
        final(c)@.feed == old(c)@.feed && final(c)@.logs == old(c)@.logs,
{
    a_transition_moves_its_role(old(c)@, e, role, lifecycle, other);
}

/// Selecting the next or the previous role moves one row, round at the ends; and the
/// switches change what they are for and nothing else.
pub proof fn each_switch_changes_its_own(
    next: &mut Cockpit,
    prev: &mut Cockpit,
    detail: &mut Cockpit,
    leave: &mut Cockpit,
    clear: &mut Cockpit,
    was: bool,
)
    requires
        call_ensures(Cockpit::select_next, (next,), ()),
        call_ensures(Cockpit::select_prev, (prev,), ()),
        call_ensures(Cockpit::toggle_detail, (detail,), ()),
        call_ensures(Cockpit::leave_detail, (leave,), was),
        call_ensures(Cockpit::clear_filter, (clear,), ()),
    ensures
        old(next)@.names().len() > 0 ==> final(next)@.position() == if old(next)@.position()
            == old(next)@.names().len() - 1 {
            0
        } else {
            old(next)@.position() + 1
        },
        old(prev)@.names().len() > 0 ==> final(prev)@.position() == if old(prev)@.position() == 0 {
            old(prev)@.names().len() - 1
        } else {
            old(prev)@.position() - 1
        },
        old(detail)@.chosen() is Some ==> final(detail)@.detail == !old(detail)@.detail,
        final(detail)@.rows == old(detail)@.rows && final(detail)@.filter == old(detail)@.filter,
        !final(leave)@.detail && was == old(leave)@.detail,
        final(leave)@.rows == old(leave)@.rows && final(leave)@.filter == old(leave)@.filter,
        final(clear)@.filter == FilterView::All,
        final(clear)@.rows == old(clear)@.rows && final(clear)@.detail == old(clear)@.detail,
{
    if old(next)@.names().len() > 0 {
        selecting_goes_round(old(next)@);
    }
    if old(prev)@.names().len() > 0 {
        selecting_goes_round(old(prev)@);
    }
}

/// Seeding shows the snapshots: the standing where the roster gives one, and the last
/// role of each as the snapshot has it. What a role spent is not the roster's to say,
/// nor is the feed.
pub proof fn seeding_shows_the_snapshots(
    c: &mut Cockpit,
    roster: RosterSeed,
    s: &mut Cockpit,
    stats: StatsSeed,
    status: Status,
    label: &str,
)
    requires
        call_ensures(Cockpit::seed_roster, (c, roster), ()),
        call_ensures(Cockpit::seed_stats, (s, stats), ()),
        roster.roles@.len() > 0,
        stats.roles@.len() > 0,
        label@ == roster.roles@.last().liveness@,
        call_ensures(Status::from_liveness, (label,), status),
        ({
            let earlier = old(c)@.roster_roles(roster.roles@.drop_last());
            let role = roster.roles@.last().role@;
            earlier.rows.dom().contains(role) ==> earlier.rows[role].role == role
        }),
        ({
            let earlier = old(s)@.with_stats(stats.roles@.drop_last());
            let role = stats.roles@.last().role@;
            earlier.rows.dom().contains(role) ==> earlier.rows[role].role == role
        }),
    ensures
        ({
            let seed = roster.roles@.last();
            let row = final(c)@.rows[seed.role@];
            &&& final(c)@.rows.dom().contains(seed.role@)
            &&& row.status == status && row.paused == seed.paused
            &&& row.owned_paths.len() == seed.owned_paths@.len()
            &&& final(c)@.feed == old(c)@.feed
        }),
        ({
            let seed = stats.roles@.last();
            let row = final(s)@.rows[seed.role@];
            &&& final(s)@.rows.dom().contains(seed.role@)
            &&& row.tokens == seed.tokens && row.cost_micro_usd == seed.cost_micro_usd
            &&& row.active_secs == seed.active_secs
        }),
{
    let seeds = roster.roles@.drop_last();
    assert(seeds.push(roster.roles@.last()) =~= roster.roles@);
    the_roster_is_shown_as_it_is(
        old(c)@,
        seeds,
        roster.roles@.last(),
        status,
        label,
        roster.roles@.last().role@,
    );
    the_roster_sets_the_standing(old(c)@, roster);
    let others = stats.roles@.drop_last();
    assert(others.push(stats.roles@.last()) =~= stats.roles@);
    stats_are_shown_as_they_are(
        old(s)@,
        others,
        stats.roles@.last(),
        stats.roles@.last().role@,
    );
}

/// The role switch filters the feed to the selected role, or back to all; the channel
/// switch, from the whole feed, filters it to its first channel.
pub proof fn the_filter_switches_filter(role: &mut Cockpit, channel: &mut Cockpit)
    requires
        call_ensures(Cockpit::toggle_role_filter, (role,), ()),
        call_ensures(Cockpit::cycle_channel_filter, (channel,), ()),
    ensures
        old(role)@.chosen() matches Some(row) ==> final(role)@.filter == (if old(role)@.filter
            == FilterView::Role(row.role) {
            FilterView::All
        } else {
            FilterView::Role(row.role)
        }),
        final(role)@.rows == old(role)@.rows && final(role)@.feed == old(role)@.feed,
        old(channel)@.filter == FilterView::All && old(channel)@.channels().len() > 0
            ==> final(channel)@.filter == FilterView::Channel(old(channel)@.channels()[0]),
        old(channel)@.channels().len() == 0 ==> final(channel)@.filter == FilterView::All,
        final(channel)@.rows == old(channel)@.rows && final(channel)@.feed == old(channel)@.feed,
{
}

/// The filter's label tells which filter is on, and no two filters share one.
pub proof fn a_filter_label_tells_the_filter(a: Cockpit, b: Cockpit, label: String)
    requires
        call_ensures(Cockpit::filter_label, (&a,), label),
        call_ensures(Cockpit::filter_label, (&b,), label),
    ensures
        a@.filter == b@.filter,
        a@.filter matches FilterView::Role(role) ==> role.is_suffix_of(label@),
        a@.filter matches FilterView::Channel(channel) ==> channel.is_suffix_of(label@),
{
    reveal_strlit("all");
    reveal_strlit("role:");
    reveal_strlit("channel:");
    lemma_after_label("role:"@, a@.filter);
    lemma_after_label("channel:"@, a@.filter);
    lemma_after_label("role:"@, b@.filter);
    lemma_after_label("channel:"@, b@.filter);
    assert("all"@.len() == 3 && "role:"@.len() == 5 && "channel:"@.len() == 8);
    assert("all"@[0] == 'a' && "role:"@[0] == 'r' && "channel:"@[0] == 'c');
    assert(a@.filter is All ==> label@[0] == 'a');
    assert(a@.filter is Role ==> label@[0] == 'r');
    assert(a@.filter is Channel ==> label@[0] == 'c');
    assert(b@.filter is All ==> label@[0] == 'a');
    assert(b@.filter is Role ==> label@[0] == 'r');
    assert(b@.filter is Channel ==> label@[0] == 'c');
}

/// What stands behind a label is found again behind it.
proof fn lemma_after_label(label: Seq<char>, filter: FilterView)
    ensures
        filter matches FilterView::Role(name) ==> (label + name).skip(label.len() as int) == name
            && name.is_suffix_of(label + name),
        filter matches FilterView::Channel(name) ==> (label + name).skip(label.len() as int) == name
            && name.is_suffix_of(label + name),
{
    if let FilterView::Role(name) = filter {
        assert((label + name).skip(label.len() as int) =~= name);
        text::lemma_pieces(label, name);
    }
    if let FilterView::Channel(name) = filter {
        assert((label + name).skip(label.len() as int) =~= name);
        text::lemma_pieces(label, name);
    }
}

} // verus!
