//! Push notifications on the actionable moments: the stream events that change
//! what the General would do next. Everything else stays quiet.
use vstd::prelude::*;

use crate::event::{Event, EventKind, Lifecycle, MessageKind, StallStatus};
use crate::id::Sender;
use crate::text;

verus! {

/// The most detail text a notification body carries before it is elided.
pub const MAX_DETAIL: usize = 160;

/// An actionable moment: a stream event that changes what the General would do
/// next.
#[derive(Debug, Clone, Copy, PartialEq, Eq, Structural)]
pub enum Moment {
    /// A role asked a question and is waiting on a decision.
    QuestionAsked,
    /// A role died: it crashed or hung past recovery and needs attention.
    RoleDied,
    /// The crew stood down: every role halted and the mission is on hold.
    CrewStoodDown,
    /// The crew is stalled: it is stuck waiting on itself.
    RoleStalled,
}

/// Which moments push a notification, and whether a push sounds the bell.
#[derive(Debug)]
pub struct NotifyPolicy {
    /// Moments the General has muted.
    pub muted: Vec<Moment>,
    /// Whether a push sounds the terminal bell.
    pub sound: bool,
}

/// A rendered push: the title and body shown in the notification and the log
/// line.
#[derive(Debug, PartialEq, Eq)]
pub struct Notification {
    /// The headline: what happened, at a glance.
    pub title: String,
    /// The detail: who, where, and the gist.
    pub body: String,
}

/// The actionable moment that an event is, if it is one.
pub open spec fn moment(event: Event) -> Option<Moment> {
    match event.kind {
        EventKind::Message(message) => if message.kind is Question {
            Some(Moment::QuestionAsked)
        } else {
            None
        },
        EventKind::Lifecycle(Lifecycle::Died) => Some(Moment::RoleDied),
        EventKind::Lifecycle(Lifecycle::StoodDown) => Some(Moment::CrewStoodDown),
        EventKind::Stall(stall) => if stall.status == StallStatus::Detected {
            Some(Moment::RoleStalled)
        } else {
            None
        },
        _ => None,
    }
}

/// The display name of a sender: a role's name, or `the general`.
pub open spec fn sender_display(from: Sender) -> Seq<char> {
    match from {
        Sender::Role(role) => role@,
        Sender::General => "the general"@,
    }
}

/// The trimmed body of a message that carries one.
pub open spec fn body_of(event: Event) -> Option<Seq<char>> {
    match event.kind {
        EventKind::Message(message) => if text::blank(message.body@) {
            None
        } else {
            Some(text::trimmed(message.body@))
        },
        _ => None,
    }
}

/// Text shortened to the most detail a notification carries.
pub open spec fn elided(s: Seq<char>) -> Seq<char> {
    text::clipped(s, MAX_DETAIL as int, "..."@)
}

/// The title and the body of the push for an event at its moment.
pub open spec fn push_text(event: Event, at: Moment) -> (Seq<char>, Seq<char>) {
    let who = sender_display(event.from);
    match at {
        Moment::QuestionAsked => (
            "crew: a question needs you"@,
            who + " asked on "@ + event.channel@ + ": "@ + (match body_of(event) {
                Some(body) => elided(body),
                None => "no detail given"@,
            }),
        ),
        Moment::RoleDied => (
            "crew: "@ + who + " died"@,
            "the "@ + who + " role crashed or hung past recovery; check the roster"@,
        ),
        Moment::CrewStoodDown => (
            "crew: the crew stood down"@,
            "every role halted and the mission is on hold"@,
        ),
        Moment::RoleStalled => (
            "crew: the crew is stalled"@,
            "coordination stall: "@ + (match event.kind {
                EventKind::Stall(stall) => elided(text::trimmed(stall.detail@)),
                _ => "the crew is stuck waiting on itself"@,
            }),
        ),
    }
}

impl NotifyPolicy {
    /// Whether `at` should push a notification under this policy.
    pub open spec fn wanted(self, at: Moment) -> bool {
        !self.muted@.contains(at)
    }

    /// A policy that mutes `muted` and sounds the bell when `sound` is set.
    pub fn new(muted: Vec<Moment>, sound: bool) -> (r: Self)
        ensures
            r.muted == muted,
            r.sound == sound,
    {
        NotifyPolicy { muted, sound }
    }

    /// Whether `at` should push a notification under this policy.
    pub fn wants(&self, at: Moment) -> (r: bool)
        ensures
            r == self.wanted(at),
    {
        let mut i: usize = 0;
        while i < self.muted.len()
            invariant
                i <= self.muted.len(),
                forall|j: int| 0 <= j < i ==> self.muted@[j] != at,
            decreases self.muted.len() - i,
        {
            if self.muted[i] == at {
                return false;
            }
            i = i + 1;
        }
        true
    }
}

/// The notification to push for `event`, or nothing where it is routine or a
/// muted moment.
pub fn notification_for(event: &Event, policy: &NotifyPolicy) -> (r: Option<Notification>)
    ensures
        match moment(*event) {
            Some(at) if policy.wanted(at) => r matches Some(push) && (push.title@, push.body@)
                == push_text(*event, at),
            _ => r is None,
        },
{
    match moment_of(event) {
        Some(at) => {
            if policy.wants(at) {
                Some(render(event, at))
            } else {
                None
            }
        },
        None => None,
    }
}

/// Classifies an event as an actionable moment, or nothing for routine chatter.
pub fn moment_of(event: &Event) -> (r: Option<Moment>)
    ensures
        r == moment(*event),
{
    match &event.kind {
        EventKind::Message(message) => match message.kind {
            MessageKind::Question { .. } => Some(Moment::QuestionAsked),
            _ => None,
        },
        EventKind::Lifecycle(Lifecycle::Died) => Some(Moment::RoleDied),
        EventKind::Lifecycle(Lifecycle::StoodDown) => Some(Moment::CrewStoodDown),
        EventKind::Stall(stall) => {
            if stall.status == StallStatus::Detected {
                Some(Moment::RoleStalled)
            } else {
                None
            }
        },
        _ => None,
    }
}

/// Renders the title and body for `event` at its actionable moment.
pub fn render(event: &Event, at: Moment) -> (r: Notification)
    ensures
        (r.title@, r.body@) == push_text(*event, at),
{
    let who = sender_name(&event.from);
    match at {
        Moment::QuestionAsked => {
            let detail = match message_body(event) {
                Some(body) => elide(body),
                None => "no detail given".to_owned(),
            };
            Notification {
                title: "crew: a question needs you".to_owned(),
                body: who.to_owned().concat(" asked on ").concat(event.channel.as_str()).concat(
                    ": ",
                ).concat(detail.as_str()),
            }
        },
        Moment::RoleDied => Notification {
            title: "crew: ".to_owned().concat(who).concat(" died"),
            body: "the ".to_owned().concat(who).concat(
                " role crashed or hung past recovery; check the roster",
            ),
        },
        Moment::CrewStoodDown => Notification {
            title: "crew: the crew stood down".to_owned(),
            body: "every role halted and the mission is on hold".to_owned(),
        },
        Moment::RoleStalled => {
            let detail = match &event.kind {
                EventKind::Stall(stall) => elide(text::trim(stall.detail.as_str())),
                _ => "the crew is stuck waiting on itself".to_owned(),
            };
            Notification {
                title: "crew: the crew is stalled".to_owned(),
                body: "coordination stall: ".to_owned().concat(detail.as_str()),
            }
        },
    }
}

/// The display name of a sender: a role's name, or `the general` for the human.
fn sender_name(from: &Sender) -> (r: &str)
    ensures
        r@ == sender_display(*from),
{
    match from {
        Sender::Role(role) => role.as_str(),
        Sender::General => "the general",
    }
}

/// The trimmed message body of `event`, if it is a message that carries one.
fn message_body(event: &Event) -> (r: Option<&str>)
    ensures
        text::opt_text(r) == body_of(*event),
{
    match &event.kind {
        EventKind::Message(message) => {
            let body = text::trim(message.body.as_str());
            if body.is_empty() {
                None
            } else {
                Some(body)
            }
        },
        _ => None,
    }
}

/// Shortens `s` to [`MAX_DETAIL`] characters, appending an ellipsis when it is
/// cut.
pub fn elide(s: &str) -> (r: String)
    ensures
        r@ == elided(s@),
{
    text::clip(s, MAX_DETAIL, "...")
}

/// Routine chatter never notifies, whatever the policy: only a question, a
/// death, a stand-down and a detected stall can push.
pub proof fn routine_events_stay_quiet(event: Event)
    ensures
        moment(event) is Some <==> {
            ||| event.kind matches EventKind::Message(message) && message.kind is Question
            ||| event.kind == EventKind::Lifecycle(Lifecycle::Died)
            ||| event.kind == EventKind::Lifecycle(Lifecycle::StoodDown)
            ||| event.kind matches EventKind::Stall(stall) && stall.status == StallStatus::Detected
        },
{
}

/// Elided text is at most the limit and its mark long, and short text is kept.
pub proof fn elision_bounds_the_text(s: Seq<char>)
    ensures
        elided(s).len() <= MAX_DETAIL + 3,
        s.len() <= MAX_DETAIL ==> elided(s) == s,
{
    reveal_strlit("...");
}

/// An event is the moment it is: a question is asked, a role died, the crew stood
/// down, or a stall was detected; and it is pushed exactly where that moment is not
/// muted.
pub proof fn a_moment_is_pushed_unless_muted(
    e: Event,
    policy: NotifyPolicy,
    at: Option<Moment>,
    r: Option<Notification>,
)
    requires
        call_ensures(moment_of, (&e,), at),
        call_ensures(notification_for, (&e, &policy), r),
    ensures
        at == Some(Moment::QuestionAsked) <==> (e.kind matches EventKind::Message(message)
            && message.kind is Question),
        at == Some(Moment::RoleDied) <==> e.kind == EventKind::Lifecycle(Lifecycle::Died),
        at == Some(Moment::CrewStoodDown) <==> e.kind == EventKind::Lifecycle(Lifecycle::StoodDown),
        at == Some(Moment::RoleStalled) <==> (e.kind matches EventKind::Stall(stall) && stall.status
            == StallStatus::Detected),
        r is Some <==> at is Some && forall|i: int|
            0 <= i < policy.muted@.len() ==> #[trigger] policy.muted@[i] != at->0,
{
    if at is Some && policy.muted@.contains(at->0) {
        let i = policy.muted@.index_of(at->0);
        assert(policy.muted@[i] == at->0);
    }
}

/// A push tells who and what: a question its sender, its channel and its words, a
/// death whose it was, and a stall its cause.
pub proof fn a_push_tells_who_and_what(e: Event, policy: NotifyPolicy, push: Notification)
    requires
        call_ensures(notification_for, (&e, &policy), Some(push)),
    ensures
        ({
            let who = match e.from {
                Sender::Role(role) => role@,
                Sender::General => "the general"@,
            };
            &&& e.kind is Message ==> (who + " asked on "@ + e.channel@).is_prefix_of(push.body@)
            &&& (e.kind is Message && text::trimmed(e.kind->Message_0.body@).len() == 0) ==> push.body@
                == who + " asked on "@ + e.channel@ + ": "@ + "no detail given"@
            &&& (e.kind is Message && 0 < text::trimmed(e.kind->Message_0.body@).len() <= 160)
                ==> text::trimmed(e.kind->Message_0.body@).is_suffix_of(push.body@)
            &&& e.kind == EventKind::Lifecycle(Lifecycle::Died) ==> push.title@ == "crew: "@ + who
                + " died"@ && text::mentions(push.body@, who)
            &&& e.kind == EventKind::Lifecycle(Lifecycle::StoodDown) ==> push.title@
                == "crew: the crew stood down"@
            &&& (e.kind is Stall && text::trimmed(e.kind->Stall_0.detail@).len() <= 160)
                ==> text::trimmed(e.kind->Stall_0.detail@).is_suffix_of(push.body@)
            &&& e.kind is Stall ==> push.title@ == "crew: the crew is stalled"@
            &&& e.kind is Message ==> push.title@ == "crew: a question needs you"@
        }),
{
    let who = sender_display(e.from);
    if let EventKind::Message(message) = e.kind {
        let said = match body_of(e) {
            Some(body) => elided(body),
            None => "no detail given"@,
        };
        text::lemma_pieces(who + " asked on "@ + e.channel@, ": "@ + said);
        text::lemma_associative(who + " asked on "@ + e.channel@, ": "@, said);
        text::lemma_pieces(who + " asked on "@ + e.channel@ + ": "@, said);
    }
    if e.kind == EventKind::Lifecycle(Lifecycle::Died) {
        text::lemma_mentions(
            "the "@,
            who,
            " role crashed or hung past recovery; check the roster"@,
        );
    }
    if let EventKind::Stall(stall) = e.kind {
        text::lemma_pieces("coordination stall: "@, elided(text::trimmed(stall.detail@)));
    }
}

} // verus!
