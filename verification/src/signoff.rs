//! Waiting for the General's sign-off: a gated action pauses its role until the
//! General grants or denies it, and silence fails closed.
use vstd::prelude::*;

use crate::approval::ActionKind;
use crate::event::{Event, EventKind, MessageKind};
use crate::id::{MessageId, RoleId, Sender};
use crate::text;

verus! {

/// What came of asking to take a risky action.
#[derive(Debug, PartialEq, Eq)]
pub enum ApprovalOutcome {
    /// The role's rules do not gate the action: it proceeds without asking.
    NotGated,
    /// The General granted it.
    Granted,
    /// The General denied it.
    Denied {
        /// The General's reason, or empty.
        reason: String,
    },
    /// Nobody decided in time: the role must not proceed.
    TimedOut,
}

impl ApprovalOutcome {
    /// Whether the role may take the action.
    pub open spec fn allows(self) -> bool {
        self is NotGated || self is Granted
    }

    /// Whether the role may take the action: it was granted, or needed no
    /// sign-off.
    pub fn may_proceed(&self) -> (r: bool)
        ensures
            r == self.allows(),
    {
        match self {
            ApprovalOutcome::NotGated | ApprovalOutcome::Granted => true,
            ApprovalOutcome::Denied { .. } | ApprovalOutcome::TimedOut => false,
        }
    }

    /// What the role is told: a confirmation where it may proceed, an error
    /// where it may not.
    pub fn told(&self, action: ActionKind) -> (r: Result<String, String>)
        ensures
            match *self {
                ApprovalOutcome::NotGated => r matches Ok(said) && said@ == action.label_text()
                    + " needs no approval"@,
                ApprovalOutcome::Granted => r matches Ok(said) && said@ == action.label_text()
                    + " approved"@,
                ApprovalOutcome::Denied { reason } => r matches Err(why) && why@
                    == action.label_text() + " denied: "@ + reason@,
                ApprovalOutcome::TimedOut => r matches Err(why) && why@ == action.label_text()
                    + " was not decided in time; do not proceed"@,
            },
    {
        let label = action.label().to_owned();
        match self {
            ApprovalOutcome::NotGated => Ok(label.concat(" needs no approval")),
            ApprovalOutcome::Granted => Ok(label.concat(" approved")),
            ApprovalOutcome::Denied { reason } => Err(
                label.concat(" denied: ").concat(reason.as_str()),
            ),
            ApprovalOutcome::TimedOut => Err(
                label.concat(" was not decided in time; do not proceed"),
            ),
        }
    }
}

/// The first event of a log that a predicate holds of.
pub open spec fn first_where(events: Seq<Event>, p: spec_fn(Event) -> bool) -> Option<Event>
    decreases events.len(),
{
    if events.len() == 0 {
        None
    } else if p(events[0]) {
        Some(events[0])
    } else {
        first_where(events.drop_first(), p)
    }
}

/// "is `role`'s request to take `action`" as a predicate.
pub open spec fn asks(
    role: Seq<char>,
    action: Seq<char>,
    detail: Seq<char>,
) -> spec_fn(Event) -> bool {
    |e: Event|
        {
            &&& e.from.role() == Some(role)
            &&& e.kind matches EventKind::Message(message)
            &&& message.kind matches MessageKind::ApprovalRequest { action: label }
            &&& label@ == action
            &&& message.body@ == detail
        }
}

/// "is the General's decision on the request `id`" as a predicate.
pub open spec fn decides(id: MessageId) -> spec_fn(Event) -> bool {
    |e: Event|
        {
            &&& e.from is General
            &&& e.kind matches EventKind::Message(message)
            &&& message.kind matches MessageKind::ApprovalDecision { in_reply_to, .. }
            &&& in_reply_to == id
        }
}

/// A decision: whether the request is granted, and the General's reason.
pub struct Ruling {
    /// Whether the request is granted.
    pub granted: bool,
    /// The reason, or empty.
    pub reason: Seq<char>,
}

/// What a decision says.
pub open spec fn ruling_in(e: Event) -> Ruling {
    let message = e.kind->Message_0;
    Ruling { granted: message.kind->granted, reason: message.body@ }
}

/// A request for sign-off that was posted and waits for its decision.
#[derive(Debug)]
pub struct ApprovalWait {
    /// The role that asked.
    pub role: RoleId,
    /// The action it wants to take.
    pub action: ActionKind,
    /// What it said of the action.
    pub detail: String,
    /// The number of messages the log held before the request was posted.
    pub before: usize,
}

impl ApprovalWait {
    /// The id of the request, once the log holds it.
    pub open spec fn request_id(self, log: Seq<Event>) -> Option<MessageId> {
        if self.before > log.len() {
            None
        } else {
            match first_where(
                log.skip(self.before as int),
                asks(self.role@, self.action.label_text(), self.detail@),
            ) {
                Some(e) => Some(e.kind->Message_0.id),
                None => None,
            }
        }
    }

    /// The General's decision on the request, once the log holds it.
    pub open spec fn ruling(self, log: Seq<Event>) -> Option<Ruling> {
        match self.request_id(log) {
            Some(id) => match first_where(log.skip(self.before as int), decides(id)) {
                Some(e) => Some(ruling_in(e)),
                None => None,
            },
            None => None,
        }
    }

    /// Whether `r` is what the wait comes to.
    pub open spec fn comes_to(
        self,
        log: Seq<Event>,
        expired: bool,
        r: Option<ApprovalOutcome>,
    ) -> bool {
        match self.ruling(log) {
            Some(ruling) => if ruling.granted {
                r == Some(ApprovalOutcome::Granted)
            } else {
                r matches Some(ApprovalOutcome::Denied { reason }) && reason@ == ruling.reason
            },
            None => if expired {
                r == Some(ApprovalOutcome::TimedOut)
            } else {
                r is None
            },
        }
    }

    /// What the wait has come to, given the message log so far and whether its
    /// time is up; nothing where it goes on.
    pub fn observe(&self, log: &[Event], expired: bool) -> (r: Option<ApprovalOutcome>)
        ensures
            self.comes_to(log@, expired, r),
    {
        let undecided = if expired {
            Some(ApprovalOutcome::TimedOut)
        } else {
            None
        };
        if self.before > log.len() {
            return undecided;
        }
        let id = match self.find_request(log) {
            Some(id) => id,
            None => {
                return undecided;
            },
        };
        match find_decision(log, self.before, id) {
            Some((true, _)) => Some(ApprovalOutcome::Granted),
            Some((false, reason)) => Some(ApprovalOutcome::Denied { reason }),
            None => undecided,
        }
    }

    /// The id of the request in the log.
    fn find_request(&self, log: &[Event]) -> (r: Option<MessageId>)
        requires
            self.before <= log.len(),
        ensures
            r == self.request_id(log@),
    {
        let ghost p = asks(self.role@, self.action.label_text(), self.detail@);
        let mut i: usize = self.before;
        while i < log.len()
            invariant
                self.before <= i <= log.len(),
                p == asks(self.role@, self.action.label_text(), self.detail@),
                first_where(log@.skip(self.before as int), p) == first_where(
                    log@.skip(i as int),
                    p,
                ),
            decreases log.len() - i,
        {
            let e = &log[i];
            assert(log@.skip(i as int)[0] == *e);
            assert(log@.skip(i as int).drop_first() =~= log@.skip(i + 1));
            if e.from.is_role(&self.role) {
                if let EventKind::Message(message) = &e.kind {
                    if let MessageKind::ApprovalRequest { action } = &message.kind {
                        if text::same(action.as_str(), self.action.label()) && text::same(
                            message.body.as_str(),
                            self.detail.as_str(),
                        ) {
                            return Some(message.id);
                        }
                    }
                }
            }
            i = i + 1;
        }
        None
    }
}

/// The General's decision on a request, from position `start` of the log on.
fn find_decision(log: &[Event], start: usize, id: MessageId) -> (r: Option<(bool, String)>)
    requires
        start <= log.len(),
    ensures
        match first_where(log@.skip(start as int), decides(id)) {
            Some(e) => r matches Some((granted, reason)) && (Ruling { granted, reason: reason@ })
                == ruling_in(e),
            None => r is None,
        },
{
    let ghost p = decides(id);
    let mut i: usize = start;
    while i < log.len()
        invariant
            start <= i <= log.len(),
            p == decides(id),
            first_where(log@.skip(start as int), p) == first_where(log@.skip(i as int), p),
        decreases log.len() - i,
    {
        let e = &log[i];
        assert(log@.skip(i as int)[0] == *e);
        assert(log@.skip(i as int).drop_first() =~= log@.skip(i + 1));
        if let Sender::General = &e.from {
            if let EventKind::Message(message) = &e.kind {
                if let MessageKind::ApprovalDecision { in_reply_to, granted } = &message.kind {
                    if *in_reply_to == id {
                        return Some((*granted, message.body.clone()));
                    }
                }
            }
        }
        i = i + 1;
    }
    None
}

/// What is found in a log is in it, and the predicate holds of it.
proof fn lemma_found(events: Seq<Event>, p: spec_fn(Event) -> bool)
    ensures
        first_where(events, p) matches Some(e) ==> events.contains(e) && p(e),
    decreases events.len(),
{
    if events.len() > 0 {
        if p(events[0]) {
            assert(events.contains(events[0]));
        } else {
            lemma_found(events.drop_first(), p);
            if let Some(e) = first_where(events.drop_first(), p) {
                let i = choose|i: int|
                    0 <= i < events.drop_first().len() && events.drop_first()[i] == e;
                assert(events[i + 1] == e);
            }
        }
    }
}

/// What is found in a log is found first in a longer one too.
proof fn lemma_found_stays(events: Seq<Event>, more: Seq<Event>, p: spec_fn(Event) -> bool)
    requires
        first_where(events, p) is Some,
    ensures
        first_where(events + more, p) == first_where(events, p),
    decreases events.len(),
{
    assert((events + more)[0] == events[0]);
    if !p(events[0]) {
        lemma_found_stays(events.drop_first(), more, p);
        assert((events + more).drop_first() =~= events.drop_first() + more);
    }
}

/// Only the General lets a gated action proceed: an outcome that allows it rests
/// on a grant by the General, in the log, of a request that the role made.
pub proof fn only_the_general_grants(
    wait: ApprovalWait,
    log: Seq<Event>,
    expired: bool,
    r: Option<ApprovalOutcome>,
)
    requires
        wait.comes_to(log, expired, r),
        r matches Some(outcome) && outcome.allows(),
    ensures
        exists|asked: Event, decided: Event|
            {
                &&& #[trigger] log.contains(asked)
                &&& #[trigger] log.contains(decided)
                &&& asks(wait.role@, wait.action.label_text(), wait.detail@)(asked)
                &&& decides(asked.kind->Message_0.id)(decided)
                &&& ruling_in(decided).granted
            },
{
    let rest = log.skip(wait.before as int);
    let p = asks(wait.role@, wait.action.label_text(), wait.detail@);
    lemma_found(rest, p);
    let asked = first_where(rest, p)->0;
    lemma_found(rest, decides(asked.kind->Message_0.id));
    let decided = first_where(rest, decides(asked.kind->Message_0.id))->0;
    let i = choose|i: int| 0 <= i < rest.len() && rest[i] == asked;
    let j = choose|j: int| 0 <= j < rest.len() && rest[j] == decided;
    assert(log[wait.before + i] == asked);
    assert(log[wait.before + j] == decided);
    assert(log.contains(asked) && log.contains(decided));
}

/// Silence fails closed: while the General has decided nothing on any request,
/// a wait never comes to an outcome that allows the action.
pub proof fn silence_fails_closed(
    wait: ApprovalWait,
    log: Seq<Event>,
    expired: bool,
    r: Option<ApprovalOutcome>,
)
    requires
        wait.comes_to(log, expired, r),
        forall|e: Event, id: MessageId| #[trigger] log.contains(e) ==> !#[trigger] decides(id)(e),
    ensures
        expired ==> r == Some(ApprovalOutcome::TimedOut),
        !expired ==> r is None,
{
    if let Some(id) = wait.request_id(log) {
        let rest = log.skip(wait.before as int);
        lemma_found(rest, decides(id));
        if let Some(e) = first_where(rest, decides(id)) {
            let i = choose|i: int| 0 <= i < rest.len() && rest[i] == e;
            assert(log[wait.before + i] == e);
            assert(log.contains(e));
        }
    }
}

/// A decision stands: once the log holds it, a longer log comes to the same,
/// whether or not the time is up.
pub proof fn a_decision_stands(wait: ApprovalWait, log: Seq<Event>, more: Seq<Event>)
    requires
        wait.ruling(log) is Some,
    ensures
        wait.ruling(log + more) == wait.ruling(log),
{
    let rest = log.skip(wait.before as int);
    let p = asks(wait.role@, wait.action.label_text(), wait.detail@);
    assert((log + more).skip(wait.before as int) =~= rest + more);
    lemma_found_stays(rest, more, p);
    lemma_found_stays(rest, more, decides(wait.request_id(log)->0));
}

/// Whether the event at a place of a log is `role`'s request to take an action,
/// with its detail, under an id.
pub open spec fn requested_at(
    log: Seq<Event>,
    at: int,
    role: RoleId,
    action: ActionKind,
    detail: Seq<char>,
    id: MessageId,
) -> bool {
    &&& log[at].from matches Sender::Role(asker) && asker@ == role@
    &&& log[at].kind matches EventKind::Message(message) && message.id == id && message.body@
        == detail && (message.kind matches MessageKind::ApprovalRequest { action: label }
        && label@ == action.label_text())
}

/// Whether the event at a place of a log is a decision by the General in reply to
/// a message, granting it or not, with a reason.
pub open spec fn decided_at(
    log: Seq<Event>,
    at: int,
    id: MessageId,
    grant: bool,
    reason: Seq<char>,
) -> bool {
    &&& log[at].from == Sender::General
    &&& log[at].kind matches EventKind::Message(message) && message.body@ == reason && (
    message.kind matches MessageKind::ApprovalDecision { in_reply_to, granted } && in_reply_to == id
        && granted == grant)
}

/// What is found in a log stands at some place of it, behind nothing that the
/// predicate holds of; where nothing is found, it holds nowhere.
proof fn lemma_found_at(events: Seq<Event>, p: spec_fn(Event) -> bool) -> (at: int)
    ensures
        first_where(events, p) matches Some(e) ==> 0 <= at < events.len() && events[at] == e && p(e)
            && forall|k: int| 0 <= k < at ==> !p(#[trigger] events[k]),
        first_where(events, p) is None ==> forall|k: int|
            0 <= k < events.len() ==> !p(#[trigger] events[k]),
    decreases events.len(),
{
    if events.len() == 0 || p(events[0]) {
        0
    } else {
        let rest = events.drop_first();
        let at = lemma_found_at(rest, p);
        assert forall|k: int| 0 < k < events.len() implies events[k] == #[trigger] rest[k - 1] by {}
        if first_where(rest, p) is Some {
            assert forall|k: int| 0 <= k < at + 1 implies !p(#[trigger] events[k]) by {
                if k > 0 {
                    assert(!p(rest[k - 1]));
                }
            }
        } else {
            assert forall|k: int| 0 <= k < events.len() implies !p(#[trigger] events[k]) by {
                if k > 0 {
                    assert(!p(rest[k - 1]));
                }
            }
        }
        at + 1
    }
}

/// A decision rests on a request made since the wait began: where a wait comes to
/// a grant or a denial, the log holds, from the wait's place on, the role's own
/// request for that very action and detail, and the General's reply to it, which
/// says so.
pub proof fn a_decision_answers_the_request_made(
    wait: ApprovalWait,
    log: &[Event],
    expired: bool,
    r: Option<ApprovalOutcome>,
)
    requires
        call_ensures(ApprovalWait::observe, (&wait, log, expired), r),
    ensures
        r matches Some(ApprovalOutcome::Granted) ==> exists|i: int, j: int, id: MessageId, why: Seq<char>|
            wait.before <= i < log@.len() && wait.before <= j < log@.len()
                && #[trigger] requested_at(log@, i, wait.role, wait.action, wait.detail@, id)
                && #[trigger] decided_at(log@, j, id, true, why),
        r matches Some(ApprovalOutcome::Denied { reason }) ==> exists|i: int, j: int, id: MessageId|
            wait.before <= i < log@.len() && wait.before <= j < log@.len()
                && #[trigger] requested_at(log@, i, wait.role, wait.action, wait.detail@, id)
                && #[trigger] decided_at(log@, j, id, false, reason@),
        !(r matches Some(ApprovalOutcome::NotGated)),
        r matches Some(ApprovalOutcome::TimedOut) ==> expired,
        r is None ==> !expired,
{
    if wait.before <= log@.len() {
        let rest = log@.skip(wait.before as int);
        let p = asks(wait.role@, wait.action.label_text(), wait.detail@);
        let i = lemma_found_at(rest, p);
        if let Some(asked) = first_where(rest, p) {
            let id = asked.kind->Message_0.id;
            let j = lemma_found_at(rest, decides(id));
            assert(requested_at(
                log@,
                wait.before + i,
                wait.role,
                wait.action,
                wait.detail@,
                id,
            ));
            if let Some(decided) = first_where(rest, decides(id)) {
                assert(log@[wait.before + j] == decided);
                assert(decided_at(
                    log@,
                    wait.before + j,
                    id,
                    decided.kind->Message_0.kind->granted,
                    decided.kind->Message_0.body@,
                ));
            }
        }
    }
}

/// What came before a wait began does not count: while the General has decided
/// nothing from the wait's place on, the wait goes on, and times out once its
/// time is up, whatever the log held before.
pub proof fn an_old_decision_does_not_count(
    wait: ApprovalWait,
    log: &[Event],
    expired: bool,
    r: Option<ApprovalOutcome>,
)
    requires
        call_ensures(ApprovalWait::observe, (&wait, log, expired), r),
        forall|j: int, id: MessageId, grant: bool, why: Seq<char>|
            wait.before <= j < log@.len() ==> !#[trigger] decided_at(log@, j, id, grant, why),
    ensures
        expired ==> r == Some(ApprovalOutcome::TimedOut),
        !expired ==> r is None,
{
    a_decision_answers_the_request_made(wait, log, expired, r);
}

/// A request that the General has decided is settled by the decision: the first
/// request of the role for that action and detail from the wait's place on,
/// together with the General's first reply to it from there on, makes the wait
/// come to what the reply says, whether or not the time is up.
pub proof fn a_decided_request_is_settled(
    wait: ApprovalWait,
    log: &[Event],
    expired: bool,
    r: Option<ApprovalOutcome>,
    i: int,
    j: int,
    id: MessageId,
    grant: bool,
    why: Seq<char>,
)
    requires
        call_ensures(ApprovalWait::observe, (&wait, log, expired), r),
        wait.before <= i < log@.len(),
        wait.before <= j < log@.len(),
        requested_at(log@, i, wait.role, wait.action, wait.detail@, id),
        forall|k: int, other: MessageId|
            wait.before <= k < i ==> !#[trigger] requested_at(
                log@,
                k,
                wait.role,
                wait.action,
                wait.detail@,
                other,
            ),
        decided_at(log@, j, id, grant, why),
        forall|k: int, other: bool, said: Seq<char>|
            wait.before <= k < j ==> !#[trigger] decided_at(log@, k, id, other, said),
    ensures
        grant ==> r == Some(ApprovalOutcome::Granted),
        !grant ==> (r matches Some(ApprovalOutcome::Denied { reason }) && reason@ == why),
{
    let rest = log@.skip(wait.before as int);
    let p = asks(wait.role@, wait.action.label_text(), wait.detail@);
    let a = lemma_found_at(rest, p);
    assert(rest[i - wait.before] == log@[i]);
    assert(p(rest[i - wait.before]));
    let asked = first_where(rest, p)->0;
    assert(requested_at(
        log@,
        wait.before + a,
        wait.role,
        wait.action,
        wait.detail@,
        asked.kind->Message_0.id,
    ));
    assert(wait.before + a == i);
    let b = lemma_found_at(rest, decides(id));
    assert(rest[j - wait.before] == log@[j]);
    assert(decides(id)(rest[j - wait.before]));
    let decided = first_where(rest, decides(id))->0;
    assert(decided_at(
        log@,
        wait.before + b,
        id,
        decided.kind->Message_0.kind->granted,
        decided.kind->Message_0.body@,
    ));
    assert(wait.before + b == j);
}

/// Only a grant, or an action that needed none, lets a role proceed, and the role
/// is told it may exactly then.
pub proof fn a_role_proceeds_only_with_leave(
    outcome: ApprovalOutcome,
    action: ActionKind,
    may: bool,
    told: Result<String, String>,
)
    requires
        call_ensures(ApprovalOutcome::may_proceed, (&outcome,), may),
        call_ensures(ApprovalOutcome::told, (&outcome, action), told),
    ensures
        may <==> outcome == ApprovalOutcome::NotGated || outcome == ApprovalOutcome::Granted,
        told is Ok <==> may,
        outcome matches ApprovalOutcome::Denied { reason } ==> reason@.is_suffix_of(told->Err_0@),
        told matches Ok(said) ==> action.label_text().is_prefix_of(said@),
        told matches Err(said) ==> action.label_text().is_prefix_of(said@),
{
    if let ApprovalOutcome::Denied { reason } = outcome {
        let before = action.label_text() + " denied: "@;
        assert(told->Err_0@ == before + reason@);
    }
}

} // verus!
