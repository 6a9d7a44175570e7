//! The role's inbox: which events reach it, how they read, and the live buffer
//! that a stream fills.
use std::collections::HashSet;

use vstd::prelude::*;
use vstd::std_specs::hash::*;

use crate::channel;
use crate::channel::{Channel, ChannelView};
use crate::event;
use crate::event::{message_kind_label, sender_label, Event, EventKind, MessageKind};
use crate::id;
use crate::id::{MessageId, RoleId};
use crate::number;
use crate::text;
use crate::watch;

verus! {

/// One message addressed to the role, for display.
#[derive(Debug, PartialEq, Eq)]
pub struct InboxItem {
    /// The message's id, so a reply can reference it.
    pub id: String,
    /// Who sent it: a role's id, or `general`.
    pub from: String,
    /// The channel it was sent on.
    pub channel: String,
    /// The message kind (order, question, status, note, ...).
    pub kind: String,
    /// A human summary of the kind's structured fields, empty when it has none.
    pub detail: String,
    /// The message body.
    pub body: String,
    /// Whether this is a directive the role must honor at once.
    pub directive: bool,
}

/// Whether an event is a message addressed to `role` and not sent by it.
pub open spec fn addressed_to(e: Event, role: Seq<char>) -> bool {
    &&& e.kind is Message
    &&& e.from.role() != Some(role)
    &&& ChannelView::named(e.channel@) matches Some(channel) && channel.reaches(role)
}

/// A summary of a kind's structured fields; empty for kinds whose content is
/// only their body.
pub open spec fn detail_text(kind: MessageKind) -> Seq<char> {
    match kind {
        MessageKind::Order { title, scope, owned_paths, acceptance } => title@ + (if scope@.len()
            == 0 {
            Seq::empty()
        } else {
            "; scope: "@ + scope@
        }) + (if owned_paths@.len() == 0 {
            Seq::empty()
        } else {
            "; owns: "@ + text::joined(text::texts(owned_paths@), ", "@)
        }) + (if acceptance@.len() == 0 {
            Seq::empty()
        } else {
            "; acceptance: "@ + acceptance@
        }),
        MessageKind::Question { options } => if options@.len() == 0 {
            Seq::empty()
        } else {
            "options: "@ + text::joined(text::texts(options@), ", "@)
        },
        MessageKind::Artifact { reference, .. } => "artifact: "@ + reference@,
        _ => Seq::empty(),
    }
}

/// A human summary of a kind's structured fields, so the inbox surfaces them.
pub fn kind_detail(kind: &MessageKind) -> (r: String)
    ensures
        r@ == detail_text(*kind),
{
    match kind {
        MessageKind::Order { title, scope, owned_paths, acceptance } => {
            let mut detail = title.clone();
            if !scope.as_str().is_empty() {
                detail.append("; scope: ".to_owned().concat(scope.as_str()).as_str());
            }
            if owned_paths.len() > 0 {
                detail.append(
                    "; owns: ".to_owned().concat(
                        text::join(owned_paths.as_slice(), ", ").as_str(),
                    ).as_str(),
                );
            }
            if !acceptance.as_str().is_empty() {
                detail.append("; acceptance: ".to_owned().concat(acceptance.as_str()).as_str());
            }
            assert(detail@ =~= detail_text(*kind));
            detail
        },
        MessageKind::Question { options } => {
            if options.len() == 0 {
                String::new()
            } else {
                "options: ".to_owned().concat(text::join(options.as_slice(), ", ").as_str())
            }
        },
        MessageKind::Artifact { reference, .. } => "artifact: ".to_owned().concat(
            reference.as_str(),
        ),
        _ => String::new(),
    }
}

/// Whether an item shows a message of an event.
pub open spec fn item_shows(item: InboxItem, e: Event) -> bool {
    &&& e.kind matches EventKind::Message(message)
    &&& item.id@ == id::uuid_text(message.id.0)
    &&& item.from@ == event::sender_text(e.from)
    &&& item.channel@ == e.channel@
    &&& item.kind@ == message.kind.label_text()
    &&& item.detail@ == detail_text(message.kind)
    &&& item.body@ == message.body@
    &&& item.directive == message.kind.directive()
}

/// The event as an inbox item, if it is a message addressed to `role` and not
/// sent by it.
pub fn addressed(e: &Event, role: &RoleId) -> (r: Option<InboxItem>)
    ensures
        match r {
            Some(item) => addressed_to(*e, role@) && item_shows(item, *e),
            None => !addressed_to(*e, role@),
        },
{
    let message = match &e.kind {
        EventKind::Message(message) => message,
        _ => {
            return None;
        },
    };
    if !reaches(e, role) {
        return None;
    }
    Some(
        InboxItem {
            id: message.id.to_string(),
            from: sender_label(&e.from),
            channel: e.channel.as_str().to_owned(),
            kind: message_kind_label(&message.kind).to_owned(),
            detail: kind_detail(&message.kind),
            body: message.body.clone(),
            directive: message.kind.is_directive(),
        },
    )
}

/// Whether an event is on one of the role's channels and not sent by it.
fn reaches(e: &Event, role: &RoleId) -> (r: bool)
    ensures
        r == (e.from.role() != Some(role@) && (ChannelView::named(e.channel@) matches Some(channel)
            && channel.reaches(role@))),
{
    // A role never receives its own message.
    if e.from.is_role(role) {
        return false;
    }
    match Channel::parse(e.channel.as_str()) {
        Some(channel) => channel.addresses(role),
        None => false,
    }
}

/// The message id of `e`, if it is a message addressed to `role` and not sent
/// by it.
pub fn addressed_message_id(e: &Event, role: &RoleId) -> (r: Option<MessageId>)
    ensures
        match r {
            Some(id) => addressed_to(*e, role@) && id == e.kind->Message_0.id,
            None => !addressed_to(*e, role@),
        },
{
    match &e.kind {
        EventKind::Message(message) => {
            if reaches(e, role) {
                Some(message.id)
            } else {
                None
            }
        },
        _ => None,
    }
}

/// "is addressed to `role`" as a predicate.
pub open spec fn for_role(role: Seq<char>) -> spec_fn(Event) -> bool {
    |e: Event| addressed_to(e, role)
}

/// Whether the items show the events, one for one.
pub open spec fn items_show(items: Seq<InboxItem>, events: Seq<Event>) -> bool {
    &&& items.len() == events.len()
    &&& forall|i: int| 0 <= i < items.len() ==> item_shows(#[trigger] items[i], events[i])
}

/// The messages from position `start` on that are addressed to `role`, as inbox
/// items.
pub fn items_from(messages: &[Event], start: usize, role: &RoleId) -> (r: Vec<InboxItem>)
    requires
        start <= messages.len(),
    ensures
        items_show(r@, messages@.skip(start as int).filter(for_role(role@))),
{
    let ghost rest = messages@.skip(start as int);
    let ghost p = for_role(role@);
    let mut out: Vec<InboxItem> = Vec::new();
    let mut i: usize = start;
    proof {
        reveal(Seq::filter);
        assert(rest.take(0).filter(p) =~= Seq::<Event>::empty());
    }
    while i < messages.len()
        invariant
            start <= i <= messages.len(),
            rest == messages@.skip(start as int),
            p == for_role(role@),
            items_show(out@, rest.take(i - start).filter(p)),
        decreases messages.len() - i,
    {
        let ghost so_far = rest.take(i - start).filter(p);
        let ghost e = messages@[i as int];
        proof {
            reveal(Seq::filter);
            let longer = rest.take(i - start + 1);
            assert(longer.drop_last() =~= rest.take(i - start));
            assert(longer.last() == e);
        }
        if let Some(item) = addressed(&messages[i], role) {
            out.push(item);
            assert(rest.take(i - start + 1).filter(p) == so_far.push(e));
            assert(items_show(out@, so_far.push(e)));
        } else {
            assert(rest.take(i - start + 1).filter(p) == so_far);
        }
        i = i + 1;
    }
    assert(rest.take(rest.len() as int) =~= rest);
    out
}

/// A live subscription's buffer: the messages delivered since the last drain,
/// and the place in the stream.
#[derive(Debug)]
pub struct InboxBuffer {
    role: RoleId,
    seen: HashSet<u128>,
    queue: Vec<Event>,
    last_seq: Option<u64>,
}

/// The buffer by what it holds.
#[verifier::ext_equal]
pub struct BufferView {
    /// The role whose inbox it is.
    pub role: Seq<char>,
    /// The ids of the messages the backlog held.
    pub seen: Set<u128>,
    /// The messages delivered since the last drain, oldest first.
    pub queue: Seq<Event>,
    /// The highest sequence seen on the stream.
    pub last_seq: Option<u64>,
}

impl View for InboxBuffer {
    type V = BufferView;

    closed spec fn view(&self) -> BufferView {
        BufferView {
            role: self.role@,
            seen: self.seen@,
            queue: self.queue@,
            last_seq: self.last_seq,
        }
    }
}

/// The ids of a list of messages.
pub open spec fn ids_of(events: Seq<Event>) -> Set<u128> {
    events.map_values(|e: Event| e.kind->Message_0.id.0).to_set()
}

/// The higher of the place in the stream, if there is one, and a sequence.
pub open spec fn higher_seq(place: Option<u64>, seq: u64) -> u64 {
    match place {
        Some(place) if place > seq => place,
        _ => seq,
    }
}

impl BufferView {
    /// Whether the buffer takes an event in: it is a message addressed to the
    /// role that the backlog did not hold.
    pub open spec fn takes(self, e: Event) -> bool {
        addressed_to(e, self.role) && !self.seen.contains(e.kind->Message_0.id.0)
    }

    /// The buffer after a line of the stream, with the event that its payload
    /// was decoded as, if it was.
    pub open spec fn after_line(self, line: Seq<char>, decoded: Option<Event>) -> BufferView {
        if text::after_prefix(line, "id:"@) is Some {
            match watch::cursor_of(line) {
                Some(seq) => BufferView {
                    last_seq: Some(higher_seq(self.last_seq, seq as u64)),
                    ..self
                },
                None => self,
            }
        } else if watch::payload_of(line) is Some {
            match decoded {
                Some(e) if self.takes(e) => BufferView { queue: self.queue.push(e), ..self },
                _ => self,
            }
        } else {
            self
        }
    }

    /// The buffer after a series of lines.
    pub open spec fn after(self, lines: Seq<(Seq<char>, Option<Event>)>) -> BufferView
        decreases lines.len(),
    {
        if lines.len() == 0 {
            self
        } else {
            self.after(lines.drop_last()).after_line(lines.last().0, lines.last().1)
        }
    }
}

impl InboxBuffer {
    /// A buffer seeded from the message log: the messages already addressed to
    /// the role, which a fresh stream does not replay.
    pub fn seeded(role: RoleId, log: Vec<Event>) -> (r: Self)
        ensures
            r@.role == role@,
            r@.queue == log@.filter(for_role(role@)),
            r@.seen == ids_of(log@.filter(for_role(role@))),
            r@.last_seq is None,
    {
        broadcast use group_hash_axioms;

        let ghost p = for_role(role@);
        let mut seen: HashSet<u128> = HashSet::new();
        let mut queue: Vec<Event> = Vec::new();
        proof {
            reveal(Seq::filter);
            assert(log@.take(0).filter(p) =~= Seq::<Event>::empty());
            assert(seen@ =~= ids_of(queue@));
        }
        for e in it: log
            invariant
                it.seq() == log@,
                p == for_role(role@),
                queue@ == log@.take(it.index()).filter(p),
                seen@ == ids_of(queue@),
        {
            proof {
                reveal(Seq::filter);
                let longer = log@.take(it.index() + 1);
                assert(longer.drop_last() =~= log@.take(it.index()));
                assert(longer.last() == e);
            }
            if let Some(id) = addressed_message_id(&e, &role) {
                let ghost before = queue@;
                seen.insert(id.0);
                queue.push(e);
                proof {
                    lemma_ids_push(before, e);
                }
            }
        }
        assert(log@.take(log@.len() as int) =~= log@);
        InboxBuffer { role, seen, queue, last_seq: None }
    }

    /// Applies one line of the stream, with the event that its payload was
    /// decoded as, if it was. An `id:` line raises the place in the stream; a
    /// `data:` line buffers its message unless the backlog already held it.
    /// Returns whether a message was buffered, so the agent can be nudged.
    pub fn receive(&mut self, line: &str, decoded: Option<Event>) -> (r: bool)
        ensures
            final(self)@ == old(self)@.after_line(line@, decoded),
            r == (final(self)@.queue != old(self)@.queue),
    {
        broadcast use group_hash_axioms;

        if text::strip_prefix(line, "id:").is_some() {
            if let Some(seq) = watch::parse_id_line(line) {
                let place: u64 = match self.last_seq {
                    Some(place) if place > seq => place,
                    _ => seq,
                };
                self.last_seq = Some(place);
            }
            return false;
        }
        if watch::data_payload(line).is_none() {
            return false;
        }
        if let Some(e) = decoded {
            if let Some(id) = addressed_message_id(&e, &self.role) {
                if !self.seen.contains(&id.0) {
                    self.queue.push(e);
                    assert(self@.queue.len() == old(self)@.queue.len() + 1);
                    return true;
                }
            }
        }
        false
    }

    /// The sequence to resume after on a reconnect.
    pub fn last_seq(&self) -> (r: Option<u64>)
        ensures
            r == self@.last_seq,
    {
        self.last_seq
    }

    /// The value of the header that resumes the stream after a reconnect.
    pub fn resume_after(&self) -> (r: Option<String>)
        ensures
            match self@.last_seq {
                Some(seq) => r matches Some(header) && header@ == number::decimal(seq as nat),
                None => r is None,
            },
    {
        match self.last_seq {
            Some(seq) => Some(number::decimal_u64(seq)),
            None => None,
        }
    }

    /// Takes every event buffered since the last drain, oldest first.
    pub fn drain(&mut self) -> (r: Vec<Event>)
        ensures
            r@ == old(self)@.queue,
            final(self)@ == (BufferView { queue: Seq::empty(), ..old(self)@ }),
    {
        let mut out: Vec<Event> = Vec::new();
        out.append(&mut self.queue);
        assert(out@ =~= old(self)@.queue);
        assert(self@.queue =~= Seq::empty());
        out
    }
}

proof fn lemma_ids_push(events: Seq<Event>, e: Event)
    ensures
        ids_of(events.push(e)) == ids_of(events).insert(e.kind->Message_0.id.0),
{
    let f = |e: Event| e.kind->Message_0.id.0;
    let a = events.map_values(f);
    let b = events.push(e).map_values(f);
    assert(b =~= a.push(f(e)));
    assert forall|x: u128| b.to_set().contains(x) == a.to_set().insert(f(e)).contains(x) by {
        if b.contains(x) {
            let i = b.index_of(x);
            if i < a.len() {
                assert(a[i] == x);
            }
        }
        if a.contains(x) {
            let i = a.index_of(x);
            assert(b[i] == x);
        }
        assert(b[a.len() as int] == f(e));
    }
    assert(b.to_set() =~= a.to_set().insert(f(e)));
}

/// A role never receives its own message: no event in its inbox was sent by it.
pub proof fn no_self_echo(e: Event, role: Seq<char>)
    requires
        e.from.role() == Some(role),
    ensures
        !addressed_to(e, role),
{
}

/// A message reaches exactly the audience its channel names, its sender left
/// out.
pub proof fn a_message_reaches_its_audience(e: Event, target: ChannelView, role: Seq<char>)
    requires
        e.kind is Message,
        target.well_formed(),
        e.channel@ == target.name(),
    ensures
        addressed_to(e, role) <==> target.reaches(role) && e.from.role() != Some(role),
{
    channel::name_parses_back(target);
}

/// A direct message is point-to-point: it reaches the role it names, unless that
/// role sent it, and no other.
pub proof fn a_direct_message_is_point_to_point(e: Event, to: Seq<char>, role: Seq<char>)
    requires
        e.kind is Message,
        channel::plain_role(to),
        e.channel@ == ChannelView::Direct(to).name(),
    ensures
        addressed_to(e, role) <==> role == to && e.from.role() != Some(to),
{
    a_message_reaches_its_audience(e, ChannelView::Direct(to), role);
}

/// A broadcast reaches every role but its sender.
pub proof fn a_broadcast_reaches_every_other_role(e: Event, role: Seq<char>)
    requires
        e.kind is Message,
        e.channel@ == channel::ALL_UNITS@,
    ensures
        addressed_to(e, role) <==> e.from.role() != Some(role),
{
    a_message_reaches_its_audience(e, ChannelView::AllUnits, role);
}

/// Whatever the stream carries, everything buffered is a message addressed to
/// the role and sent by another.
pub proof fn the_buffer_holds_addressed_messages(
    b: BufferView,
    lines: Seq<(Seq<char>, Option<Event>)>,
)
    requires
        forall|i: int| 0 <= i < b.queue.len() ==> addressed_to(#[trigger] b.queue[i], b.role),
    ensures
        b.after(lines).role == b.role,
        b.after(lines).seen == b.seen,
        forall|i: int|
            0 <= i < b.after(lines).queue.len() ==> addressed_to(
                #[trigger] b.after(lines).queue[i],
                b.role,
            ),
    decreases lines.len(),
{
    if lines.len() > 0 {
        the_buffer_holds_addressed_messages(b, lines.drop_last());
    }
}

/// A message that the backlog held is not delivered a second time by the
/// stream.
pub proof fn the_backlog_is_not_repeated(b: BufferView, line: Seq<char>, e: Event)
    requires
        e.kind is Message,
        b.seen.contains(e.kind->Message_0.id.0),
    ensures
        b.after_line(line, Some(e)).queue == b.queue,
{
}

/// The place in the stream is the highest sequence seen, in whatever order the
/// ids come: none seen is higher, and it is one of those seen, or where the
/// buffer stood before.
pub proof fn the_place_is_the_highest_seen(
    b: BufferView,
    lines: Seq<(Seq<char>, Option<Event>)>,
)
    ensures
        forall|k: int|
            0 <= k < lines.len() && #[trigger] watch::cursor_of(lines[k].0) is Some ==> (b.after(
                lines,
            ).last_seq matches Some(place) && place >= watch::cursor_of(lines[k].0)->0),
        b.last_seq matches Some(start) ==> (b.after(lines).last_seq matches Some(place) && place
            >= start),
        b.after(lines).last_seq matches Some(place) ==> b.last_seq == Some(place) || exists|k: int|
            0 <= k < lines.len() && #[trigger] watch::cursor_of(lines[k].0) == Some(place as nat),
    decreases lines.len(),
{
    if lines.len() > 0 {
        let n = lines.len() - 1;
        let shorter = lines.drop_last();
        the_place_is_the_highest_seen(b, shorter);
        assert forall|k: int|
            0 <= k < lines.len() && #[trigger] watch::cursor_of(
                lines[k].0,
            ) is Some implies (b.after(lines).last_seq matches Some(place) && place
            >= watch::cursor_of(lines[k].0)->0) by {
            if k < n {
                assert(shorter[k] == lines[k]);
            }
        }
        if let Some(place) = b.after(shorter).last_seq {
            if b.last_seq != Some(place) {
                let k = choose|k: int|
                    0 <= k < shorter.len() && #[trigger] watch::cursor_of(shorter[k].0) == Some(
                        place as nat,
                    );
                assert(lines[k] == shorter[k]);
            }
        }
    }
}

/// A message is delivered to whom its channel names, and never to its sender: on
/// `all-units` to everyone, on `@role` to that role, on `a+b` to the two. No other
/// channel delivers anything, and neither does an event that is no message.
pub proof fn a_message_is_delivered_to_whom_it_names(
    e: Event,
    role: RoleId,
    r: Option<InboxItem>,
    a: Seq<char>,
    b: Seq<char>,
)
    requires
        call_ensures(addressed, (&e, &role), r),
    ensures
        ({
            let own = e.from matches id::Sender::Role(sender) && sender@ == role@;
            let on = e.channel@;
            &&& own ==> r is None
            &&& e.kind !is Message ==> r is None
            &&& e.kind is Message && !own && on == "all-units"@ ==> r is Some
            &&& e.kind is Message && !own && channel::names_a_role(a) && on == seq!['@'] + a ==> (
            r is Some <==> role@ == a)
            &&& e.kind is Message && !own && channel::names_a_role(a) && channel::names_a_role(b) && a
                != b && on == a + seq!['+'] + b ==> (r is Some <==> role@ == a || role@ == b)
            &&& r is Some ==> on == "all-units"@ || on == seq!['@'] + role@ || exists|other: Seq<char>|
                on == #[trigger] (role@ + seq!['+'] + other) || on == other + seq!['+'] + role@
        }),
{
    channel::lemma_named(e.channel@, a, b);
    if r is Some {
        match ChannelView::named(e.channel@)->0 {
            ChannelView::AllUnits => {},
            ChannelView::Direct(to) => {},
            ChannelView::Pair(x, y) => {
                let other = if x == role@ {
                    y
                } else {
                    x
                };
                let spelled = role@ + seq!['+'] + other;
                assert(e.channel@ == spelled || e.channel@ == other + seq!['+'] + role@);
            },
        }
    }
}

/// An inbox item shows its message as it was sent: who sent it, on which channel,
/// its body, and whether it must be honored at once.
pub proof fn an_item_shows_its_message(e: Event, role: RoleId, r: Option<InboxItem>)
    requires
        call_ensures(addressed, (&e, &role), r),
    ensures
        r matches Some(item) ==> {
            &&& e.kind matches EventKind::Message(message)
            &&& item.body@ == message.body@
            &&& item.channel@ == e.channel@
            &&& item.id@ == id::uuid_text(message.id.0)
            &&& item.kind@ == message.kind.label_text()
            &&& item.directive <==> message.kind == MessageKind::Redirect || message.kind
                == MessageKind::Belay
            &&& e.from matches id::Sender::Role(sender) ==> item.from@ == sender@
            &&& e.from == id::Sender::General ==> item.from@ == "general"@
            &&& message.kind matches MessageKind::Order { title, acceptance, .. }
                ==> title@.is_prefix_of(item.detail@) && acceptance@.is_suffix_of(item.detail@)
            &&& message.kind matches MessageKind::Artifact { reference, .. }
                ==> reference@.is_suffix_of(item.detail@)
        },
{
    if let Some(item) = r {
        let message = e.kind->Message_0;
        if let MessageKind::Order { title, scope, owned_paths, acceptance } = message.kind {
            assert(item.detail@.subrange(0, title@.len() as int) =~= title@);
            assert(item.detail@.subrange(
                item.detail@.len() - acceptance@.len(),
                item.detail@.len() as int,
            ) =~= acceptance@);
        }
        if let MessageKind::Artifact { reference, .. } = message.kind {
            assert(item.detail@.subrange(
                item.detail@.len() - reference@.len(),
                item.detail@.len() as int,
            ) =~= reference@);
        }
    }
}

/// What a kind's structured fields hold is told: an order's scope, paths and
/// acceptance, and a question's options, wherever there are any.
pub proof fn a_detail_leaves_nothing_out(
    title: String,
    scope: String,
    owned_paths: Vec<String>,
    acceptance: String,
    options: Vec<String>,
    order: String,
    question: String,
)
    requires
        call_ensures(
            kind_detail,
            (&MessageKind::Order { title, scope, owned_paths, acceptance },),
            order,
        ),
        call_ensures(kind_detail, (&MessageKind::Question { options },), question),
    ensures
        order@.len() == title@.len() + (if scope@.len() > 0 {
            "; scope: "@.len() + scope@.len()
        } else {
            0
        }) + (if owned_paths@.len() > 0 {
            "; owns: "@.len() + text::joined(text::texts(owned_paths@), ", "@).len()
        } else {
            0
        }) + (if acceptance@.len() > 0 {
            "; acceptance: "@.len() + acceptance@.len()
        } else {
            0
        }),
        scope@.len() > 0 ==> (title@ + "; scope: "@ + scope@).is_prefix_of(order@),
        options@.len() > 0 ==> question@ == "options: "@ + text::joined(
            text::texts(options@),
            ", "@,
        ),
        options@.len() == 0 ==> question@.len() == 0,
{
    if scope@.len() > 0 {
        let front = title@ + "; scope: "@ + scope@;
        assert(order@.subrange(0, front.len() as int) =~= front);
    }
}

/// A new message on the stream is buffered behind the others: a payload line whose
/// event is addressed to the role and was not in the backlog. Any other line leaves
/// the buffered messages as they were.
pub proof fn a_new_message_is_buffered(b: BufferView, line: Seq<char>, decoded: Option<Event>)
    ensures
        ({
            let fresh = decoded matches Some(e) && addressed_to(e, b.role) && !b.seen.contains(
                e.kind->Message_0.id.0,
            );
            let payload = "data:"@.is_prefix_of(line) && !"id:"@.is_prefix_of(line);
            &&& payload && fresh ==> b.after_line(line, decoded).queue == b.queue.push(decoded->0)
            &&& !(payload && fresh) ==> b.after_line(line, decoded).queue == b.queue
            &&& b.after_line(line, decoded).seen == b.seen
            &&& b.after_line(line, decoded).role == b.role
            &&& payload ==> b.after_line(line, decoded).last_seq == b.last_seq
        }),
{
}

/// The stream's place rises with its ids: an `id:` line with a number gives the
/// place at least that number, and never lowers it.
pub proof fn an_id_line_raises_the_place(b: BufferView, line: Seq<char>, decoded: Option<Event>)
    requires
        watch::cursor_of(line) is Some,
    ensures
        b.after_line(line, decoded).last_seq == Some(
            if b.last_seq is Some && b.last_seq->0 > watch::cursor_of(line)->0 {
                b.last_seq->0
            } else {
                watch::cursor_of(line)->0 as u64
            },
        ),
{
}

/// A read leaves out no message that is addressed to the role: each from the start on
/// is shown by an item, in the order of the log.
pub proof fn no_addressed_message_is_left_out(
    messages: &[Event],
    start: usize,
    role: RoleId,
    items: Vec<InboxItem>,
    at: int,
)
    requires
        start <= messages@.len(),
        call_ensures(items_from, (messages, start, &role), items),
        start <= at < messages@.len(),
        for_role(role@)(messages@[at]),
    ensures
        exists|i: int| 0 <= i < items@.len() && item_shows(#[trigger] items@[i], messages@[at]),
{
    let rest = messages@.skip(start as int);
    let shown = rest.filter(for_role(role@));
    assert(rest[at - start] == messages@[at]);
    rest.lemma_filter_contains(for_role(role@), at - start);
    let i = shown.index_of(messages@[at]);
    assert(item_shows(items@[i], shown[i]));
}

/// A read shows nothing but messages addressed to the role, from the start on.
pub proof fn only_addressed_messages_are_shown(
    messages: &[Event],
    start: usize,
    role: RoleId,
    items: Vec<InboxItem>,
    i: int,
) -> (at: int)
    requires
        start <= messages@.len(),
        call_ensures(items_from, (messages, start, &role), items),
        0 <= i < items@.len(),
    ensures
        start <= at < messages@.len(),
        item_shows(items@[i], messages@[at]),
        for_role(role@)(messages@[at]),
{
    let rest = messages@.skip(start as int);
    let shown = rest.filter(for_role(role@));
    assert(item_shows(items@[i], shown[i]));
    assert(shown.contains(shown[i]));
    rest.lemma_filter_contains_rev(for_role(role@), shown[i]);
    rest.lemma_filter_pred(for_role(role@), i);
    let k = rest.index_of(shown[i]);
    assert(rest[k] == messages@[k + start]);
    k + start
}

/// Receiving a line buffers the new message it carries, and says so; draining hands out
/// what was buffered, and leaves nothing.
pub proof fn what_is_received_is_drained(
    b: &mut InboxBuffer,
    line: &str,
    decoded: Option<Event>,
    nudged: bool,
    d: &mut InboxBuffer,
    out: Vec<Event>,
)
    requires
        call_ensures(InboxBuffer::receive, (b, line, decoded), nudged),
        call_ensures(InboxBuffer::drain, (d,), out),
    ensures
        ({
            let fresh = decoded matches Some(e) && addressed_to(e, old(b)@.role)
                && !old(b)@.seen.contains(e.kind->Message_0.id.0);
            let payload = "data:"@.is_prefix_of(line@) && !"id:"@.is_prefix_of(line@);
            &&& payload && fresh ==> nudged && final(b)@.queue == old(b)@.queue.push(decoded->0)
            &&& !(payload && fresh) ==> !nudged && final(b)@.queue == old(b)@.queue
        }),
        out@ == old(d)@.queue,
        final(d)@.queue.len() == 0 && final(d)@.seen == old(d)@.seen,
{
    a_new_message_is_buffered(old(b)@, line@, decoded);
    if decoded is Some {
        assert(old(b)@.queue.push(decoded->0).len() == old(b)@.queue.len() + 1);
    }
}

} // verus!
