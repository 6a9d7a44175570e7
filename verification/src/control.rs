//! The General's sends: the free-form brief, the steering directives, the
//! direct override, and the answers to approval requests.
//!
//! A command is planned as [`Orders`]: the messages to post, in order, and what
//! to say once all of them have been accepted. [`posted`] reads the broker's
//! reply to each.
use vstd::prelude::*;

use crate::base::broker_error;
use crate::card::DEFAULT_COMMANDER;
use crate::channel::{Channel, ChannelView};
use crate::client;
use crate::client::{Reply, Request, UNROUTABLE};
use crate::id::RoleId;
use crate::json;
use crate::json::{Fields, Items, Json, JsonView};
use crate::number;
use crate::text;

verus! {

/// A message to post.
#[derive(Debug, PartialEq, Eq)]
pub struct Sending {
    /// The post.
    pub request: Request,
    /// What it is, for a refusal.
    pub what: String,
}

impl Sending {
    /// Whether this posts `payload` to a channel, as `what`.
    pub open spec fn goes(self, channel: ChannelView, payload: JsonView, what: Seq<char>) -> bool {
        self.request.posts(client::messages_path(channel.name()), payload) && self.what@ == what
    }
}

/// What a command does: post some messages in order, then end with a
/// confirmation or an error.
#[derive(Debug, PartialEq, Eq)]
pub struct Orders {
    /// The messages to post.
    pub sends: Vec<Sending>,
    /// What to say once all of them have been accepted.
    pub end: Result<String, String>,
}

impl Orders {
    /// Whether this posts one message and confirms it.
    pub open spec fn posts_one(
        self,
        channel: ChannelView,
        payload: JsonView,
        what: Seq<char>,
        saying: Seq<char>,
    ) -> bool {
        &&& self.sends@.len() == 1
        &&& self.sends@[0].goes(channel, payload, what)
        &&& self.end matches Ok(done)
        &&& done@ == saying
    }
}

/// Whether a command is refused with a text.
pub open spec fn refused(r: Result<Orders, String>, why: Seq<char>) -> bool {
    r matches Err(refusal) && refusal@ == why
}

/// The sender field of a message from the General.
pub open spec fn from_general() -> JsonView {
    JsonView::Object(seq![client::says("kind"@, "general"@)])
}

/// A message of the General that is only its body.
pub open spec fn general_payload(kind: Seq<char>, body: Seq<char>) -> JsonView {
    JsonView::Object(
        seq![
            client::member("from"@, from_general()),
            client::says("kind"@, kind),
            client::says("body"@, body),
        ],
    )
}

/// A direct order of the General.
pub open spec fn order_payload(
    title: Seq<char>,
    scope: Seq<char>,
    acceptance: Seq<char>,
) -> JsonView {
    JsonView::Object(
        seq![
            client::member("from"@, from_general()),
            client::says("kind"@, "order"@),
            client::says("title"@, title),
            client::says("scope"@, scope),
            client::member("owned_paths"@, JsonView::Array(Seq::empty())),
            client::says("acceptance"@, acceptance),
        ],
    )
}

/// The General's answer to an approval request.
pub open spec fn decision_payload(request: Seq<char>, granted: bool, reason: Seq<char>) -> JsonView {
    JsonView::Object(
        seq![
            client::member("from"@, from_general()),
            client::says("kind"@, "approval_decision"@),
            client::says("in_reply_to"@, request),
            client::member("granted"@, JsonView::Bool(granted)),
            client::says("body"@, reason),
        ],
    )
}

/// A role name without outer white space and leading `@`s.
pub open spec fn bare_role(role: Seq<char>) -> Seq<char> {
    text::drop_run(text::trimmed(role), text::only('@'))
}

/// The commander to address by default: the given name, else the conventional
/// one.
pub open spec fn commander_named(name: Option<Seq<char>>) -> Seq<char> {
    match ChannelView::given(name) {
        Some(name) => bare_role(name),
        None => DEFAULT_COMMANDER@,
    }
}

/// What a name that is no single role is told.
pub open spec fn not_a_role(role: Seq<char>, verb: Seq<char>) -> Seq<char> {
    "`"@ + role + "` is not a role to "@ + verb + "; name a single specialist"@
}

/// The note that informs the commander of a direct order.
pub open spec fn notice_text(role: Seq<char>, order: Seq<char>) -> Seq<char> {
    "Direct order from the General to "@ + role + ": "@ + order + NOTICE@
}

/// What the commander is told of a direct order, after the order.
pub const NOTICE: &'static str =
    ". You are informed, not bypassed: adjust your plan around it.";

/// Strips a leading `@` and surrounding whitespace from a role name.
pub fn plain_role(role: &str) -> (r: String)
    ensures
        r@ == bare_role(role@),
{
    text::trim_start_char(text::trim(role), '@').to_owned()
}

/// The commander to address by default: the given name if any, else the
/// conventional `commander`, with a leading `@` and whitespace stripped.
pub fn default_commander(name: Option<&str>) -> (r: String)
    ensures
        r@ == commander_named(text::opt_text(name)),
{
    match crate::channel::given_name(name) {
        Some(name) => plain_role(name),
        None => DEFAULT_COMMANDER.to_owned(),
    }
}

/// The direct channel for `role`, or an error naming what the caller wanted to
/// do.
pub fn role_channel(role: &str, verb: &str) -> (r: Result<Channel, String>)
    ensures
        match ChannelView::direct_to(role@) {
            Some(direct) => r matches Ok(channel) && channel@ == direct,
            None => r matches Err(why) && why@ == not_a_role(role@, verb@),
        },
{
    let name = "@".to_owned().concat(role);
    proof {
        reveal_strlit("@");
        reveal_strlit("all-units");
        assert(name@[0] == '@');
        assert("all-units"@[0] == 'a');
        assert(name@ != "all-units"@);
        assert(seq!['@'] =~= name@.subrange(0, 1));
        assert(name@.skip(1) =~= role@);
        assert(text::after_prefix(name@, seq!['@']) == Some(role@));
    }
    match Channel::parse(name.as_str()) {
        Some(Channel::Direct(role)) => Ok(Channel::Direct(role)),
        _ => Err(
            "`".to_owned().concat(role).concat("` is not a role to ").concat(verb).concat(
                "; name a single specialist",
            ),
        ),
    }
}

/// Resolves a brief's target: `to` a role, else `channel` a name, else the
/// commander.
pub fn brief_target(to: Option<&str>, channel: Option<&str>, commander: Option<&str>) -> (r: Result<
    Channel,
    String,
>)
    ensures
        match ChannelView::addressed(
            text::opt_text(to),
            text::opt_text(channel),
            commander_named(text::opt_text(commander)),
        ) {
            Some(target) => r matches Ok(channel) && channel@ == target,
            None => r matches Err(why) && why@ == UNROUTABLE@,
        },
{
    let commander = RoleId::new(default_commander(commander).as_str());
    match Channel::resolve(to, channel, &commander) {
        Some(target) => Ok(target),
        None => Err(UNROUTABLE.to_owned()),
    }
}

/// The note that informs the commander of a direct order, so the override is
/// not silent.
pub fn commander_notice(role: &str, order: &str) -> (r: String)
    ensures
        r@ == notice_text(role@, order@),
{
    "Direct order from the General to ".to_owned().concat(role).concat(": ").concat(order).concat(
        NOTICE,
    )
}

/// The sender field of a message from the General.
fn general_sender() -> (r: Json)
    ensures
        r@ == from_general(),
{
    let sender = Fields::new().with("kind", Json::text("general")).build();
    assert(sender@->Object_0 =~= from_general()->Object_0);
    sender
}

/// A message of the General that is only its body.
fn general_message(kind: &str, body: &str) -> (r: Json)
    ensures
        r@ == general_payload(kind@, body@),
{
    let message = Fields::new().with("from", general_sender()).with("kind", Json::text(kind)).with(
        "body",
        Json::text(body),
    ).build();
    assert(message@->Object_0 =~= general_payload(kind@, body@)->Object_0);
    message
}

/// A post of `body` to a channel, as `what`.
fn sending(channel: &Channel, body: Json, what: &str) -> (r: Sending)
    ensures
        r.goes(channel@, body@, what@),
{
    let path = "/channels/".to_owned().concat(channel.name().as_str()).concat("/messages");
    Sending { request: Request::Post { path, body }, what: what.to_owned() }
}

/// One message and its confirmation.
fn one(sending: Sending, done: String) -> (r: Orders)
    ensures
        r.sends@ == seq![sending],
        r.end == Ok::<String, String>(done),
{
    let mut sends: Vec<Sending> = Vec::new();
    sends.push(sending);
    assert(sends@ =~= seq![sending]);
    Orders { sends, end: Ok(done) }
}

/// Briefs the crew as the General: a free-form note to the commander by
/// default, a named role, or a channel.
pub fn brief(to: Option<&str>, channel: Option<&str>, commander: Option<&str>, body: &str) -> (r:
    Result<Orders, String>)
    ensures
        match ChannelView::addressed(
            text::opt_text(to),
            text::opt_text(channel),
            commander_named(text::opt_text(commander)),
        ) {
            Some(target) => r matches Ok(orders) && orders.posts_one(
                target,
                general_payload("note"@, body@),
                "brief"@,
                "briefed "@ + target.name(),
            ),
            None => refused(r, UNROUTABLE@),
        },
{
    match brief_target(to, channel, commander) {
        Ok(target) => {
            let sending = sending(&target, general_message("note", body), "brief");
            Ok(one(sending, "briefed ".to_owned().concat(target.name().as_str())))
        },
        Err(why) => Err(why),
    }
}

/// What a directive to `role` does.
pub open spec fn directive(
    role: Seq<char>,
    kind: Seq<char>,
    body: Seq<char>,
    r: Result<Orders, String>,
) -> bool {
    match ChannelView::direct_to(bare_role(role)) {
        Some(target) => r matches Ok(orders) && orders.posts_one(
            target,
            general_payload(kind, body),
            kind,
            kind + " sent to "@ + bare_role(role),
        ),
        None => refused(r, not_a_role(bare_role(role), "steer"@)),
    }
}

/// Posts a directive of the General to a role's direct channel.
fn direct(role: &str, kind: &str, body: &str) -> (r: Result<Orders, String>)
    ensures
        directive(role@, kind@, body@, r),
{
    let role = plain_role(role);
    match role_channel(role.as_str(), "steer") {
        Ok(target) => {
            let sending = sending(&target, general_message(kind, body), kind);
            Ok(one(sending, kind.to_owned().concat(" sent to ").concat(role.as_str())))
        },
        Err(why) => Err(why),
    }
}

/// Steers `role` mid-task without stopping it: the General's `redirect`.
pub fn redirect(role: &str, message: &str) -> (r: Result<Orders, String>)
    ensures
        directive(role@, "redirect"@, message@, r),
{
    direct(role, "redirect", message)
}

/// Halts `role`'s current work and re-tasks it: the General's `belay`.
pub fn belay(role: &str, order: &str) -> (r: Result<Orders, String>)
    ensures
        directive(role@, "belay"@, order@, r),
{
    direct(role, "belay", order)
}

/// What a direct order to `role` does: order the role, and inform the commander
/// unless it is the one being ordered.
pub open spec fn commanded(
    role: Seq<char>,
    order: Seq<char>,
    scope: Seq<char>,
    acceptance: Seq<char>,
    commander: Seq<char>,
    r: Result<Orders, String>,
) -> bool {
    match ChannelView::direct_to(role) {
        None => refused(r, not_a_role(role, "command"@)),
        Some(target) => {
            &&& r is Ok
            &&& r->Ok_0.sends@.len() >= 1
            &&& r->Ok_0.sends@[0].goes(target, order_payload(order, scope, acceptance), "order"@)
            &&& if text::lower(role) == text::lower(commander) {
                &&& r->Ok_0.sends@.len() == 1
                &&& r->Ok_0.end matches Ok(done)
                &&& done@ == "ordered "@ + role + " directly"@
            } else {
                match ChannelView::direct_to(commander) {
                    Some(informed) => {
                        &&& r->Ok_0.sends@.len() == 2
                        &&& r->Ok_0.sends@[1].goes(
                            informed,
                            general_payload("note"@, notice_text(role, order)),
                            "commander notice"@,
                        )
                        &&& r->Ok_0.end matches Ok(done)
                        &&& done@ == "ordered "@ + role + " directly; informed "@ + commander
                    },
                    None => {
                        &&& r->Ok_0.sends@.len() == 1
                        &&& r->Ok_0.end matches Err(why)
                        &&& why@ == not_a_role(commander, "inform"@)
                    },
                }
            }
        },
    }
}

/// A text, or nothing in place of an absent one.
pub open spec fn or_empty(o: Option<Seq<char>>) -> Seq<char> {
    match o {
        Some(s) => s,
        None => ""@,
    }
}

/// A text, or nothing in place of an absent one.
fn text_or_empty<'a>(o: Option<&'a str>) -> (r: &'a str)
    ensures
        r@ == or_empty(text::opt_text(o)),
{
    match o {
        Some(s) => s,
        None => "",
    }
}

/// Commands `role` directly, bypassing the commander's fan-out, and informs the
/// commander so the override is visible rather than silent.
pub fn command(
    role: &str,
    order: &str,
    scope: Option<&str>,
    acceptance: Option<&str>,
    commander: Option<&str>,
) -> (r: Result<Orders, String>)
    ensures
        commanded(
            bare_role(role@),
            order@,
            or_empty(text::opt_text(scope)),
            or_empty(text::opt_text(acceptance)),
            commander_named(text::opt_text(commander)),
            r,
        ),
{
    let role = plain_role(role);
    let target = match role_channel(role.as_str(), "command") {
        Ok(target) => target,
        Err(why) => {
            return Err(why);
        },
    };
    let commander = default_commander(commander);
    let scope = text_or_empty(scope);
    let acceptance = text_or_empty(acceptance);

    // The direct order to the specialist: the General taking the commander's
    // ordering role.
    let payload = Fields::new().with("from", general_sender()).with(
        "kind",
        Json::text("order"),
    ).with("title", Json::text(order)).with("scope", Json::text(scope)).with(
        "owned_paths",
        Items::new().build(),
    ).with("acceptance", Json::text(acceptance)).build();
    assert(payload@->Object_0 =~= order_payload(order@, scope@, acceptance@)->Object_0);
    let mut sends: Vec<Sending> = Vec::new();
    sends.push(sending(&target, payload, "order"));

    // Inform the commander, unless it is the one being commanded.
    if text::same(text::to_lower(role.as_str()).as_str(), text::to_lower(commander.as_str()).as_str()) {
        let done = "ordered ".to_owned().concat(role.as_str()).concat(" directly");
        return Ok(Orders { sends, end: Ok(done) });
    }
    match role_channel(commander.as_str(), "inform") {
        Ok(informed) => {
            let notice = general_message(
                "note",
                commander_notice(role.as_str(), order).as_str(),
            );
            sends.push(sending(&informed, notice, "commander notice"));
            let done = "ordered ".to_owned().concat(role.as_str()).concat(
                " directly; informed ",
            ).concat(commander.as_str());
            Ok(Orders { sends, end: Ok(done) })
        },
        Err(why) => Ok(Orders { sends, end: Err(why) }),
    }
}

/// The message that an event of the log carries.
pub open spec fn message_of(event: JsonView) -> JsonView {
    event.at("kind"@).at("data"@)
}

/// Whether an event is a message of some kind.
pub open spec fn is_message(event: JsonView, kind: Seq<char>) -> bool {
    message_of(event).at("kind"@).text() == Some(kind)
}

/// Whether an event is the approval request with an id.
pub open spec fn requests(event: JsonView, id: Seq<char>) -> bool {
    is_message(event, "approval_request"@) && message_of(event).at("id"@).text() == Some(id)
}

/// Whether some event of the log decides the request with an id.
pub open spec fn decided(events: Seq<JsonView>, id: Seq<char>) -> bool {
    exists|i: int|
        0 <= i < events.len() && is_message(#[trigger] events[i], "approval_decision"@)
            && message_of(events[i]).at("in_reply_to"@).text() == Some(id)
}

/// A string member, or what stands for it.
pub open spec fn text_or(value: JsonView, key: Seq<char>, other: Seq<char>) -> Seq<char> {
    match value.at(key).text() {
        Some(s) => s,
        None => other,
    }
}

/// "is an approval request that nothing decides" as a predicate.
pub open spec fn awaits(events: Seq<JsonView>) -> spec_fn(JsonView) -> bool {
    |event: JsonView|
        is_message(event, "approval_request"@) && !decided(
            events,
            text_or(message_of(event), "id"@, ""@),
        )
}

/// The approval requests still awaiting a decision.
pub open spec fn pending(events: Seq<JsonView>) -> Seq<JsonView> {
    events.filter(awaits(events))
}

/// A pending request as the General reads it.
pub open spec fn pending_lines(event: JsonView) -> Seq<char> {
    let data = message_of(event);
    let id = text_or(data, "id"@, "?"@);
    "\n  "@ + id + "  "@ + text_or(event.at("from"@), "id"@, "?"@) + " wants to "@ + text_or(
        data,
        "action"@,
        "?"@,
    ) + ": "@ + text_or(data, "body"@, ""@) + "\n      approve: crew approve "@ + id
        + "   deny: crew approve "@ + id + " --deny"@
}

/// The pending requests as the General reads them.
pub open spec fn all_pending_lines(events: Seq<JsonView>) -> Seq<char>
    decreases events.len(),
{
    if events.len() == 0 {
        Seq::empty()
    } else {
        all_pending_lines(events.drop_last()) + pending_lines(events.last())
    }
}

/// The list of pending requests.
pub open spec fn pending_text(events: Seq<JsonView>) -> Seq<char> {
    let waiting = pending(events);
    if waiting.len() == 0 {
        "No pending approval requests."@
    } else {
        number::decimal(waiting.len()) + " pending approval request(s):"@ + all_pending_lines(
            waiting,
        )
    }
}

/// The message that an event of the log carries.
fn event_message(event: &Json) -> (r: Option<&Json>)
    ensures
        match r {
            Some(message) => message@ == message_of(event@),
            None => message_of(event@) is Null,
        },
{
    match event.get("kind") {
        Some(kind) => kind.get("data"),
        None => None,
    }
}

/// A string member of an event's message.
fn message_text<'a>(event: &'a Json, key: &str) -> (r: Option<&'a str>)
    ensures
        text::opt_text(r) == message_of(event@).at(key@).text(),
{
    match event_message(event) {
        Some(message) => message.str_at(key),
        None => None,
    }
}

/// Whether an event is a message of some kind.
fn has_kind(event: &Json, kind: &str) -> (r: bool)
    ensures
        r == is_message(event@, kind@),
{
    match message_text(event, "kind") {
        Some(found) => text::same(found, kind),
        None => false,
    }
}

/// Whether some event of the log decides the request with an id.
fn is_decided(events: &[Json], id: &str) -> (r: bool)
    ensures
        r == decided(json::items_of(events@), id@),
{
    let ghost all = json::items_of(events@);
    let mut i: usize = 0;
    while i < events.len()
        invariant
            i <= events.len(),
            all == json::items_of(events@),
            forall|j: int|
                0 <= j < i ==> !(is_message(#[trigger] all[j], "approval_decision"@) && message_of(
                    all[j],
                ).at("in_reply_to"@).text() == Some(id@)),
        decreases events.len() - i,
    {
        assert(all[i as int] == events@[i as int]@);
        if has_kind(&events[i], "approval_decision") {
            if let Some(found) = message_text(&events[i], "in_reply_to") {
                if text::same(found, id) {
                    return true;
                }
            }
        }
        i = i + 1;
    }
    false
}

/// A string, or `other` in its place.
fn or_other<'a>(o: Option<&'a str>, other: &'a str) -> (r: &'a str)
    ensures
        r@ == (match o {
            Some(s) => s@,
            None => other@,
        }),
{
    match o {
        Some(s) => s,
        None => other,
    }
}

/// One pending request as the General reads it.
fn pending_entry(event: &Json) -> (r: String)
    ensures
        r@ == pending_lines(event@),
{
    let id = or_other(message_text(event, "id"), "?");
    let role = match event.get("from") {
        Some(from) => or_other(from.str_at("id"), "?"),
        None => "?",
    };
    let action = or_other(message_text(event, "action"), "?");
    let detail = or_other(message_text(event, "body"), "");
    "\n  ".to_owned().concat(id).concat("  ").concat(role).concat(" wants to ").concat(
        action,
    ).concat(": ").concat(detail).concat("\n      approve: crew approve ").concat(id).concat(
        "   deny: crew approve ",
    ).concat(id).concat(" --deny")
}

/// The approval requests still awaiting a decision, as the General reads them,
/// given the events of the log.
pub fn pending_approvals(events: &[Json]) -> (r: String)
    ensures
        r@ == pending_text(json::items_of(events@)),
{
    let ghost all = json::items_of(events@);
    let ghost p = awaits(all);
    let mut lines = String::new();
    let mut count: usize = 0;
    let mut i: usize = 0;
    proof {
        reveal(Seq::filter);
        assert(all.take(0).filter(p) =~= Seq::<JsonView>::empty());
    }
    while i < events.len()
        invariant
            i <= events.len(),
            all == json::items_of(events@),
            p == awaits(all),
            count <= i,
            count == all.take(i as int).filter(p).len(),
            lines@ == all_pending_lines(all.take(i as int).filter(p)),
        decreases events.len() - i,
    {
        let ghost so_far = all.take(i as int).filter(p);
        proof {
            reveal(Seq::filter);
            let longer = all.take(i + 1);
            assert(longer.drop_last() =~= all.take(i as int));
            assert(longer.last() == events@[i as int]@);
        }
        if has_kind(&events[i], "approval_request") {
            let id = or_other(message_text(&events[i], "id"), "");
            if !is_decided(events, id) {
                let entry = pending_entry(&events[i]);
                lines.append(entry.as_str());
                count = count + 1;
                proof {
                    let longer = all.take(i + 1).filter(p);
                    assert(longer == so_far.push(events@[i as int]@));
                    assert(longer.drop_last() =~= so_far);
                }
            }
        }
        i = i + 1;
    }
    assert(all.take(all.len() as int) =~= all);
    if count == 0 {
        return "No pending approval requests.".to_owned();
    }
    number::decimal_usize(count).concat(" pending approval request(s):").concat(lines.as_str())
}

/// The events of a history read; none where it holds no list of them.
pub fn history_events(history: &Json) -> (r: Option<&Vec<Json>>)
    ensures
        match r {
            Some(events) => history@.at("events"@) == JsonView::Array(json::items_of(events@)),
            None => history@.at("events"@) !is Array,
        },
{
    match history.get("events") {
        Some(events) => events.as_array(),
        None => None,
    }
}

/// The approval requests still awaiting a decision, as the General reads them,
/// given the text of a history read.
pub fn approvals(reply: &str) -> (r: Result<String, String>)
    ensures
        match json::json_parse(reply@) {
            Some(history) => r matches Ok(shown) && shown@ == pending_text(
                history.at("events"@).items(),
            ),
            None => r matches Err(why) && why@ == "could not parse the broker response"@,
        },
{
    match json::parse(reply) {
        Some(history) => match history_events(&history) {
            Some(events) => Ok(pending_approvals(events.as_slice())),
            None => {
                let none: Vec<Json> = Vec::new();
                assert(json::items_of(none@) =~= Seq::empty());
                Ok(pending_approvals(none.as_slice()))
            },
        },
        None => Err("could not parse the broker response".to_owned()),
    }
}

/// The first event that requests an approval by an id.
pub open spec fn first_request(events: Seq<JsonView>, id: Seq<char>) -> Option<JsonView>
    decreases events.len(),
{
    if events.len() == 0 {
        None
    } else if requests(events[0], id) {
        Some(events[0])
    } else {
        first_request(events.drop_first(), id)
    }
}

/// Skipping other events does not change which request is first.
proof fn lemma_first_request(events: Seq<JsonView>, id: Seq<char>, n: int)
    requires
        0 <= n <= events.len(),
        forall|i: int| 0 <= i < n ==> !requests(#[trigger] events[i], id),
    ensures
        first_request(events, id) == first_request(events.skip(n), id),
    decreases n,
{
    if n > 0 {
        lemma_first_request(events, id, n - 1);
        let rest = events.skip(n - 1);
        assert(rest[0] == events[n - 1]);
        assert(rest.drop_first() =~= events.skip(n));
    } else {
        assert(events.skip(0) =~= events);
    }
}

/// The role that posted the approval request `request_id`, so its decision
/// routes back to it.
pub fn find_request_sender(events: &[Json], request_id: &str) -> (r: Result<String, String>)
    ensures
        match first_request(json::items_of(events@), request_id@) {
            Some(event) => match event.at("from"@).at("id"@).text() {
                Some(role) => r matches Ok(sender) && sender@ == role,
                None => r matches Err(why) && why@ == "the approval request `"@ + request_id@
                    + "` carries no sender role"@,
            },
            None => r matches Err(why) && why@ == "no approval request has id `"@ + request_id@
                + "`; see `crew approvals`"@,
        },
{
    let ghost all = json::items_of(events@);
    let mut i: usize = 0;
    while i < events.len()
        invariant
            i <= events.len(),
            all == json::items_of(events@),
            forall|j: int| 0 <= j < i ==> !requests(#[trigger] all[j], request_id@),
        decreases events.len() - i,
    {
        let event = &events[i];
        assert(all[i as int] == event@);
        let found = match message_text(event, "id") {
            Some(id) => has_kind(event, "approval_request") && text::same(id, request_id),
            None => false,
        };
        if found {
            proof {
                lemma_first_request(all, request_id@, i as int);
                assert(all.skip(i as int)[0] == all[i as int]);
            }
            let sender = match event.get("from") {
                Some(from) => from.str_at("id"),
                None => None,
            };
            return match sender {
                Some(role) => Ok(role.to_owned()),
                None => Err(
                    "the approval request `".to_owned().concat(request_id).concat(
                        "` carries no sender role",
                    ),
                ),
            };
        }
        i = i + 1;
    }
    proof {
        lemma_first_request(all, request_id@, all.len() as int);
    }
    Err(
        "no approval request has id `".to_owned().concat(request_id).concat(
            "`; see `crew approvals`",
        ),
    )
}

/// The id of the request to answer, or an error where none is named.
pub fn named_request(request_id: &str) -> (r: Result<String, String>)
    ensures
        if text::blank(request_id@) {
            r matches Err(why) && why@
                == "name the approval request id to answer (see `crew approvals`)"@
        } else {
            r matches Ok(id) && id@ == text::trimmed(request_id@)
        },
{
    if text::is_blank(request_id) {
        Err("name the approval request id to answer (see `crew approvals`)".to_owned())
    } else {
        Ok(text::trim(request_id).to_owned())
    }
}

/// Grants or denies a role's approval request, given the role that made it.
pub fn answer(requester: &str, request_id: &str, deny: bool, reason: Option<&str>) -> (r: Result<
    Orders,
    String,
>)
    ensures
        match ChannelView::direct_to(requester@) {
            Some(target) => r matches Ok(orders) && orders.posts_one(
                target,
                decision_payload(request_id@, !deny, or_empty(text::opt_text(reason))),
                "approval decision"@,
                (if deny {
                    "denied "@
                } else {
                    "approved "@
                }) + requester@ + "'s request "@ + request_id@,
            ),
            None => refused(r, not_a_role(requester@, "answer"@)),
        },
{
    match role_channel(requester, "answer") {
        Ok(target) => {
            let reason = text_or_empty(reason);
            let payload = Fields::new().with("from", general_sender()).with(
                "kind",
                Json::text("approval_decision"),
            ).with("in_reply_to", Json::text(request_id)).with("granted", Json::Bool(!deny)).with(
                "body",
                Json::text(reason),
            ).build();
            assert(payload@->Object_0 =~= decision_payload(
                request_id@,
                !deny,
                reason@,
            )->Object_0);
            let verb = if deny {
                "denied "
            } else {
                "approved "
            };
            let done = verb.to_owned().concat(requester).concat("'s request ").concat(request_id);
            Ok(one(sending(&target, payload, "approval decision"), done))
        },
        Err(why) => Err(why),
    }
}

/// Whether `r` answers the approval request `id` of the log: routed back to the
/// role that made it, refused where there is none.
pub open spec fn approval_answered(
    events: Seq<JsonView>,
    id: Seq<char>,
    deny: bool,
    reason: Seq<char>,
    r: Result<Orders, String>,
) -> bool {
    match first_request(events, id) {
        None => refused(r, "no approval request has id `"@ + id + "`; see `crew approvals`"@),
        Some(event) => match event.at("from"@).at("id"@).text() {
            None => refused(r, "the approval request `"@ + id + "` carries no sender role"@),
            Some(role) => match ChannelView::direct_to(role) {
                None => refused(r, not_a_role(role, "answer"@)),
                Some(target) => r matches Ok(orders) && orders.posts_one(
                    target,
                    decision_payload(id, !deny, reason),
                    "approval decision"@,
                    (if deny {
                        "denied "@
                    } else {
                        "approved "@
                    }) + role + "'s request "@ + id,
                ),
            },
        },
    }
}

/// Grants or denies a role's approval request, given the events of the log: the
/// role that made it proceeds only on a grant.
pub fn approve(events: &[Json], request_id: &str, deny: bool, reason: Option<&str>) -> (r: Result<
    Orders,
    String,
>)
    ensures
        if text::blank(request_id@) {
            refused(r, "name the approval request id to answer (see `crew approvals`)"@)
        } else {
            approval_answered(
                json::items_of(events@),
                text::trimmed(request_id@),
                deny,
                or_empty(text::opt_text(reason)),
                r,
            )
        },
{
    let id = match named_request(request_id) {
        Ok(id) => id,
        Err(why) => {
            return Err(why);
        },
    };
    match find_request_sender(events, id.as_str()) {
        Ok(requester) => answer(requester.as_str(), id.as_str(), deny, reason),
        Err(why) => Err(why),
    }
}

/// The error for a reply that is no acceptance.
pub open spec fn refusal_text(base: Seq<char>, what: Seq<char>, reply: Reply) -> Seq<char> {
    match reply {
        Reply::Accepted => Seq::empty(),
        Reply::Refused { status, text } => "the broker rejected the "@ + what + ": "@ + (
        match client::refused_reason(text) {
            Some(reason) => reason,
            None => "HTTP "@ + number::decimal(status as nat),
        }),
        Reply::Unreachable(_) => "could not reach the broker at "@ + base
            + "; is `crewd` running?"@,
    }
}

/// Whether the broker took a message, by its reply: a refusal is surfaced as
/// `what`.
pub fn posted(base: &str, what: &str, reply: &Reply) -> (r: Result<(), String>)
    ensures
        match r {
            Ok(_) => reply is Accepted,
            Err(why) => reply !is Accepted && why@ == refusal_text(base@, what@, *reply),
        },
{
    match reply {
        Reply::Accepted => Ok(()),
        Reply::Refused { status, text } => {
            let found = match text {
                Some(text) => broker_error(text.as_str()),
                None => None,
            };
            let reason = match found {
                Some(reason) => reason,
                None => "HTTP ".to_owned().concat(number::decimal_u64(*status as u64).as_str()),
            };
            Err(
                "the broker rejected the ".to_owned().concat(what).concat(": ").concat(
                    reason.as_str(),
                ),
            )
        },
        Reply::Unreachable(_) => Err(
            "could not reach the broker at ".to_owned().concat(base).concat(
                "; is `crewd` running?",
            ),
        ),
    }
}

/// A direct order is never silent: where it is confirmed, the commander has
/// been informed of it, unless the commander is the one ordered.
pub proof fn an_override_informs_the_commander(
    role: Seq<char>,
    order: Seq<char>,
    scope: Seq<char>,
    acceptance: Seq<char>,
    commander: Seq<char>,
    r: Result<Orders, String>,
)
    requires
        commanded(role, order, scope, acceptance, commander, r),
        r is Ok,
        r->Ok_0.end is Ok,
        text::lower(role) != text::lower(commander),
    ensures
        r->Ok_0.sends@.len() == 2,
        r->Ok_0.sends@[1].goes(
            ChannelView::Direct(commander),
            general_payload("note"@, notice_text(role, order)),
            "commander notice"@,
        ),
{
}

/// A decided request is not listed as pending, and an undecided one is.
pub proof fn only_undecided_requests_are_pending(events: Seq<JsonView>, event: JsonView)
    requires
        events.contains(event),
        is_message(event, "approval_request"@),
    ensures
        pending(events).contains(event) <==> !decided(
            events,
            text_or(message_of(event), "id"@, ""@),
        ),
{
    let p = awaits(events);
    let i = events.index_of(event);
    if p(event) {
        events.lemma_filter_contains(p, i);
    }
    if pending(events).contains(event) {
        let j = pending(events).index_of(event);
        events.lemma_filter_pred(p, j);
    }
}

/// The roles that the one addressing rule accepts as a plain name stay what
/// they are when stripped.
pub proof fn a_plain_role_is_bare(role: Seq<char>)
    requires
        ChannelView::direct_to(role) is Some,
        text::trimmed(role) == role,
    ensures
        bare_role(role) == role,
{
    text::lemma_run(role, text::only('@'));
    if text::run(role, text::only('@')) > 0 {
        assert(text::only('@')(role[0]));
        assert(role.contains('@'));
    }
    assert(role.skip(0) =~= role);
}

/// Whether the `i`-th message of a command is posted to a role's direct channel, by
/// the General, under a kind.
pub open spec fn sends_to(orders: Orders, i: int, role: Seq<char>, kind: Seq<char>) -> bool {
    &&& 0 <= i < orders.sends@.len()
    &&& orders.sends@[i].request matches Request::Post { path, body }
    &&& path@ == "/channels/"@ + (seq!['@'] + role) + "/messages"@
    &&& body@.get("from"@) matches Some(sender)
    &&& sender.get("kind"@) == Some(JsonView::Text("general"@))
    &&& body@.get("kind"@) == Some(JsonView::Text(kind))
}

/// What the `i`-th message of a command holds under a key.
pub open spec fn sent(orders: Orders, i: int, key: Seq<char>) -> Option<JsonView> {
    match orders.sends@[i].request {
        Request::Post { body, .. } => body@.get(key),
        _ => None,
    }
}

proof fn lemma_at(entries: Seq<(Seq<char>, JsonView)>, key: Seq<char>, at: int)
    requires
        0 <= at < entries.len(),
        entries[at].0 == key,
        forall|j: int| 0 <= j < at ==> (#[trigger] entries[j]).0 != key,
    ensures
        JsonView::Object(entries).get(key) == Some(entries[at].1),
{
    json::a_member_is_found_under_its_key(entries, key, at);
}

proof fn lemma_general(kind: Seq<char>, body: Seq<char>)
    ensures
        from_general().get("kind"@) == Some(JsonView::Text("general"@)),
        general_payload(kind, body).get("from"@) == Some(from_general()),
        general_payload(kind, body).get("kind"@) == Some(JsonView::Text(kind)),
        general_payload(kind, body).get("body"@) == Some(JsonView::Text(body)),
{
    reveal_strlit("from");
    reveal_strlit("kind");
    reveal_strlit("body");
    assert("from"@[0] == 'f' && "kind"@[0] == 'k' && "body"@[0] == 'b');
    lemma_at(from_general()->Object_0, "kind"@, 0);
    let all = general_payload(kind, body)->Object_0;
    assert(all[0].0 == "from"@ && all[1].0 == "kind"@ && all[2].0 == "body"@);
    lemma_at(all, "from"@, 0);
    lemma_at(all, "kind"@, 1);
    lemma_at(all, "body"@, 2);
}

/// A role is named with or without its `@`, and white space around it does not
/// matter. The commander is the one named, or else `commander`.
pub proof fn a_role_may_be_named_with_its_mark(
    role: Seq<char>,
    given: &str,
    plain: String,
    commander: String,
    nobody: String,
)
    requires
        role.len() > 0,
        role[0] != '@',
        text::trimmed(role) == role,
        given@ == role || given@ == seq!['@'] + role,
        call_ensures(plain_role, (given,), plain),
        call_ensures(default_commander, (Some(given),), commander),
        call_ensures(default_commander, (None,), nobody),
    ensures
        plain@ == role,
        commander@ == role,
        nobody@ == "commander"@,
{
    let s = given@;
    let cut = text::trimming_cuts(role);
    assert(s.last() == role.last());
    assert(!text::white_space(role[0]) && !text::white_space(role.last()));
    text::lemma_trimmed_is(s);
    let n: int = if s == role {
        0
    } else {
        1
    };
    assert(n == 1 ==> s[1] == role[0]);
    assert(text::only('@')('@'));
    text::lemma_run_is(s, text::only('@'), n);
    assert(s.skip(n) =~= role);
}

/// A brief goes to its target as the General's note, with its very words; a target
/// that cannot be routed to is refused, and nothing is posted.
pub proof fn a_brief_is_the_generals_note(
    to: Option<&str>,
    channel: Option<&str>,
    commander: Option<&str>,
    body: &str,
    lead: String,
    leader: RoleId,
    target: Option<Channel>,
    r: Result<Orders, String>,
)
    requires
        call_ensures(default_commander, (commander,), lead),
        leader@ == lead@,
        call_ensures(Channel::resolve, (to, channel, &leader), target),
        call_ensures(brief, (to, channel, commander, body), r),
    ensures
        target is None ==> r is Err,
        target matches Some(on) ==> {
            &&& r matches Ok(orders)
            &&& orders.sends@.len() == 1 && orders.end is Ok
            &&& orders.sends@[0].request matches Request::Post { path, body: said }
            &&& path@ == "/channels/"@ + on@.name() + "/messages"@
            &&& said@.get("kind"@) == Some(JsonView::Text("note"@))
            &&& said@.get("body"@) == Some(JsonView::Text(body@))
            &&& said@.at("from"@).get("kind"@) == Some(JsonView::Text("general"@))
        },
{
    lemma_general("note"@, body@);
}

/// A redirect and a belay of the General go to the one role they name, each under
/// its own kind and with its very words; a name that is no role's is refused.
pub proof fn the_general_steers_one_role(
    role: &str,
    body: &str,
    plain: String,
    redirected: Result<Orders, String>,
    belayed: Result<Orders, String>,
)
    requires
        call_ensures(plain_role, (role,), plain),
        call_ensures(redirect, (role, body), redirected),
        call_ensures(belay, (role, body), belayed),
    ensures
        crate::channel::names_a_role(plain@) ==> {
            &&& redirected matches Ok(orders)
            &&& orders.sends@.len() == 1 && orders.end is Ok
            &&& sends_to(orders, 0, plain@, "redirect"@)
            &&& sent(orders, 0, "body"@) == Some(JsonView::Text(body@))
        },
        crate::channel::names_a_role(plain@) ==> {
            &&& belayed matches Ok(orders)
            &&& orders.sends@.len() == 1 && orders.end is Ok
            &&& sends_to(orders, 0, plain@, "belay"@)
            &&& sent(orders, 0, "body"@) == Some(JsonView::Text(body@))
        },
        !crate::channel::names_a_role(plain@) ==> redirected is Err && belayed is Err,
{
    crate::channel::lemma_names_a_role(plain@);
    lemma_general("redirect"@, body@);
    lemma_general("belay"@, body@);
}

/// A direct order of the General goes to the role it names first, with its words,
/// scope and acceptance. The commander then hears of it, by name and in its words,
/// unless the order was its own; and where the commander cannot be told, the command
/// does not end well.
pub proof fn a_direct_order_is_given_and_told(
    role: &str,
    order: &str,
    scope: Option<&str>,
    acceptance: Option<&str>,
    commander: Option<&str>,
    plain: String,
    lead: String,
    r: Result<Orders, String>,
)
    requires
        call_ensures(plain_role, (role,), plain),
        call_ensures(default_commander, (commander,), lead),
        call_ensures(command, (role, order, scope, acceptance, commander), r),
    ensures
        !crate::channel::names_a_role(plain@) ==> r is Err,
        crate::channel::names_a_role(plain@) ==> {
            &&& r matches Ok(orders)
            &&& sends_to(orders, 0, plain@, "order"@)
            &&& sent(orders, 0, "title"@) == Some(JsonView::Text(order@))
            &&& scope matches Some(s) ==> sent(orders, 0, "scope"@) == Some(JsonView::Text(s@))
            &&& acceptance matches Some(s) ==> sent(orders, 0, "acceptance"@) == Some(
                JsonView::Text(s@),
            )
            &&& text::lower(plain@) == text::lower(lead@) ==> orders.sends@.len() == 1
                && orders.end is Ok
            &&& text::lower(plain@) != text::lower(lead@) && crate::channel::names_a_role(lead@) ==> {
                &&& orders.sends@.len() == 2 && orders.end is Ok
                &&& sends_to(orders, 1, lead@, "note"@)
                &&& sent(orders, 1, "body"@) matches Some(JsonView::Text(notice))
                &&& text::mentions(notice, plain@)
                &&& text::mentions(notice, order@)
            }
            &&& text::lower(plain@) != text::lower(lead@) && !crate::channel::names_a_role(lead@)
                ==> orders.sends@.len() == 1 && orders.end is Err
        },
{
    crate::channel::lemma_names_a_role(plain@);
    crate::channel::lemma_names_a_role(lead@);
    reveal_strlit("from");
    reveal_strlit("kind");
    reveal_strlit("title");
    reveal_strlit("scope");
    reveal_strlit("owned_paths");
    reveal_strlit("acceptance");
    assert("from"@[0] == 'f' && "kind"@[0] == 'k' && "title"@[0] == 't' && "scope"@[0] == 's'
        && "owned_paths"@[0] == 'o' && "acceptance"@[0] == 'a');
    let s = or_empty(text::opt_text(scope));
    let a = or_empty(text::opt_text(acceptance));
    let all = order_payload(order@, s, a)->Object_0;
    assert(all[0].0 == "from"@ && all[1].0 == "kind"@ && all[2].0 == "title"@ && all[3].0
        == "scope"@ && all[4].0 == "owned_paths"@ && all[5].0 == "acceptance"@);
    lemma_at(all, "from"@, 0);
    lemma_at(all, "kind"@, 1);
    lemma_at(all, "title"@, 2);
    lemma_at(all, "scope"@, 3);
    lemma_at(all, "acceptance"@, 5);
    let notice = notice_text(plain@, order@);
    lemma_general("note"@, notice);
    let opening = "Direct order from the General to "@;
    text::lemma_four_pieces(opening, plain@, ": "@, order@);
    text::lemma_extends(opening + plain@ + ": "@ + order@, NOTICE@, plain@);
    text::lemma_extends(opening + plain@ + ": "@ + order@, NOTICE@, order@);
}

/// A decision goes back to the role that asked, names the request, and grants it
/// exactly where it is not a denial, with the General's reason.
pub proof fn a_decision_goes_back_as_given(
    requester: &str,
    request_id: &str,
    deny: bool,
    reason: Option<&str>,
    r: Result<Orders, String>,
)
    requires
        call_ensures(answer, (requester, request_id, deny, reason), r),
    ensures
        !crate::channel::names_a_role(requester@) ==> r is Err,
        crate::channel::names_a_role(requester@) ==> {
            &&& r matches Ok(orders)
            &&& orders.sends@.len() == 1
            &&& sends_to(orders, 0, requester@, "approval_decision"@)
            &&& sent(orders, 0, "in_reply_to"@) == Some(JsonView::Text(request_id@))
            &&& sent(orders, 0, "granted"@) == Some(JsonView::Bool(!deny))
            &&& reason matches Some(why) ==> sent(orders, 0, "body"@) == Some(JsonView::Text(why@))
            &&& orders.end matches Ok(said)
            &&& deny ==> ("denied "@ + requester@).is_prefix_of(said@)
            &&& !deny ==> ("approved "@ + requester@).is_prefix_of(said@)
        },
{
    crate::channel::lemma_names_a_role(requester@);
    let why = or_empty(text::opt_text(reason));
    lemma_decision(request_id@, !deny, why);
    let verb = if deny {
        "denied "@
    } else {
        "approved "@
    };
    text::lemma_four_pieces(verb, requester@, "'s request "@, request_id@);
}

proof fn lemma_decision(id: Seq<char>, granted: bool, why: Seq<char>)
    ensures
        ({
            let payload = decision_payload(id, granted, why);
            &&& payload.get("from"@) == Some(from_general())
            &&& from_general().get("kind"@) == Some(JsonView::Text("general"@))
            &&& payload.get("kind"@) == Some(JsonView::Text("approval_decision"@))
            &&& payload.get("in_reply_to"@) == Some(JsonView::Text(id))
            &&& payload.get("granted"@) == Some(JsonView::Bool(granted))
            &&& payload.get("body"@) == Some(JsonView::Text(why))
        }),
{
    reveal_strlit("from");
    reveal_strlit("kind");
    reveal_strlit("in_reply_to");
    reveal_strlit("granted");
    reveal_strlit("body");
    assert("from"@[0] == 'f' && "kind"@[0] == 'k' && "in_reply_to"@[0] == 'i' && "granted"@[0] == 'g'
        && "body"@[0] == 'b');
    lemma_at(from_general()->Object_0, "kind"@, 0);
    let all = decision_payload(id, granted, why)->Object_0;
    assert(all[0].0 == "from"@ && all[1].0 == "kind"@ && all[2].0 == "in_reply_to"@ && all[3].0
        == "granted"@ && all[4].0 == "body"@);
    lemma_at(all, "from"@, 0);
    lemma_at(all, "kind"@, 1);
    lemma_at(all, "in_reply_to"@, 2);
    lemma_at(all, "granted"@, 3);
    lemma_at(all, "body"@, 4);
}

/// What an event's message says under a key.
pub open spec fn message_says(event: JsonView, key: Seq<char>, value: Seq<char>) -> bool {
    event.get("kind"@) matches Some(kind) && (kind.get("data"@) matches Some(message)
        && message.get(key) == Some(JsonView::Text(value)))
}

/// The General's answer reaches the role whose request it is: where a command to
/// answer is carried out, the log holds the request with that id, and the one message
/// posted goes to the role that made it, in reply to it, granting it exactly where it
/// is not denied. A log that holds no such request answers nothing.
pub proof fn an_answer_reaches_the_asker(
    events: &[Json],
    request_id: &str,
    deny: bool,
    reason: Option<&str>,
    r: Result<Orders, String>,
)
    requires
        call_ensures(approve, (events, request_id, deny, reason), r),
    ensures
        r matches Ok(orders) ==> exists|i: int, role: Seq<char>|
            {
                &&& 0 <= i < events@.len()
                &&& message_says(events@[i]@, "kind"@, "approval_request"@)
                &&& #[trigger] message_says(events@[i]@, "id"@, text::trimmed(request_id@))
                &&& events@[i]@.at("from"@).get("id"@) == Some(JsonView::Text(role))
                &&& #[trigger] sends_to(orders, 0, role, "approval_decision"@)
            },
        r matches Ok(orders) ==> orders.sends@.len() == 1 && sent(orders, 0, "in_reply_to"@) == Some(
            JsonView::Text(text::trimmed(request_id@)),
        ) && sent(orders, 0, "granted"@) == Some(JsonView::Bool(!deny)),
        (forall|i: int|
            0 <= i < events@.len() ==> !(message_says(
                (#[trigger] events@[i])@,
                "kind"@,
                "approval_request"@,
            ) && message_says(events@[i]@, "id"@, text::trimmed(request_id@)))) ==> r is Err,
        (forall|i: int| 0 <= i < request_id@.len() ==> text::white_space(#[trigger] request_id@[i]))
            ==> r is Err,
{
    let all = json::items_of(events@);
    let id = text::trimmed(request_id@);
    text::blank_means_white_space_only(request_id@);
    lemma_decision(id, !deny, or_empty(text::opt_text(reason)));
    lemma_first_request_found(all, id);
    if let Some(event) = first_request(all, id) {
        let i = choose|i: int| 0 <= i < all.len() && all[i] == event && requests(all[i], id);
        assert(all[i] == events@[i]@);
        lemma_says(event, "kind"@, "approval_request"@);
        lemma_says(event, "id"@, id);
        assert(message_says(events@[i]@, "id"@, id));
        if let Ok(orders) = r {
            let role = event.at("from"@).at("id"@).text()->0;
            crate::channel::lemma_names_a_role(role);
            assert(sends_to(orders, 0, role, "approval_decision"@));
        }
    }
}

proof fn lemma_says(event: JsonView, key: Seq<char>, value: Seq<char>)
    ensures
        message_says(event, key, value) <==> message_of(event).at(key).text() == Some(value),
{
}

proof fn lemma_first_request_found(events: Seq<JsonView>, id: Seq<char>)
    ensures
        first_request(events, id) matches Some(event) ==> exists|i: int|
            0 <= i < events.len() && #[trigger] events[i] == event && requests(events[i], id),
        first_request(events, id) is None ==> forall|i: int|
            0 <= i < events.len() ==> !requests(#[trigger] events[i], id),
    decreases events.len(),
{
    if events.len() > 0 && !requests(events[0], id) {
        let rest = events.drop_first();
        lemma_first_request_found(rest, id);
        if let Some(event) = first_request(rest, id) {
            let i = choose|i: int| 0 <= i < rest.len() && #[trigger] rest[i] == event && requests(rest[i], id);
            assert(events[i + 1] == event);
        } else {
            assert forall|i: int| 0 <= i < events.len() implies !requests(#[trigger] events[i], id) by {
                if i > 0 {
                    assert(!requests(rest[i - 1], id));
                }
            }
        }
    } else if events.len() > 0 {
        assert(events[0] == first_request(events, id)->0);
    }
}

/// The list of open requests holds exactly the requests that no decision answers:
/// with none there is nothing to list, and else it starts with how many there are
/// and names each.
pub proof fn open_requests_are_listed(events: &[Json], shown: String, i: int, id: Seq<char>)
    requires
        call_ensures(pending_approvals, (events,), shown),
        0 <= i < events@.len(),
        message_says(events@[i]@, "kind"@, "approval_request"@),
        message_says(events@[i]@, "id"@, id),
    ensures
        (forall|j: int|
            0 <= j < events@.len() ==> !(message_says(
                (#[trigger] events@[j])@,
                "kind"@,
                "approval_decision"@,
            ) && message_says(events@[j]@, "in_reply_to"@, id))) ==> shown@
            != "No pending approval requests."@ && text::mentions(shown@, "crew approve "@ + id),
        (exists|j: int|
            0 <= j < events@.len() && message_says(
                (#[trigger] events@[j])@,
                "kind"@,
                "approval_decision"@,
            ) && message_says(events@[j]@, "in_reply_to"@, id)) ==> !pending(
            json::items_of(events@),
        ).contains(events@[i]@),
{
    let all = json::items_of(events@);
    let event = all[i];
    assert(event == events@[i]@);
    assert(all.contains(event));
    lemma_says(event, "kind"@, "approval_request"@);
    lemma_says(event, "id"@, id);
    only_undecided_requests_are_pending(all, event);
    assert(text_or(message_of(event), "id"@, ""@) == id);
    if exists|j: int|
        0 <= j < events@.len() && message_says(
            (#[trigger] events@[j])@,
            "kind"@,
            "approval_decision"@,
        ) && message_says(events@[j]@, "in_reply_to"@, id) {
        let j = choose|j: int|
            0 <= j < events@.len() && message_says(
                (#[trigger] events@[j])@,
                "kind"@,
                "approval_decision"@,
            ) && message_says(events@[j]@, "in_reply_to"@, id);
        assert(all[j] == events@[j]@);
        assert(is_message(all[j], "approval_decision"@));
        assert(decided(all, id));
    } else {
        assert(!decided(all, id)) by {
            if decided(all, id) {
                let j = choose|j: int|
                    0 <= j < all.len() && is_message(#[trigger] all[j], "approval_decision"@)
                        && message_of(all[j]).at("in_reply_to"@).text() == Some(id);
                assert(all[j] == events@[j]@);
                assert(message_says(events@[j]@, "kind"@, "approval_decision"@));
            }
        }
        let waiting = pending(all);
        assert(waiting.contains(event));
        let k = waiting.index_of(event);
        lemma_listed(waiting, k);
        lemma_entry_names(event, id);
        let head = number::decimal(waiting.len()) + " pending approval request(s):"@;
        let mark = "crew approve "@ + id;
        lemma_through(all_pending_lines(waiting), pending_lines(event), mark);
        text::lemma_mentions_within(head, all_pending_lines(waiting), Seq::empty(), mark);
        assert(head + all_pending_lines(waiting) + Seq::<char>::empty() =~= shown@);
        number::lemma_decimal(waiting.len());
        assert(shown@[0] == number::decimal(waiting.len())[0]);
        assert(number::is_digit(shown@[0]));
        reveal_strlit("No pending approval requests.");
        assert("No pending approval requests."@[0] == 'N');
    }
}

proof fn lemma_through(s: Seq<char>, middle: Seq<char>, part: Seq<char>)
    requires
        text::mentions(s, middle),
        text::mentions(middle, part),
    ensures
        text::mentions(s, part),
{
    let i = choose|i: int|
        0 <= i && i + middle.len() <= s.len() && #[trigger] s.subrange(i, i + middle.len())
            == middle;
    let k = choose|k: int|
        0 <= k && k + part.len() <= middle.len() && #[trigger] middle.subrange(k, k + part.len())
            == part;
    assert(s.subrange(i + k, i + k + part.len()) =~= middle.subrange(k, k + part.len()));
}

proof fn lemma_listed(events: Seq<JsonView>, k: int)
    requires
        0 <= k < events.len(),
    ensures
        text::mentions(all_pending_lines(events), pending_lines(events[k])),
    decreases events.len(),
{
    let front = all_pending_lines(events.drop_last());
    let last = pending_lines(events.last());
    text::lemma_pieces(front, last);
    if k < events.len() - 1 {
        lemma_listed(events.drop_last(), k);
        text::lemma_extends(front, last, pending_lines(events[k]));
    }
}

proof fn lemma_entry_names(event: JsonView, id: Seq<char>)
    requires
        message_of(event).at("id"@).text() == Some(id),
    ensures
        text::mentions(pending_lines(event), "crew approve "@ + id),
{
    let data = message_of(event);
    let front = "\n  "@ + id + "  "@ + text_or(event.at("from"@), "id"@, "?"@) + " wants to "@ + text_or(
        data,
        "action"@,
        "?"@,
    ) + ": "@ + text_or(data, "body"@, ""@);
    let indent = "\n      approve: "@;
    assert("\n      approve: crew approve "@ == indent + "crew approve "@) by {
        reveal_strlit("\n      approve: crew approve ");
        reveal_strlit("\n      approve: ");
        reveal_strlit("crew approve ");
        assert("\n      approve: crew approve "@ =~= indent + "crew approve "@);
    }
    text::lemma_associative(indent, "crew approve "@, id);
    let line = front + (indent + "crew approve "@) + id;
    text::lemma_associative(front, indent + "crew approve "@, id);
    text::lemma_pieces(indent, "crew approve "@ + id);
    text::lemma_mentions_within(
        front,
        indent + ("crew approve "@ + id),
        Seq::empty(),
        "crew approve "@ + id,
    );
    assert(front + (indent + ("crew approve "@ + id)) + Seq::<char>::empty() =~= front + (indent + (
    "crew approve "@ + id)));
    text::lemma_extends(line, "   deny: crew approve "@, "crew approve "@ + id);
    text::lemma_extends(line + "   deny: crew approve "@, id, "crew approve "@ + id);
    text::lemma_extends(
        line + "   deny: crew approve "@ + id,
        " --deny"@,
        "crew approve "@ + id,
    );
}

/// A message counts as posted exactly where the broker accepted it.
pub proof fn only_an_accepted_message_is_posted(
    base: &str,
    what: &str,
    reply: Reply,
    r: Result<(), String>,
)
    requires
        call_ensures(posted, (base, what, &reply), r),
    ensures
        r is Ok <==> reply == Reply::Accepted,
        reply matches Reply::Refused { .. } ==> text::mentions(r->Err_0@, what@),
        reply matches Reply::Unreachable(_) ==> text::mentions(r->Err_0@, base@),
{
    if let Reply::Refused { status, text } = reply {
        let reason = match client::refused_reason(text) {
            Some(reason) => reason,
            None => "HTTP "@ + number::decimal(status as nat),
        };
        text::lemma_four_pieces("the broker rejected the "@, what@, ": "@, reason);
    }
    if let Reply::Unreachable(_) = reply {
        text::lemma_mentions(
            "could not reach the broker at "@,
            base@,
            "; is `crewd` running?"@,
        );
    }
}

} // verus!
