//! The approval gate, as the operator reads and answers it.
use vstd::prelude::*;

use crate::base::broker_error;
use crate::client;
use crate::client::{Reply, Request};
use crate::control;
use crate::json;
use crate::json::{Fields, Json, JsonView};
use crate::number;
use crate::text;

verus! {

/// How to answer the requests listed.
pub const HOW_TO_ANSWER: &'static str =
    "Approve with `crew approve <id>`, or deny with `crew deny <id> \"reason\"`.";

/// What a denial without a reason is told.
pub const REASON_NEEDED: &'static str =
    "a denial needs a reason, so the role learns why: crew deny <id> \"the reason\"";

/// "is waiting on a decision" as a predicate.
pub open spec fn waiting() -> spec_fn(JsonView) -> bool {
    |request: JsonView| request.at("decision"@).text() == Some("pending"@)
}

/// One waiting request as the operator reads it.
pub open spec fn request_line(request: JsonView) -> Seq<char> {
    let head = "  "@ + control::text_or(request, "id"@, "?"@) + "  "@ + control::text_or(
        request,
        "role"@,
        "?"@,
    ) + " -> "@ + control::text_or(request, "action"@, "?"@);
    let detail = control::text_or(request, "detail"@, ""@);
    if detail.len() == 0 {
        head + "\n"@
    } else {
        head + ": "@ + detail + "\n"@
    }
}

/// Waiting requests as the operator reads them, oldest first.
pub open spec fn request_lines(requests: Seq<JsonView>) -> Seq<char>
    decreases requests.len(),
{
    if requests.len() == 0 {
        Seq::empty()
    } else {
        request_lines(requests.drop_last()) + request_line(requests.last())
    }
}

/// The approval gate as the operator reads it.
pub open spec fn gate_text(view: JsonView) -> Seq<char> {
    let pending = view.at("requests"@).items().filter(waiting());
    if pending.len() == 0 {
        "No approvals are waiting."@
    } else {
        number::decimal(pending.len()) + (if pending.len() == 1 {
            " approval waiting:\n"@
        } else {
            " approvals waiting:\n"@
        }) + request_lines(pending) + HOW_TO_ANSWER@
    }
}

/// A string member, or `other` in its place.
fn str_or<'a>(value: &'a Json, key: &str, other: &'a str) -> (r: &'a str)
    ensures
        r@ == control::text_or(value@, key@, other@),
{
    match value.str_at(key) {
        Some(s) => s,
        None => other,
    }
}

/// One waiting request as the operator reads it.
fn render_request(request: &Json) -> (r: String)
    ensures
        r@ == request_line(request@),
{
    let head = "  ".to_owned().concat(str_or(request, "id", "?")).concat("  ").concat(
        str_or(request, "role", "?"),
    ).concat(" -> ").concat(str_or(request, "action", "?"));
    let detail = str_or(request, "detail", "");
    if detail.is_empty() {
        head.concat("\n")
    } else {
        head.concat(": ").concat(detail).concat("\n")
    }
}

/// Renders the approval gate for the operator: one line per pending request,
/// oldest first.
pub fn render_list(view: &Json) -> (r: String)
    ensures
        r@ == gate_text(view@),
{
    let none: Vec<Json> = Vec::new();
    let listed = match view.get("requests") {
        Some(requests) => requests.as_array(),
        None => None,
    };
    let requests = match listed {
        Some(requests) => requests,
        None => &none,
    };
    let ghost all = json::items_of(requests@);
    assert(view@.at("requests"@).items() =~= all);
    let ghost p = waiting();
    let mut lines = String::new();
    let mut count: usize = 0;
    let mut i: usize = 0;
    proof {
        reveal(Seq::filter);
        assert(all.take(0).filter(p) =~= Seq::<JsonView>::empty());
    }
    while i < requests.len()
        invariant
            i <= requests.len(),
            all == json::items_of(requests@),
            p == waiting(),
            count <= i,
            count == all.take(i as int).filter(p).len(),
            lines@ == request_lines(all.take(i as int).filter(p)),
        decreases requests.len() - i,
    {
        let ghost so_far = all.take(i as int).filter(p);
        proof {
            reveal(Seq::filter);
            let longer = all.take(i + 1);
            assert(longer.drop_last() =~= all.take(i as int));
            assert(longer.last() == requests@[i as int]@);
        }
        let pending = match requests[i].str_at("decision") {
            Some(decision) => text::same(decision, "pending"),
            None => false,
        };
        if pending {
            let line = render_request(&requests[i]);
            lines.append(line.as_str());
            count = count + 1;
            proof {
                let longer = all.take(i + 1).filter(p);
                assert(longer == so_far.push(requests@[i as int]@));
                assert(longer.drop_last() =~= so_far);
            }
        }
        i = i + 1;
    }
    assert(all.take(all.len() as int) =~= all);
    if count == 0 {
        return "No approvals are waiting.".to_owned();
    }
    let what = if count == 1 {
        " approval waiting:\n"
    } else {
        " approvals waiting:\n"
    };
    number::decimal_usize(count).concat(what).concat(lines.as_str()).concat(HOW_TO_ANSWER)
}

/// The approval gate as the operator reads it, given the broker's answer.
pub fn list(reply: &str) -> (r: Result<String, String>)
    ensures
        match json::json_parse(reply@) {
            Some(view) => r matches Ok(shown) && shown@ == gate_text(view),
            None => r matches Err(why) && why@ == "the approval gate was malformed"@,
        },
{
    match json::parse(reply) {
        Some(view) => Ok(render_list(&view)),
        None => Err("the approval gate was malformed".to_owned()),
    }
}

/// A decision to post, and its confirmation.
#[derive(Debug, PartialEq, Eq)]
pub struct Answer {
    /// The post.
    pub request: Request,
    /// The confirmation.
    pub done: String,
}

/// The endpoint that takes the decision on a request.
pub open spec fn decision_path(id: Seq<char>) -> Seq<char> {
    "/approvals/"@ + id + "/decision"@
}

/// The body of a decision.
pub open spec fn decision_payload(approve: bool, reason: Seq<char>) -> JsonView {
    JsonView::Object(
        seq![
            client::member("approve"@, JsonView::Bool(approve)),
            client::says("reason"@, reason),
        ],
    )
}

/// The post of a decision on a request.
fn decide(id: &str, approve: bool, reason: &str) -> (r: Request)
    ensures
        r.posts(decision_path(id@), decision_payload(approve, reason@)),
{
    let body = Fields::new().with("approve", Json::Bool(approve)).with(
        "reason",
        Json::text(reason),
    ).build();
    assert(body@->Object_0 =~= decision_payload(approve, reason@)->Object_0);
    Request::Post { path: "/approvals/".to_owned().concat(id).concat("/decision"), body }
}

/// Approves a pending request, so the blocked role proceeds.
pub fn approve(id: &str) -> (r: Answer)
    ensures
        r.request.posts(decision_path(id@), decision_payload(true, ""@)),
        r.done@ == "Approved "@ + id@ + ". The role may proceed."@,
{
    Answer {
        request: decide(id, true, ""),
        done: "Approved ".to_owned().concat(id).concat(". The role may proceed."),
    }
}

/// Denies a pending request with a reason, so the blocked role abandons the
/// action. A denial without a reason is refused.
pub fn deny(id: &str, reason: &str) -> (r: Result<Answer, String>)
    ensures
        if text::blank(reason@) {
            r matches Err(why) && why@ == REASON_NEEDED@
        } else {
            r matches Ok(answer) && answer.request.posts(
                decision_path(id@),
                decision_payload(false, reason@),
            ) && answer.done@ == "Denied "@ + id@ + ": "@ + reason@
                + ". The role will abandon the action."@
        },
{
    if text::is_blank(reason) {
        return Err(REASON_NEEDED.to_owned());
    }
    Ok(
        Answer {
            request: decide(id, false, reason),
            done: "Denied ".to_owned().concat(id).concat(": ").concat(reason).concat(
                ". The role will abandon the action.",
            ),
        },
    )
}

/// The error for a reply to a decision that is no acceptance.
pub open spec fn refusal_text(base: Seq<char>, reply: Reply) -> Seq<char> {
    match reply {
        Reply::Accepted => Seq::empty(),
        Reply::Refused { text, .. } => match client::refused_reason(text) {
            Some(reason) => reason,
            None => "the broker refused the decision"@,
        },
        Reply::Unreachable(why) => unreachable_text(base, why@),
    }
}

/// The error for a broker that cannot be reached.
pub open spec fn unreachable_text(base: Seq<char>, why: Seq<char>) -> Seq<char> {
    "could not reach the broker at "@ + base + "; is `crewd` running? ("@ + why + ")"@
}

/// The error for a broker that cannot be reached.
pub fn unreachable_broker(base: &str, why: &str) -> (r: String)
    ensures
        r@ == unreachable_text(base@, why@),
{
    "could not reach the broker at ".to_owned().concat(base).concat(
        "; is `crewd` running? (",
    ).concat(why).concat(")")
}

/// Whether the broker took a decision, by its reply.
pub fn decided(base: &str, reply: &Reply) -> (r: Result<(), String>)
    ensures
        match r {
            Ok(_) => reply is Accepted,
            Err(why) => reply !is Accepted && why@ == refusal_text(base@, *reply),
        },
{
    match reply {
        Reply::Accepted => Ok(()),
        Reply::Refused { text, .. } => {
            let found = match text {
                Some(text) => broker_error(text.as_str()),
                None => None,
            };
            match found {
                Some(reason) => Err(reason),
                None => Err("the broker refused the decision".to_owned()),
            }
        },
        Reply::Unreachable(why) => Err(unreachable_broker(base, why.as_str())),
    }
}

/// A decided request is not listed: only the pending ones shape what the
/// operator reads.
pub proof fn decided_requests_are_not_listed(view: JsonView, other: JsonView)
    requires
        view.at("requests"@).items().filter(waiting()) == other.at("requests"@).items().filter(
            waiting(),
        ),
    ensures
        gate_text(view) == gate_text(other),
{
}

/// An approval and a denial answer the request they name, the one granting it and the
/// other not, with its reason; a denial without a reason is not sent.
pub proof fn a_denial_is_no_approval(
    id: &str,
    reason: &str,
    approved: Answer,
    denied: Result<Answer, String>,
)
    requires
        call_ensures(approve, (id,), approved),
        call_ensures(deny, (id, reason), denied),
    ensures
        approved.request matches Request::Post { path, body } && path@ == "/approvals/"@ + id@
            + "/decision"@ && body@.get("approve"@) == Some(JsonView::Bool(true)),
        denied is Err <==> forall|i: int|
            0 <= i < reason@.len() ==> text::white_space(#[trigger] reason@[i]),
        denied matches Ok(answer) ==> (answer.request matches Request::Post { path, body } && path@
            == "/approvals/"@ + id@ + "/decision"@ && body@.get("approve"@) == Some(
            JsonView::Bool(false),
        ) && body@.get("reason"@) == Some(JsonView::Text(reason@))),
        ("Approved "@ + id@).is_prefix_of(approved.done@),
        denied matches Ok(answer) ==> ("Denied "@ + id@).is_prefix_of(answer.done@),
{
    text::blank_means_white_space_only(reason@);
    reveal_strlit("approve");
    reveal_strlit("reason");
    assert("approve"@[0] == 'a' && "reason"@[0] == 'r');
    let yes = decision_payload(true, ""@)->Object_0;
    let no = decision_payload(false, reason@)->Object_0;
    assert(yes[0].0 == "approve"@ && no[0].0 == "approve"@ && no[1].0 == "reason"@);
    json::a_member_is_found_under_its_key(yes, "approve"@, 0);
    json::a_member_is_found_under_its_key(no, "approve"@, 0);
    json::a_member_is_found_under_its_key(no, "reason"@, 1);
    text::lemma_pieces("Approved "@ + id@, ". The role may proceed."@);
    text::lemma_four_pieces(
        "Denied "@ + id@,
        ": "@,
        reason@,
        ". The role will abandon the action."@,
    );
}

/// What waits for a decision is listed and nothing else: each waiting request by its
/// line, under how many there are; with none waiting, the operator is told so.
pub proof fn waiting_requests_are_listed(view: Json, shown: String, requests: Seq<JsonView>, k: int)
    requires
        call_ensures(render_list, (&view,), shown),
        view@.get("requests"@) == Some(JsonView::Array(requests)),
        0 <= k < requests.len(),
    ensures
        requests[k].get("decision"@) == Some(JsonView::Text("pending"@)) ==> text::mentions(
            shown@,
            request_line(requests[k]),
        ) && shown@ != "No approvals are waiting."@,
        (forall|i: int|
            0 <= i < requests.len() ==> (#[trigger] requests[i]).get("decision"@) != Some(
                JsonView::Text("pending"@),
            )) ==> shown@ == "No approvals are waiting."@,
{
    let p = waiting();
    let pending = requests.filter(p);
    assert(view@.at("requests"@).items() == requests);
    if forall|i: int|
        0 <= i < requests.len() ==> (#[trigger] requests[i]).get("decision"@) != Some(
            JsonView::Text("pending"@),
        ) {
        if pending.len() > 0 {
            requests.lemma_filter_pred(p, 0);
            assert(pending.contains(pending[0]));
            requests.lemma_filter_contains_rev(p, pending[0]);
            let i = choose|i: int| 0 <= i < requests.len() && requests[i] == pending[0];
            assert(requests[i].get("decision"@) != Some(JsonView::Text("pending"@)));
        }
    }
    if requests[k].get("decision"@) == Some(JsonView::Text("pending"@)) {
        assert(p(requests[k]));
        requests.lemma_filter_contains(p, k);
        let j = choose|j: int| 0 <= j < pending.len() && pending[j] == requests[k];
        lemma_line_listed(pending, j);
        let head = number::decimal(pending.len()) + (if pending.len() == 1 {
            " approval waiting:\n"@
        } else {
            " approvals waiting:\n"@
        });
        text::lemma_mentions_within(
            head,
            request_lines(pending),
            HOW_TO_ANSWER@,
            request_line(requests[k]),
        );
        number::lemma_decimal(pending.len());
        assert(shown@[0] == number::decimal(pending.len())[0]);
        assert(number::is_digit(shown@[0]));
        reveal_strlit("No approvals are waiting.");
        assert("No approvals are waiting."@[0] == 'N');
    }
}

proof fn lemma_line_listed(requests: Seq<JsonView>, j: int)
    requires
        0 <= j < requests.len(),
    ensures
        text::mentions(request_lines(requests), request_line(requests[j])),
    decreases requests.len(),
{
    let front = request_lines(requests.drop_last());
    let last = request_line(requests.last());
    text::lemma_pieces(front, last);
    if j < requests.len() - 1 {
        lemma_line_listed(requests.drop_last(), j);
        text::lemma_extends(front, last, request_line(requests[j]));
    }
}

/// A request's line names it, who asks, what for, and why where that is given.
pub proof fn a_request_is_told_whole(
    request: JsonView,
    id: Seq<char>,
    role: Seq<char>,
    action: Seq<char>,
    detail: Seq<char>,
)
    requires
        request.get("id"@) == Some(JsonView::Text(id)),
        request.get("role"@) == Some(JsonView::Text(role)),
        request.get("action"@) == Some(JsonView::Text(action)),
        request.get("detail"@) == Some(JsonView::Text(detail)),
    ensures
        text::mentions(request_line(request), id + "  "@ + role + " -> "@ + action),
        detail.len() > 0 ==> (": "@ + detail + "\n"@).is_suffix_of(request_line(request)),
{
    let who = id + "  "@ + role + " -> "@ + action;
    let end = if detail.len() == 0 {
        "\n"@
    } else {
        ": "@ + detail + "\n"@
    };
    text::lemma_mentions("  "@, who, end);
    assert("  "@ + who + end =~= request_line(request));
    text::lemma_pieces("  "@ + who, end);
}

/// A decision counts as taken exactly where the broker accepted it.
pub proof fn only_an_accepted_decision_is_taken(base: &str, reply: Reply, r: Result<(), String>)
    requires
        call_ensures(decided, (base, &reply), r),
    ensures
        r is Ok <==> reply == Reply::Accepted,
{
}

} // verus!
