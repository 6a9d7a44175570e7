//! The General's brake and kill switch: pause, resume, and stand down.
use vstd::prelude::*;

use crate::client;
use crate::client::Request;
use crate::json::{Fields, Json, JsonView};
use crate::text;

verus! {

/// What a stand-down is told.
pub const STOOD_DOWN: &'static str =
    "Stood the crew down: every role halts and the state is preserved. Resume with \
     `crew resume`.";

/// A control action to post, and its confirmation.
#[derive(Debug, PartialEq, Eq)]
pub struct Control {
    /// The post.
    pub request: Request,
    /// The confirmation.
    pub done: String,
}

/// The body of a control action: the target role, or none for the whole crew.
pub open spec fn control_payload(role: Option<Seq<char>>) -> JsonView {
    JsonView::Object(
        match role {
            Some(role) => seq![client::says("role"@, role)],
            None => Seq::empty(),
        },
    )
}

/// A confirmation line: the verb and a role, or the crew.
pub open spec fn outcome_text(verb: Seq<char>, role: Option<Seq<char>>) -> Seq<char> {
    match role {
        Some(role) => verb + " "@ + role + "."@,
        None => verb + " the crew."@,
    }
}

/// A confirmation line: `<verb> backend.`, or `<verb> the crew.` crew-wide.
pub fn outcome(verb: &str, role: Option<&str>) -> (r: String)
    ensures
        r@ == outcome_text(verb@, text::opt_text(role)),
{
    match role {
        Some(role) => verb.to_owned().concat(" ").concat(role).concat("."),
        None => verb.to_owned().concat(" the crew."),
    }
}

/// A control action, with an optional target role in the body.
fn post(path: &str, role: Option<&str>) -> (r: Request)
    ensures
        r.posts(path@, control_payload(text::opt_text(role))),
{
    let body = match role {
        Some(role) => Fields::new().with("role", Json::text(role)).build(),
        None => Fields::new().build(),
    };
    assert(body@->Object_0 =~= control_payload(text::opt_text(role))->Object_0);
    Request::Post { path: path.to_owned(), body }
}

/// Pauses one role, or the whole crew when no role is given.
pub fn pause(role: Option<&str>) -> (r: Control)
    ensures
        r.request.posts("/pause"@, control_payload(text::opt_text(role))),
        r.done@ == outcome_text("Paused"@, text::opt_text(role)),
{
    Control { request: post("/pause", role), done: outcome("Paused", role) }
}

/// Resumes one role, or the whole crew when no role is given.
pub fn resume(role: Option<&str>) -> (r: Control)
    ensures
        r.request.posts("/resume"@, control_payload(text::opt_text(role))),
        r.done@ == outcome_text("Resumed"@, text::opt_text(role)),
{
    Control { request: post("/resume", role), done: outcome("Resumed", role) }
}

/// Stands the whole crew down: halt every role now, preserving the state.
pub fn standdown() -> (r: Control)
    ensures
        r.request.posts("/standdown"@, control_payload(None)),
        r.done@ == STOOD_DOWN@,
{
    Control { request: post("/standdown", None), done: STOOD_DOWN.to_owned() }
}

/// A pause, a resumption and a stand-down each ask for themselves; the first two for
/// the one role named, or for the whole crew where none is, and the last always for
/// the whole crew.
pub proof fn a_control_asks_for_itself(
    role: &str,
    paused: Control,
    resumed: Control,
    all_paused: Control,
    all_resumed: Control,
    stood_down: Control,
)
    requires
        call_ensures(pause, (Some(role),), paused),
        call_ensures(resume, (Some(role),), resumed),
        call_ensures(pause, (None,), all_paused),
        call_ensures(resume, (None,), all_resumed),
        call_ensures(standdown, (), stood_down),
    ensures
        paused.request matches Request::Post { path, body } && path@ == "/pause"@ && body@.get(
            "role"@,
        ) == Some(JsonView::Text(role@)),
        resumed.request matches Request::Post { path, body } && path@ == "/resume"@ && body@.get(
            "role"@,
        ) == Some(JsonView::Text(role@)),
        all_paused.request matches Request::Post { path, body } && path@ == "/pause"@ && body@.get(
            "role"@,
        ) is None,
        all_resumed.request matches Request::Post { path, body } && path@ == "/resume"@ && body@.get(
            "role"@,
        ) is None,
        stood_down.request matches Request::Post { path, body } && path@ == "/standdown"@
            && body@.get("role"@) is None,
        paused.done@ == "Paused"@ + " "@ + role@ + "."@,
        resumed.done@ == "Resumed"@ + " "@ + role@ + "."@,
{
    let one = seq![client::says("role"@, role@)];
    assert(one[0].0 == "role"@);
    crate::json::a_member_is_found_under_its_key(one, "role"@, 0);
    crate::json::a_member_is_found_under_its_key(Seq::empty(), "role"@, 0);
}

} // verus!
