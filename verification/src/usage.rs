//! The shared-subscription usage gauge, as the operator reads it.
use vstd::prelude::*;

use crate::json;
use crate::json::{Json, JsonView};
use crate::number;

verus! {

/// An unsigned member, zero where there is none.
pub open spec fn count_of(value: JsonView, key: Seq<char>) -> nat {
    match value.at(key).count() {
        Some(n) => n,
        None => 0,
    }
}

/// The gauge as a one-line status.
pub open spec fn gauge_text(gauge: JsonView) -> Seq<char> {
    let reading = "Subscription usage "@ + number::decimal(count_of(gauge, "percent"@))
        + "% (auto-pause at "@ + number::decimal(count_of(gauge, "threshold"@));
    if gauge.at("paused"@).truth() == Some(true) {
        reading + "%): new work is paused until "@ + (match gauge.at("resets_at"@).text() {
            Some(when) => when,
            None => "the window reset"@,
        }) + ". Resume early with `crew resume`."@
    } else {
        reading + "%): work is running."@
    }
}

/// An unsigned member, zero where there is none.
fn count(value: &Json, key: &str) -> (r: u64)
    ensures
        r == count_of(value@, key@),
{
    let found = match value.get(key) {
        Some(member) => member.as_u64(),
        None => None,
    };
    match found {
        Some(n) => n,
        None => 0,
    }
}

/// Renders the usage gauge as a one-line status for the operator.
pub fn render(gauge: &Json) -> (r: String)
    ensures
        r@ == gauge_text(gauge@),
{
    let percent = number::decimal_u64(count(gauge, "percent"));
    let threshold = number::decimal_u64(count(gauge, "threshold"));
    let reading = "Subscription usage ".to_owned().concat(percent.as_str()).concat(
        "% (auto-pause at ",
    ).concat(threshold.as_str());
    let paused = match gauge.get("paused") {
        Some(paused) => match paused.as_bool() {
            Some(paused) => paused,
            None => false,
        },
        None => false,
    };
    if paused {
        let resets = match gauge.str_at("resets_at") {
            Some(when) => when,
            None => "the window reset",
        };
        reading.concat("%): new work is paused until ").concat(resets).concat(
            ". Resume early with `crew resume`.",
        )
    } else {
        reading.concat("%): work is running.")
    }
}

/// The usage gauge as the operator reads it, given the broker's answer.
pub fn usage(reply: &str) -> (r: Result<String, String>)
    ensures
        match json::json_parse(reply@) {
            Some(gauge) => r matches Ok(shown) && shown@ == gauge_text(gauge),
            None => r matches Err(why) && why@ == "the usage gauge was malformed"@,
        },
{
    match json::parse(reply) {
        Some(gauge) => Ok(render(&gauge)),
        None => Err("the usage gauge was malformed".to_owned()),
    }
}

/// The gauge says its reading and where it pauses, and that work is paused exactly
/// where it is, until the time given or else the reset.
pub proof fn the_gauge_says_whether_work_is_paused(
    gauge: Json,
    percent: u64,
    threshold: u64,
    shown: String,
)
    requires
        call_ensures(render, (&gauge,), shown),
        gauge@.get("percent"@) == Some(JsonView::Number(number::decimal(percent as nat))),
        gauge@.get("threshold"@) == Some(JsonView::Number(number::decimal(threshold as nat))),
    ensures
        ("Subscription usage "@ + number::decimal(percent as nat) + "% (auto-pause at "@
            + number::decimal(threshold as nat)).is_prefix_of(shown@),
        gauge@.get("paused"@) != Some(JsonView::Bool(true)) ==> "%): work is running."@.is_suffix_of(
            shown@,
        ),
        gauge@.get("paused"@) == Some(JsonView::Bool(true)) ==> match gauge@.get("resets_at"@) {
            Some(JsonView::Text(when)) => crate::text::mentions(
                shown@,
                "%): new work is paused until "@ + when,
            ),
            _ => crate::text::mentions(shown@, "%): new work is paused until "@ + "the window reset"@),
        },
{
    number::decimal_reads_back(percent as nat, u64::MAX as nat);
    number::decimal_reads_back(threshold as nat, u64::MAX as nat);
    let reading = "Subscription usage "@ + number::decimal(percent as nat) + "% (auto-pause at "@
        + number::decimal(threshold as nat);
    if gauge@.get("paused"@) == Some(JsonView::Bool(true)) {
        let when = match gauge@.at("resets_at"@).text() {
            Some(when) => when,
            None => "the window reset"@,
        };
        let said = "%): new work is paused until "@ + when;
        let end = ". Resume early with `crew resume`."@;
        crate::text::lemma_associative(reading, "%): new work is paused until "@, when);
        crate::text::lemma_mentions(reading, said, end);
        crate::text::lemma_pieces(reading, said);
        crate::text::lemma_extends(reading + said, end, reading);
    } else {
        crate::text::lemma_pieces(reading, "%): work is running."@);
    }
}

} // verus!
