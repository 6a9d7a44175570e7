//! The broker's base URL, and the reason in a broker's error reply.
use vstd::prelude::*;

use crate::card::BrokerEndpoint;
use crate::json;
use crate::text;

verus! {

/// A broker address without outer white space and trailing slashes.
pub open spec fn bare_address(url: Seq<char>) -> Seq<char> {
    text::drop_run_back(text::trimmed(url), text::only('/'))
}

/// Whether an address names its scheme.
pub open spec fn has_scheme(url: Seq<char>) -> bool {
    "http://"@.is_prefix_of(url) || "https://"@.is_prefix_of(url)
}

/// A broker address as a base URL: the scheme defaults to `http`, and trailing
/// slashes are dropped.
pub open spec fn base_of(url: Seq<char>) -> Seq<char> {
    if has_scheme(bare_address(url)) {
        bare_address(url)
    } else {
        "http://"@ + bare_address(url)
    }
}

/// Normalizes a `--broker` value: default the scheme to `http`, drop trailing
/// slashes.
pub fn normalize_base(url: &str) -> (r: String)
    ensures
        r@ == base_of(url@),
{
    let bare = text::trim_end_char(text::trim(url), '/');
    if text::starts_with(bare, "http://") || text::starts_with(bare, "https://") {
        bare.to_owned()
    } else {
        "http://".to_owned().concat(bare)
    }
}

/// The broker base URL: the `--broker` value if given, else the endpoint the
/// environment names.
pub open spec fn chosen_base(flag: Option<Seq<char>>, endpoint: BrokerEndpoint) -> Seq<char> {
    match flag {
        Some(url) => base_of(url),
        None => endpoint.url(),
    }
}

/// The broker base URL: the `--broker` value if given, else the endpoint the
/// environment names.
pub fn resolve_base(flag: Option<&str>, endpoint: &BrokerEndpoint) -> (r: String)
    ensures
        r@ == chosen_base(text::opt_text(flag), *endpoint),
{
    match flag {
        Some(url) => normalize_base(url),
        None => endpoint.base_url(),
    }
}

/// The reason that a broker's error reply carries: its string member `error`.
pub open spec fn error_reason(reply: Seq<char>) -> Option<Seq<char>> {
    match json::json_parse(reply) {
        Some(value) => value.at("error"@).text(),
        None => None,
    }
}

/// The `{ "error": ... }` reason in the text of a broker's error reply, if any.
pub fn broker_error(reply: &str) -> (r: Option<String>)
    ensures
        text::opt_string(r) == error_reason(reply@),
{
    match json::parse(reply) {
        Some(value) => reason_in(&value),
        None => None,
    }
}

/// The string member `error` of a reply.
pub fn reason_in(reply: &json::Json) -> (r: Option<String>)
    ensures
        text::opt_string(r) == reply@.at("error"@).text(),
{
    match reply.str_at("error") {
        Some(reason) => Some(reason.to_owned()),
        None => None,
    }
}

/// A base URL is its own normal form, provided something stands after the
/// scheme and no white space ends it.
pub proof fn normalizing_again_changes_nothing(url: Seq<char>)
    requires
        bare_address(url).len() > 0,
        !text::white_space(bare_address(url).last()),
    ensures
        base_of(base_of(url)) == base_of(url),
{
    reveal_strlit("http://");
    reveal_strlit("https://");
    let bare = bare_address(url);
    let b = base_of(url);
    assert("http://"@[0] == 'h' && "https://"@[0] == 'h');
    text::lemma_run_back(text::trimmed(url), text::only('/'));
    assert(bare.last() != '/') by {
        let t = text::trimmed(url);
        let n = text::run_back(t, text::only('/'));
        assert(bare.last() == t[t.len() - n - 1]);
    }
    assert(b.last() == bare.last());
    assert(has_scheme(b)) by {
        if !has_scheme(bare) {
            assert("http://"@ =~= b.subrange(0, "http://"@.len() as int));
        }
    }
    assert(b[0] == 'h') by {
        if has_scheme(bare) {
            if "http://"@.is_prefix_of(bare) {
                assert("http://"@[0] == bare.subrange(0, "http://"@.len() as int)[0]);
            } else {
                assert("https://"@[0] == bare.subrange(0, "https://"@.len() as int)[0]);
            }
        }
    }
    text::lemma_run_is(b, text::white(), 0);
    assert(b.skip(0) =~= b);
    text::lemma_run_back_is(b, text::white(), 0);
    assert(b.take(b.len() as int) =~= b);
    text::lemma_run_back_is(b, text::only('/'), 0);
}

/// A broker address keeps its host: a given scheme stays, a missing one becomes
/// `http://`, and no slash ends it.
pub proof fn an_address_keeps_its_host(address: Seq<char>, slashes: nat, url: &str, r: String)
    requires
        call_ensures(normalize_base, (url,), r),
        address.len() > 0,
        !text::white_space(address[0]),
        address.last() != '/' && !text::white_space(address.last()),
        url@ == address + Seq::new(slashes, |i: int| '/'),
    ensures
        "http://"@.is_prefix_of(address) || "https://"@.is_prefix_of(address) ==> r@ == address,
        !("http://"@.is_prefix_of(address) || "https://"@.is_prefix_of(address)) ==> r@
            == "http://"@ + address,
{
    let s = url@;
    assert(s[0] == address[0]);
    assert(!text::white_space(s.last())) by {
        if slashes == 0 {
            assert(s =~= address);
        } else {
            assert(s.last() == '/');
        }
    }
    text::lemma_trimmed_is(s);
    assert forall|j: int| s.len() - slashes <= j < s.len() implies text::only('/')(
        #[trigger] s[j],
    ) by {}
    assert(s[s.len() - slashes - 1] == address.last());
    text::lemma_run_back_is(s, text::only('/'), slashes as int);
    assert(s.take(s.len() - slashes) =~= address);
}

/// The flag comes before the environment.
pub proof fn the_flag_comes_first(
    flag: &str,
    endpoint: BrokerEndpoint,
    given: String,
    normal: String,
    absent: String,
    own: String,
)
    requires
        call_ensures(resolve_base, (Some(flag), &endpoint), given),
        call_ensures(normalize_base, (flag,), normal),
        call_ensures(resolve_base, (None, &endpoint), absent),
        call_ensures(BrokerEndpoint::base_url, (&endpoint,), own),
    ensures
        given@ == normal@,
        absent@ == own@,
        "http://"@.is_prefix_of(own@),
        text::mentions(own@, endpoint.host@),
        crate::number::decimal(endpoint.port as nat).is_suffix_of(own@),
{
    let port = crate::number::decimal(endpoint.port as nat);
    text::lemma_four_pieces("http://"@, endpoint.host@, ":"@, port);
}

/// The reason in a broker's reply is the text under its `error` member, and there is
/// none where that is no text.
pub proof fn the_reason_is_the_error_member(
    entries: Vec<(String, json::Json)>,
    at: int,
    r: Option<String>,
)
    requires
        call_ensures(reason_in, (&json::Json::Object(entries),), r),
        0 <= at < entries@.len(),
        entries@[at].0@ == "error"@,
        forall|j: int| 0 <= j < at ==> (#[trigger] entries@[j]).0@ != "error"@,
    ensures
        match entries@[at].1@ {
            json::JsonView::Text(why) => r matches Some(said) && said@ == why,
            _ => r is None,
        },
{
    json::lemma_object(entries);
    let all = json::entries_of(entries@);
    assert forall|j: int| 0 <= j < at implies (#[trigger] all[j]).0 != "error"@ by {
        assert(all[j].0 == entries@[j].0@);
    }
    json::a_member_is_found_under_its_key(all, "error"@, at);
}

} // verus!
