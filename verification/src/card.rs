//! The role card: the thin bootstrap that hands an agent its lane and the
//! broker.
//!
//! A card carries only what is specific to one agent: its name, the paths it
//! owns, the acceptance bar it holds work to, and how to reach the unit.
use vstd::prelude::*;

use crate::config::{LaneEnforcement, Runtime};
use crate::id::RoleId;
use crate::number;
use crate::text;

verus! {

/// The environment variable naming the role card a spawned agent boots from.
pub const ROLE_CARD_ENV: &'static str = "CREW_ROLE_CARD";

/// The conventional commander name, used where nothing names one.
pub const DEFAULT_COMMANDER: &'static str = "commander";

/// The broker's address: where an agent reaches the unit.
#[derive(Debug, PartialEq, Eq)]
pub struct BrokerEndpoint {
    /// The host the broker listens on, an IP or a hostname.
    pub host: String,
    /// The TCP port the broker listens on.
    pub port: u16,
}

impl Clone for BrokerEndpoint {
    fn clone(&self) -> (r: Self)
        ensures
            r == *self,
    {
        BrokerEndpoint { host: self.host.clone(), port: self.port }
    }
}

impl BrokerEndpoint {
    /// The base URL a client uses to reach the broker.
    pub open spec fn url(self) -> Seq<char> {
        "http://"@ + self.host@ + ":"@ + number::decimal(self.port as nat)
    }

    /// An endpoint from a host and a port.
    pub fn new(host: &str, port: u16) -> (r: Self)
        ensures
            r.host@ == host@,
            r.port == port,
    {
        BrokerEndpoint { host: host.to_owned(), port }
    }

    /// The base URL a client uses to reach the broker, such as
    /// `http://127.0.0.1:2739`.
    pub fn base_url(&self) -> (r: String)
        ensures
            r@ == self.url(),
    {
        "http://".to_owned().concat(self.host.as_str()).concat(":").concat(
            number::decimal_u64(self.port as u64).as_str(),
        )
    }
}

/// A role's boot card: its lane, its acceptance bar, and how to reach the unit.
#[derive(Debug, PartialEq, Eq)]
pub struct RoleCard {
    /// The role this agent plays: its stable id and its direct channel name.
    pub role: RoleId,
    /// The directory boundaries this role owns: its lane in the tree.
    pub owned_paths: Vec<String>,
    /// The bar the role holds its work to before reporting it done.
    pub acceptance: String,
    /// The role that leads and routes the unit.
    pub commander: RoleId,
    /// How the crew enforces this role's lane.
    pub lane_enforcement: LaneEnforcement,
    /// The runtime the role runs on.
    pub runtime: Runtime,
    /// How to reach the unit: the broker's address.
    pub broker: BrokerEndpoint,
}

/// The lane line of a role that owns nothing.
pub const NO_LANE: &'static str =
    "Your lane: you own no fixed paths yet. Coordinate before touching shared code.\n";

/// How to reach the unit, up to the broker's address.
pub const REACH_BEFORE: &'static str =
    "Reach the unit through the crew MCP tools: crew_send to message a teammate or \
     channel, crew_inbox to read what is addressed to you, crew_roster to see the team. \
     The broker is at ";

/// How to reach the unit, after the broker's address.
pub const REACH_AFTER: &'static str =
    ". The coordination rules live in crew; do not restate them.\n";

/// What a redirect and a belay mean.
pub const DIRECTIVES: &'static str =
    "A redirect or belay in your inbox is a command from the General: honor it at your \
     very next tool boundary, not when your current step finishes. A redirect steers you: \
     keep your task and adjust course. A belay overrides you: stop your current work and \
     take its message as your new order.\n";

/// The commander's duties.
pub const COMMANDER_DUTIES: &'static str =
    "You are the commander: the unit's lead and router. The General briefs you. \
     Decompose the work and issue an order to each specialist with crew_order (name \
     the role, a title, the scope, the paths it owns, and the acceptance bar). \
     Arbitrate at lane boundaries and report progress back to the General. You route \
     and decide; you do not take the field, so you write no feature code yourself. A \
     direct peer message and the rare all-units broadcast are available but are not \
     the default.";

/// How a specialist reaches its commander.
pub const SPECIALIST_DUTIES: &'static str =
    ": brief it and report to it by default (a crew_send \
     with no `to` or `channel` reaches the commander). It may send you an order; work it \
     within your lane and report status back. For a tight loop you may direct-message a \
     peer (crew_send with `to`), and `all-units` reaches the whole unit for the rare \
     broadcast.";

impl RoleCard {
    /// Whether the card's role leads the unit.
    pub open spec fn leads(self) -> bool {
        self.role@ == self.commander@
    }

    /// The lane line of the briefing.
    pub open spec fn lane_text(self) -> Seq<char> {
        if self.owned_paths@.len() == 0 {
            NO_LANE@
        } else {
            "Your lane: you own "@ + text::joined(text::texts(self.owned_paths@), ", "@)
                + ". Work within it and coordinate at its edges.\n"@
        }
    }

    /// The acceptance line of the briefing, where there is a bar.
    pub open spec fn acceptance_text(self) -> Seq<char> {
        if self.acceptance@.len() == 0 {
            Seq::empty()
        } else {
            "Acceptance bar: "@ + self.acceptance@ + "\n"@
        }
    }

    /// The role's place in the hub-and-spoke topology.
    pub open spec fn topology_text(self) -> Seq<char> {
        if self.leads() {
            COMMANDER_DUTIES@
        } else {
            "Your commander is "@ + self.commander@ + SPECIALIST_DUTIES@
        }
    }

    /// The agent's briefing.
    pub open spec fn briefing_text(self) -> Seq<char> {
        "You are the "@ + self.role@ + " role on a crew.\n\n"@ + self.lane_text()
            + self.acceptance_text() + "\n"@ + REACH_BEFORE@ + self.broker.url() + REACH_AFTER@
            + "\n"@ + DIRECTIVES@ + "\n"@ + self.topology_text()
    }

    /// A card for `role` with its owned paths, acceptance bar, and broker; the
    /// commander is the conventional one.
    pub fn new(
        role: RoleId,
        owned_paths: Vec<String>,
        acceptance: &str,
        broker: BrokerEndpoint,
    ) -> (r: Self)
        ensures
            r.role == role,
            r.owned_paths == owned_paths,
            r.acceptance@ == acceptance@,
            r.commander@ == DEFAULT_COMMANDER@,
            r.lane_enforcement == LaneEnforcement::Warn,
            r.runtime == Runtime::Claude,
            r.broker == broker,
    {
        RoleCard {
            role,
            owned_paths,
            acceptance: acceptance.to_owned(),
            commander: RoleId::new(DEFAULT_COMMANDER),
            lane_enforcement: LaneEnforcement::default(),
            runtime: Runtime::default(),
            broker,
        }
    }

    /// The card with the crew's commander set.
    pub fn with_commander(self, commander: RoleId) -> (r: Self)
        ensures
            r == (RoleCard { commander, ..self }),
    {
        RoleCard { commander, ..self }
    }

    /// The card with the crew's lane enforcement set.
    pub fn with_lane_enforcement(self, lane_enforcement: LaneEnforcement) -> (r: Self)
        ensures
            r == (RoleCard { lane_enforcement, ..self }),
    {
        RoleCard { lane_enforcement, ..self }
    }

    /// The card with the role's runtime set.
    pub fn with_runtime(self, runtime: Runtime) -> (r: Self)
        ensures
            r == (RoleCard { runtime, ..self }),
    {
        RoleCard { runtime, ..self }
    }

    /// Whether this card's role is the commander, the unit's lead and router.
    pub fn is_commander(&self) -> (r: bool)
        ensures
            r == self.leads(),
    {
        self.role.same(&self.commander)
    }

    /// The agent's briefing: the thin bootstrap prompt a role boots from. It
    /// states the role, its lane, its acceptance bar, and how to reach the
    /// unit.
    pub fn briefing(&self) -> (r: String)
        ensures
            r@ == self.briefing_text(),
    {
        let lane = if self.owned_paths.len() == 0 {
            NO_LANE.to_owned()
        } else {
            "Your lane: you own ".to_owned().concat(
                text::join(self.owned_paths.as_slice(), ", ").as_str(),
            ).concat(". Work within it and coordinate at its edges.\n")
        };
        let bar = if self.acceptance.as_str().is_empty() {
            String::new()
        } else {
            "Acceptance bar: ".to_owned().concat(self.acceptance.as_str()).concat("\n")
        };
        assert(bar@ =~= self.acceptance_text());
        "You are the ".to_owned().concat(self.role.as_str()).concat(
            " role on a crew.\n\n",
        ).concat(lane.as_str()).concat(bar.as_str()).concat("\n").concat(REACH_BEFORE).concat(
            self.broker.base_url().as_str(),
        ).concat(REACH_AFTER).concat("\n").concat(DIRECTIVES).concat("\n").concat(
            self.topology_briefing().as_str(),
        )
    }

    /// The role's place in the hub-and-spoke topology: commander duties, or how
    /// a specialist reaches its commander.
    fn topology_briefing(&self) -> (r: String)
        ensures
            r@ == self.topology_text(),
    {
        if self.is_commander() {
            return COMMANDER_DUTIES.to_owned();
        }
        "Your commander is ".to_owned().concat(self.commander.as_str()).concat(SPECIALIST_DUTIES)
    }
}

/// A card's role leads exactly where it is the commander, and its briefing gives it
/// the duties of the one or the other.
pub proof fn the_briefing_tells_the_role_its_place(card: RoleCard, leads: bool, briefing: String)
    requires
        call_ensures(RoleCard::is_commander, (&card,), leads),
        call_ensures(RoleCard::briefing, (&card,), briefing),
    ensures
        leads <==> card.role@ == card.commander@,
        ("You are the "@ + card.role@).is_prefix_of(briefing@),
        leads ==> COMMANDER_DUTIES@.is_suffix_of(briefing@),
        !leads ==> ("Your commander is "@ + card.commander@ + SPECIALIST_DUTIES@).is_suffix_of(
            briefing@,
        ),
        card.acceptance@.len() > 0 ==> text::mentions(
            briefing@,
            "Acceptance bar: "@ + card.acceptance@ + "\n"@,
        ),
        card.owned_paths@.len() > 0 ==> text::mentions(
            briefing@,
            text::joined(text::texts(card.owned_paths@), ", "@),
        ),
        card.owned_paths@.len() == 0 ==> text::mentions(briefing@, NO_LANE@),
        text::mentions(briefing@, card.broker.url()),
{
    let opening = "You are the "@ + card.role@;
    let lane = card.lane_text();
    let bar = card.acceptance_text();
    let place = card.topology_text();
    let s = briefing@;
    lemma_put_together(
        opening,
        " role on a crew.\n\n"@,
        lane,
        bar,
        REACH_BEFORE@,
        card.broker.url(),
        REACH_AFTER@,
        place,
    );
    if card.owned_paths@.len() > 0 {
        let paths = text::joined(text::texts(card.owned_paths@), ", "@);
        text::lemma_mentions(
            "Your lane: you own "@,
            paths,
            ". Work within it and coordinate at its edges.\n"@,
        );
        lemma_mentions_through(s, lane, paths);
    }
}

proof fn lemma_mentions_through(s: Seq<char>, middle: Seq<char>, part: Seq<char>)
    requires
        text::mentions(s, middle),
        text::mentions(middle, part),
    ensures
        text::mentions(s, part),
{
    let i = choose|i: int|
        0 <= i && i + middle.len() <= s.len() && #[trigger] s.subrange(i, i + middle.len())
            == middle;
    let k = choose|k: int|
        0 <= k && k + part.len() <= middle.len() && #[trigger] middle.subrange(k, k + part.len())
            == part;
    assert(s.subrange(i + k, i + k + part.len()) =~= middle.subrange(k, k + part.len()));
}

proof fn lemma_put_together(
    opening: Seq<char>,
    crew: Seq<char>,
    lane: Seq<char>,
    bar: Seq<char>,
    before: Seq<char>,
    url: Seq<char>,
    after: Seq<char>,
    place: Seq<char>,
)
    ensures
        ({
            let s = opening + crew + lane + bar + "\n"@ + before + url + after + "\n"@ + DIRECTIVES@
                + "\n"@ + place;
            &&& opening.is_prefix_of(s)
            &&& place.is_suffix_of(s)
            &&& text::mentions(s, lane)
            &&& text::mentions(s, bar)
            &&& text::mentions(s, url)
        }),
{
    let s = opening + crew + lane + bar + "\n"@ + before + url + after + "\n"@ + DIRECTIVES@ + "\n"@
        + place;
    assert(s.subrange(0, opening.len() as int) =~= opening);
    assert(s.subrange(s.len() - place.len(), s.len() as int) =~= place);
    let i = (opening + crew).len() as int;
    assert(s.subrange(i, i + lane.len()) =~= lane);
    let j = (opening + crew + lane).len() as int;
    assert(s.subrange(j, j + bar.len()) =~= bar);
    let k = (opening + crew + lane + bar + "\n"@ + before).len() as int;
    assert(s.subrange(k, k + url.len()) =~= url);
}

/// A broker is reached at the host and the port it was given.
pub proof fn a_broker_is_reached_where_it_was_put(
    host: &str,
    port: u16,
    endpoint: BrokerEndpoint,
    url: String,
)
    requires
        call_ensures(BrokerEndpoint::new, (host, port), endpoint),
        call_ensures(BrokerEndpoint::base_url, (&endpoint,), url),
    ensures
        url@ == "http://"@ + host@ + ":"@ + number::decimal(port as nat),
{
}

} // verus!
