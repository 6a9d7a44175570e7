//! The agent's commands on the command line: who it acts as, and how it reads
//! its inbox and the roster.
use vstd::prelude::*;

use crate::card::{BrokerEndpoint, RoleCard, DEFAULT_COMMANDER, ROLE_CARD_ENV};
use crate::channel;
use crate::channel::ChannelView;
use crate::client::{Broker, BrokerView};
use crate::config::{LaneEnforcement, Runtime};
use crate::id::{RoleId, TaskId};
use crate::inbox::InboxItem;
use crate::number;
use crate::snapshot;
use crate::snapshot::RoleEntry;
use crate::text;

verus! {

/// The resolved agent context a command acts as: its broker, role, and lane.
#[derive(Debug, PartialEq, Eq)]
pub struct Agent {
    /// The broker base URL, such as `http://127.0.0.1:2739`.
    pub base: String,
    /// The role this agent plays on the crew.
    pub role: RoleId,
    /// The crew's commander, the default addressee for an unaddressed message.
    pub commander: RoleId,
    /// The paths the role owns, registered with the roster.
    pub owned_paths: Vec<String>,
}

/// What a command without a role context is told.
pub open spec fn no_role_text() -> Seq<char> {
    "set "@ + ROLE_CARD_ENV@ + " to a role card, or CREW_ROLE to name the role"@
}

/// The role that the environment names, or an error where it names none.
pub fn named_role(role: Option<&str>) -> (r: Result<RoleId, String>)
    ensures
        match ChannelView::given(text::opt_text(role)) {
            Some(name) => r matches Ok(role) && role@ == name,
            None => r matches Err(why) && why@ == no_role_text(),
        },
{
    match channel::given_name(role) {
        Some(role) => Ok(RoleId::new(role)),
        None => Err(
            "set ".to_owned().concat(ROLE_CARD_ENV).concat(
                " to a role card, or CREW_ROLE to name the role",
            ),
        ),
    }
}

/// The card of a bare manual boot: the role that the environment names, an
/// empty lane and acceptance bar, and the broker's own address.
pub fn bare_card(role: Option<&str>, broker: BrokerEndpoint) -> (r: Result<RoleCard, String>)
    ensures
        match ChannelView::given(text::opt_text(role)) {
            Some(name) => r matches Ok(card) && card.role@ == name && card.owned_paths@.len() == 0
                && card.acceptance@.len() == 0 && card.broker == broker && card.commander@
                == DEFAULT_COMMANDER@ && card.lane_enforcement == LaneEnforcement::Warn
                && card.runtime == Runtime::Claude,
            None => r matches Err(why) && why@ == no_role_text(),
        },
{
    match named_role(role) {
        Ok(role) => {
            let card = RoleCard::new(role, Vec::new(), "", broker);
            proof {
                reveal_strlit("");
            }
            Ok(card)
        },
        Err(why) => Err(why),
    }
}

impl Agent {
    /// The agent that a role card describes.
    pub fn from_card(card: RoleCard) -> (r: Self)
        ensures
            r.base@ == card.broker.url(),
            r.role == card.role,
            r.commander == card.commander,
            r.owned_paths == card.owned_paths,
    {
        Agent {
            base: card.broker.base_url(),
            role: card.role,
            commander: card.commander,
            owned_paths: card.owned_paths,
        }
    }

    /// The agent of a bare manual boot: the role that the environment names,
    /// with an empty lane and the conventional commander.
    pub fn from_role(role: Option<&str>, broker: &BrokerEndpoint) -> (r: Result<Self, String>)
        ensures
            match ChannelView::given(text::opt_text(role)) {
                Some(name) => r matches Ok(agent) && agent.base@ == broker.url() && agent.role@
                    == name && agent.commander@ == DEFAULT_COMMANDER@
                    && agent.owned_paths@.len() == 0,
                None => r matches Err(why) && why@ == no_role_text(),
            },
    {
        match named_role(role) {
            Ok(role) => Ok(
                Agent {
                    base: broker.base_url(),
                    role,
                    commander: RoleId::new(DEFAULT_COMMANDER),
                    owned_paths: Vec::new(),
                },
            ),
            Err(why) => Err(why),
        }
    }

    /// A broker client acting as this agent's role, that has delivered
    /// `read_through` messages of the log and works under `task`.
    pub fn broker(&self, read_through: usize, task: Option<TaskId>) -> (r: Broker)
        ensures
            r@ == (BrokerView {
                base: self.base@,
                role: self.role@,
                commander: self.commander@,
                read_through: read_through as nat,
                cursor: None,
                task,
            }),
    {
        Broker::new(
            self.base.as_str(),
            self.role.clone(),
            self.commander.clone(),
        ).with_read_through(read_through).with_task(task)
    }

    /// What a registration is told.
    pub fn registered(&self) -> (r: String)
        ensures
            r@ == "registered "@ + self.role@ + " on the roster"@,
    {
        "registered ".to_owned().concat(self.role.as_str()).concat(" on the roster")
    }
}

/// One message on the command line.
pub open spec fn message_line(item: InboxItem) -> Seq<char> {
    "- "@ + item.from@ + " on "@ + item.channel@ + " ("@ + item.kind@ + "): "@
        + snapshot::content_text(item)
}

/// The messages addressed to the role, as printed.
pub open spec fn messages_text(items: Seq<InboxItem>) -> Seq<char> {
    if items.len() == 0 {
        "No messages."@
    } else {
        snapshot::headed(
            snapshot::counted(items.len(), " message(s):"@),
            items.map_values(|item: InboxItem| message_line(item)),
        )
    }
}

/// The inbox items, one per line.
pub fn inbox(items: &[InboxItem]) -> (r: String)
    ensures
        r@ == messages_text(items@),
{
    if items.len() == 0 {
        return "No messages.".to_owned();
    }
    let ghost all = items@.map_values(|item: InboxItem| message_line(item));
    let mut lines: Vec<String> = Vec::new();
    let mut i: usize = 0;
    while i < items.len()
        invariant
            i <= items.len(),
            all == items@.map_values(|item: InboxItem| message_line(item)),
            text::texts(lines@) == all.take(i as int),
        decreases items.len() - i,
    {
        let item = &items[i];
        // Lead with the structured detail (an order's task); fall back to the body.
        let content = if item.detail.as_str().is_empty() {
            item.body.clone()
        } else if item.body.as_str().is_empty() {
            item.detail.clone()
        } else {
            item.detail.clone().concat(". ").concat(item.body.as_str())
        };
        let line = "- ".to_owned().concat(item.from.as_str()).concat(" on ").concat(
            item.channel.as_str(),
        ).concat(" (").concat(item.kind.as_str()).concat("): ").concat(content.as_str());
        assert(line@ == all[i as int]);
        let ghost before = text::texts(lines@);
        lines.push(line);
        assert(text::texts(lines@) =~= before.push(all[i as int]));
        i = i + 1;
        assert(all.take(i as int) =~= all.take(i - 1).push(all[i - 1]));
    }
    assert(all.take(all.len() as int) =~= all);
    number::decimal_usize(items.len()).concat(" message(s):").concat("\n").concat(
        text::join(lines.as_slice(), "\n").as_str(),
    )
}

/// One role on the command line.
pub open spec fn role_line(role: RoleEntry) -> Seq<char> {
    "- "@ + role.role@ + " ["@ + role.liveness@ + "]"@ + (if role.owned_paths@.len() == 0 {
        Seq::empty()
    } else {
        " owns "@ + text::joined(text::texts(role.owned_paths@), ", "@)
    })
}

/// The unit's roster, as printed.
pub open spec fn roles_text(roles: Seq<RoleEntry>) -> Seq<char> {
    if roles.len() == 0 {
        "The roster is empty."@
    } else {
        snapshot::headed(
            snapshot::counted(roles.len(), " role(s):"@),
            roles.map_values(|role: RoleEntry| role_line(role)),
        )
    }
}

/// The roster entries, one per line.
pub fn roster(roles: &[RoleEntry]) -> (r: String)
    ensures
        r@ == roles_text(roles@),
{
    if roles.len() == 0 {
        return "The roster is empty.".to_owned();
    }
    let ghost all = roles@.map_values(|role: RoleEntry| role_line(role));
    let mut lines: Vec<String> = Vec::new();
    let mut i: usize = 0;
    while i < roles.len()
        invariant
            i <= roles.len(),
            all == roles@.map_values(|role: RoleEntry| role_line(role)),
            text::texts(lines@) == all.take(i as int),
        decreases roles.len() - i,
    {
        let role = &roles[i];
        let owns = if role.owned_paths.len() == 0 {
            String::new()
        } else {
            " owns ".to_owned().concat(text::join(role.owned_paths.as_slice(), ", ").as_str())
        };
        let line = "- ".to_owned().concat(role.role.as_str()).concat(" [").concat(
            role.liveness.as_str(),
        ).concat("]").concat(owns.as_str());
        assert(line@ == all[i as int]);
        let ghost before = text::texts(lines@);
        lines.push(line);
        assert(text::texts(lines@) =~= before.push(all[i as int]));
        i = i + 1;
        assert(all.take(i as int) =~= all.take(i - 1).push(all[i - 1]));
    }
    assert(all.take(all.len() as int) =~= all);
    number::decimal_usize(roles.len()).concat(" role(s):").concat("\n").concat(
        text::join(lines.as_slice(), "\n").as_str(),
    )
}

/// An agent acts as the role its card gives it, against its card's broker and under its
/// card's commander, with its card's lane; without a card, as the role the environment
/// names, under the usual commander and with no lane; and without either, not at all.
pub proof fn an_agent_acts_as_its_role(
    card: RoleCard,
    name: Option<&str>,
    broker: BrokerEndpoint,
    carded: Agent,
    bare: Result<Agent, String>,
    booted: Result<RoleCard, String>,
)
    requires
        call_ensures(Agent::from_card, (card,), carded),
        call_ensures(Agent::from_role, (name, &broker), bare),
        call_ensures(bare_card, (name, broker), booted),
    ensures
        carded.role@ == card.role@ && carded.commander@ == card.commander@,
        carded.owned_paths@ == card.owned_paths@,
        carded.base@ == card.broker.url(),
        ({
            let named = name is Some && exists|i: int|
                0 <= i < name->0@.len() && !text::white_space(#[trigger] name->0@[i]);
            &&& !named ==> bare is Err && booted is Err
            &&& named ==> {
                &&& bare matches Ok(agent) && agent.role@ == text::trimmed(name->0@)
                    && agent.commander@ == "commander"@ && agent.owned_paths@.len() == 0
                    && agent.base@ == broker.url()
                &&& booted matches Ok(made) && made.role@ == text::trimmed(name->0@)
                    && made.commander@ == "commander"@ && made.owned_paths@.len() == 0
                    && made.broker == broker
            }
        }),
{
    if let Some(s) = name {
        text::blank_means_white_space_only(s@);
    }
}

/// The messages printed are all there are, under how many: each by its sender, its
/// channel and its kind, with what it says.
pub proof fn each_message_is_printed(items: &[InboxItem], shown: String, k: int)
    requires
        call_ensures(inbox, (items,), shown),
    ensures
        items@.len() == 0 ==> shown@ == "No messages."@,
        0 <= k < items@.len() ==> {
            let item = items@[k];
            &&& (number::decimal(items@.len()) + " message(s):"@).is_prefix_of(shown@)
            &&& text::mentions(shown@, message_line(item))
            &&& ("- "@ + item.from@ + " on "@ + item.channel@ + " ("@
                + item.kind@).is_prefix_of(message_line(item))
            &&& item.body@.len() > 0 ==> item.body@.is_suffix_of(message_line(item))
            &&& item.body@.len() == 0 ==> item.detail@.is_suffix_of(message_line(item))
            &&& item.detail@.len() > 0 ==> text::mentions(message_line(item), item.detail@)
        },
{
    if 0 <= k < items@.len() {
        let item = items@[k];
        let lines = items@.map_values(|item: InboxItem| message_line(item));
        snapshot::lemma_headed(snapshot::counted(items@.len(), " message(s):"@), lines, k);
        let front = "- "@ + item.from@ + " on "@ + item.channel@ + " ("@ + item.kind@;
        let content = snapshot::content_text(item);
        text::lemma_pieces(front, "): "@);
        text::lemma_extends(front + "): "@, content, front);
        text::lemma_pieces(front + "): "@, content);
        if item.detail@.len() > 0 && item.body@.len() > 0 {
            let before = front + "): "@;
            text::lemma_associative(before, item.detail@ + ". "@, item.body@);
            text::lemma_pieces(before + (item.detail@ + ". "@), item.body@);
            text::lemma_associative(before, item.detail@, ". "@);
            text::lemma_pieces(before, item.detail@);
            text::lemma_extends(before + item.detail@, ". "@, item.detail@);
            text::lemma_extends(before + (item.detail@ + ". "@), item.body@, item.detail@);
        }
    }
}

/// The roles printed are all there are, under how many: each by its liveness and its
/// lane.
pub proof fn each_role_is_printed(roles: &[RoleEntry], shown: String, k: int)
    requires
        call_ensures(roster, (roles,), shown),
    ensures
        roles@.len() == 0 ==> shown@ == "The roster is empty."@,
        0 <= k < roles@.len() ==> {
            let role = roles@[k];
            &&& (number::decimal(roles@.len()) + " role(s):"@).is_prefix_of(shown@)
            &&& text::mentions(shown@, role_line(role))
            &&& ("- "@ + role.role@ + " ["@ + role.liveness@ + "]"@).is_prefix_of(role_line(role))
            &&& role.owned_paths@.len() > 0 ==> text::joined(
                text::texts(role.owned_paths@),
                ", "@,
            ).is_suffix_of(role_line(role))
            &&& role.owned_paths@.len() == 0 ==> role_line(role) == "- "@ + role.role@ + " ["@
                + role.liveness@ + "]"@
        },
{
    if 0 <= k < roles@.len() {
        let role = roles@[k];
        let lines = roles@.map_values(|role: RoleEntry| role_line(role));
        snapshot::lemma_headed(snapshot::counted(roles@.len(), " role(s):"@), lines, k);
        let front = "- "@ + role.role@ + " ["@ + role.liveness@ + "]"@;
        let paths = text::joined(text::texts(role.owned_paths@), ", "@);
        let owns = if role.owned_paths@.len() == 0 {
            Seq::<char>::empty()
        } else {
            " owns "@ + paths
        };
        text::lemma_pieces(front, owns);
        text::lemma_associative(front, " owns "@, paths);
        text::lemma_pieces(front + " owns "@, paths);
    }
}

} // verus!
