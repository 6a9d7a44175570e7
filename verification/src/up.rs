//! Bringing the unit online: which config to read, when the unit is complete,
//! and what the operator is shown.
use vstd::prelude::*;

use crate::config::{CrewConfig, RoleSpec};
use crate::id::RoleId;
use crate::number;
use crate::text;

verus! {

/// The config read where none is named.
pub const DEFAULT_CONFIG: &'static str = "crew.toml";

/// The crew config to read: the given path, else the default one where it
/// exists, else none, for the default crew.
pub fn chosen_config(given: Option<&str>, default_exists: bool) -> (r: Option<String>)
    ensures
        text::opt_string(r) == (match text::opt_text(given) {
            Some(path) => Some(path),
            None => if default_exists {
                Some(DEFAULT_CONFIG@)
            } else {
                None
            },
        }),
{
    match given {
        Some(path) => Some(path.to_owned()),
        None => {
            if default_exists {
                Some(DEFAULT_CONFIG.to_owned())
            } else {
                None
            }
        },
    }
}

/// An agent's lifecycle state.
#[derive(Debug, Clone, Copy, PartialEq, Eq, Structural)]
pub enum AgentState {
    /// Not running.
    Stopped,
    /// Working.
    Working,
    /// Idle.
    Idle,
    /// Dead.
    Dead,
}

/// A human label for an agent's lifecycle state.
pub open spec fn state_text(state: AgentState) -> Seq<char> {
    match state {
        AgentState::Stopped => "stopped"@,
        AgentState::Working => "working"@,
        AgentState::Idle => "idle"@,
        AgentState::Dead => "dead"@,
    }
}

/// A human label for an agent's lifecycle state.
pub fn state_label(state: AgentState) -> (r: &'static str)
    ensures
        r@ == state_text(state),
{
    match state {
        AgentState::Stopped => "stopped",
        AgentState::Working => "working",
        AgentState::Idle => "idle",
        AgentState::Dead => "dead",
    }
}

/// A text filled up with spaces to a width.
pub open spec fn padded(s: Seq<char>, width: nat) -> Seq<char> {
    if s.len() < width {
        s + Seq::new((width - s.len()) as nat, |i: int| ' ')
    } else {
        s
    }
}

/// A text filled up with spaces to a width.
pub fn pad(s: &str, width: usize) -> (r: String)
    ensures
        r@ == padded(s@, width as nat),
{
    let n: usize = s.unicode_len();
    let mut out = s.to_owned();
    let mut i: usize = n;
    assert(out@ =~= padded(s@, n as nat));
    while i < width
        invariant
            n <= i,
            i <= width || i == n,
            n == s@.len(),
            out@ == padded(s@, i as nat),
        decreases width - i,
    {
        let ghost before = out@;
        out.push(' ');
        i = i + 1;
        assert(out@ =~= padded(s@, i as nat));
    }
    assert(padded(s@, i as nat) =~= padded(s@, width as nat));
    out
}

/// One role as the operator sees it come up: its state and its lane.
pub open spec fn role_line(role: RoleSpec, state: Option<AgentState>) -> Seq<char> {
    "\n  "@ + padded(role.role@, 12) + " "@ + padded(
        match state {
            Some(state) => state_text(state),
            None => "pending"@,
        },
        8,
    ) + " "@ + (if role.owned_paths@.len() == 0 {
        "routes, owns no lane"@
    } else {
        text::joined(text::texts(role.owned_paths@), ", "@)
    })
}

/// Roles as the operator sees them come up.
pub open spec fn role_lines(roles: Seq<RoleSpec>, states: Seq<Option<AgentState>>) -> Seq<char>
    decreases roles.len(),
{
    if roles.len() == 0 {
        Seq::empty()
    } else {
        role_lines(roles.drop_last(), states) + role_line(roles.last(), states[roles.len() - 1])
    }
}

/// The live roster as the operator sees it: each role, its state (pending
/// where it has none yet), and the lane it owns.
pub fn print_roster(config: &CrewConfig, states: &[Option<AgentState>]) -> (r: String)
    requires
        states@.len() == config.roles@.len(),
    ensures
        r@ == "\nCrew is up. "@ + number::decimal(config.roles@.len()) + " roles online:"@
            + role_lines(config.roles@, states@),
{
    let roles = &config.roles;
    let mut out = "\nCrew is up. ".to_owned().concat(
        number::decimal_usize(roles.len()).as_str(),
    ).concat(" roles online:");
    let ghost head = out@;
    let mut i: usize = 0;
    assert(roles@.take(0) =~= Seq::empty());
    assert(out@ =~= head + role_lines(roles@.take(0), states@));
    while i < roles.len()
        invariant
            i <= roles.len(),
            states@.len() == roles@.len(),
            out@ == head + role_lines(roles@.take(i as int), states@),
        decreases roles.len() - i,
    {
        let role = &roles[i];
        let state = match states[i] {
            Some(state) => state_label(state),
            None => "pending",
        };
        let lane = if role.owned_paths.len() == 0 {
            "routes, owns no lane".to_owned()
        } else {
            text::join(role.owned_paths.as_slice(), ", ")
        };
        let line = "\n  ".to_owned().concat(pad(role.role.as_str(), 12).as_str()).concat(" ").concat(
            pad(state, 8).as_str(),
        ).concat(" ").concat(lane.as_str());
        let ghost before = out@;
        out.append(line.as_str());
        i = i + 1;
        assert(roles@.take(i as int).drop_last() =~= roles@.take(i - 1));
        assert(roles@.take(i as int).last() == roles@[i - 1]);
        assert(out@ =~= head + role_lines(roles@.take(i as int), states@));
    }
    assert(roles@.take(roles@.len() as int) =~= roles@);
    out
}

/// What the operator is told last, after the commander's name.
pub const COMMANDER_ENTRY: &'static str =
    "`) to set the unit to work:\n  crew send \"<your intent>\"\n\nPress Ctrl-C or run `crew \
     down` to stand the crew down.";

/// Points the operator at the commander, the entry point for briefing the unit.
pub fn commander_entry(config: &CrewConfig) -> (r: String)
    ensures
        r@ == "\nBrief the commander (`"@ + config.commander@ + COMMANDER_ENTRY@,
{
    "\nBrief the commander (`".to_owned().concat(config.commander.as_str()).concat(
        COMMANDER_ENTRY,
    )
}

/// Whether a role is among those registered.
pub open spec fn is_registered(registered: Seq<RoleId>, role: RoleId) -> bool {
    exists|i: int| 0 <= i < registered.len() && (#[trigger] registered[i])@ == role@
}

/// Whether a role is among those registered.
fn registered_role(registered: &[RoleId], role: &RoleId) -> (r: bool)
    ensures
        r == is_registered(registered@, *role),
{
    let mut i: usize = 0;
    while i < registered.len()
        invariant
            i <= registered.len(),
            forall|j: int| 0 <= j < i ==> (#[trigger] registered@[j])@ != role@,
        decreases registered.len() - i,
    {
        if registered[i].same(role) {
            return true;
        }
        i = i + 1;
    }
    false
}

/// Whether the wait for the roles is over: every one is registered, or the time
/// is up, and the roster shows what came up.
pub fn wait_is_over(config: &CrewConfig, registered: &[RoleId], expired: bool) -> (r: bool)
    ensures
        r == (expired || (forall|i: int|
            0 <= i < config.roles@.len() ==> is_registered(
                registered@,
                (#[trigger] config.roles@[i]).role,
            ))),
{
    expired || all_registered(config, registered)
}

/// Whether every role of the crew is registered, so the roster shows the live
/// unit.
pub fn all_registered(config: &CrewConfig, registered: &[RoleId]) -> (r: bool)
    ensures
        r == (forall|i: int|
            0 <= i < config.roles@.len() ==> is_registered(
                registered@,
                (#[trigger] config.roles@[i]).role,
            )),
{
    let mut i: usize = 0;
    while i < config.roles.len()
        invariant
            i <= config.roles.len(),
            forall|j: int|
                0 <= j < i ==> is_registered(registered@, (#[trigger] config.roles@[j]).role),
        decreases config.roles.len() - i,
    {
        if !registered_role(registered, &config.roles[i].role) {
            return false;
        }
        i = i + 1;
    }
    true
}

/// The config named comes first, then the usual one where there is one.
pub proof fn the_config_named_comes_first(
    given: &str,
    exists_: bool,
    named: Option<String>,
    usual: Option<String>,
    none: Option<String>,
)
    requires
        call_ensures(chosen_config, (Some(given), exists_), named),
        call_ensures(chosen_config, (None, true), usual),
        call_ensures(chosen_config, (None, false), none),
    ensures
        named matches Some(path) && path@ == given@,
        usual matches Some(path) && path@ == "crew.toml"@,
        none is None,
{
}

/// The wait for the roles ends once every role of the crew has registered, or the time
/// is up, and not before.
pub proof fn the_wait_ends_with_the_last_role(
    config: CrewConfig,
    registered: &[RoleId],
    expired: bool,
    over: bool,
    all: bool,
    i: int,
)
    requires
        call_ensures(wait_is_over, (&config, registered, expired), over),
        call_ensures(all_registered, (&config, registered), all),
        0 <= i < config.roles@.len(),
    ensures
        over <==> expired || all,
        all ==> exists|j: int|
            0 <= j < registered@.len() && (#[trigger] registered@[j])@ == config.roles@[i].role@,
        (forall|k: int|
            0 <= k < config.roles@.len() ==> exists|j: int|
                0 <= j < registered@.len() && (#[trigger] registered@[j])@ == (
                #[trigger] config.roles@[k]).role@) ==> all,
{
    if all {
        assert(is_registered(registered@, config.roles@[i].role));
    }
    if forall|k: int|
        0 <= k < config.roles@.len() ==> exists|j: int|
            0 <= j < registered@.len() && (#[trigger] registered@[j])@ == (
            #[trigger] config.roles@[k]).role@ {
        assert forall|k: int| 0 <= k < config.roles@.len() implies is_registered(
            registered@,
            (#[trigger] config.roles@[k]).role,
        ) by {
            let j = choose|j: int|
                0 <= j < registered@.len() && (#[trigger] registered@[j])@ == config.roles@[k].role@;
            assert(registered@[j]@ == config.roles@[k].role@);
        }
    }
}

/// The roster printed names each role, with its state, pending where it has none yet,
/// and its lane; and the operator is pointed at the commander.
pub proof fn the_roster_printed_names_each_role(
    config: CrewConfig,
    states: &[Option<AgentState>],
    shown: String,
    entry: String,
    k: int,
)
    requires
        states@.len() == config.roles@.len(),
        call_ensures(print_roster, (&config, states), shown),
        call_ensures(commander_entry, (&config,), entry),
        0 <= k < config.roles@.len(),
    ensures
        ({
            let role = config.roles@[k];
            let line = role_line(role, states@[k]);
            &&& text::mentions(shown@, line)
            &&& ("\n  "@ + role.role@).is_prefix_of(line)
            &&& role.owned_paths@.len() > 0 ==> text::joined(
                text::texts(role.owned_paths@),
                ", "@,
            ).is_suffix_of(line)
            &&& states@[k] is None ==> text::mentions(line, "pending"@)
            &&& states@[k] == Some(AgentState::Working) ==> text::mentions(line, "working"@)
            &&& states@[k] == Some(AgentState::Idle) ==> text::mentions(line, "idle"@)
            &&& states@[k] == Some(AgentState::Stopped) ==> text::mentions(line, "stopped"@)
            &&& states@[k] == Some(AgentState::Dead) ==> text::mentions(line, "dead"@)
        }),
        text::mentions(shown@, number::decimal(config.roles@.len()) + " roles online:"@),
        ("\nBrief the commander (`"@ + config.commander@).is_prefix_of(entry@),
{
    let role = config.roles@[k];
    let n = number::decimal(config.roles@.len());
    let head = "\nCrew is up. "@ + n + " roles online:"@;
    let lines = role_lines(config.roles@, states@);
    text::lemma_associative("\nCrew is up. "@, n, " roles online:"@);
    text::lemma_pieces("\nCrew is up. "@, n + " roles online:"@);
    text::lemma_extends(head, lines, n + " roles online:"@);
    lemma_role_listed(config.roles@, states@, k);
    text::lemma_mentions_within(head, lines, Seq::empty(), role_line(role, states@[k]));
    assert(head + lines + Seq::<char>::empty() =~= head + lines);
    text::lemma_pieces("\nBrief the commander (`"@ + config.commander@, COMMANDER_ENTRY@);
    lemma_role_line(role, states@[k]);
}

proof fn lemma_role_listed(roles: Seq<RoleSpec>, states: Seq<Option<AgentState>>, k: int)
    requires
        0 <= k < roles.len(),
    ensures
        text::mentions(role_lines(roles, states), role_line(roles[k], states[k])),
    decreases roles.len(),
{
    let front = role_lines(roles.drop_last(), states);
    let last = role_line(roles.last(), states[roles.len() - 1]);
    text::lemma_pieces(front, last);
    if k < roles.len() - 1 {
        lemma_role_listed(roles.drop_last(), states, k);
        text::lemma_extends(front, last, role_line(roles[k], states[k]));
    }
}

proof fn lemma_padded(s: Seq<char>, width: nat)
    ensures
        s.is_prefix_of(padded(s, width)),
        text::mentions(padded(s, width), s),
{
    let more = if s.len() < width {
        Seq::new((width - s.len()) as nat, |i: int| ' ')
    } else {
        Seq::empty()
    };
    assert(padded(s, width) =~= s + more);
    text::lemma_pieces(s, more);
}

proof fn lemma_role_line(role: RoleSpec, state: Option<AgentState>)
    ensures
        ({
            let line = role_line(role, state);
            &&& ("\n  "@ + role.role@).is_prefix_of(line)
            &&& role.owned_paths@.len() > 0 ==> text::joined(
                text::texts(role.owned_paths@),
                ", "@,
            ).is_suffix_of(line)
            &&& text::mentions(
                line,
                match state {
                    Some(state) => state_text(state),
                    None => "pending"@,
                },
            )
        }),
{
    let name = padded(role.role@, 12);
    let label = match state {
        Some(state) => state_text(state),
        None => "pending"@,
    };
    let lane = if role.owned_paths@.len() == 0 {
        "routes, owns no lane"@
    } else {
        text::joined(text::texts(role.owned_paths@), ", "@)
    };
    let named = "\n  "@ + name;
    let shown = padded(label, 8);
    lemma_padded(role.role@, 12);
    lemma_padded(label, 8);
    let start = "\n  "@ + role.role@;
    assert(start.is_prefix_of(named)) by {
        let n = start.len() as int;
        assert(named.subrange(0, n) =~= start) by {
            assert(name.subrange(0, role.role@.len() as int) == role.role@);
            assert forall|i: int| 0 <= i < n implies named[i] == start[i] by {
                if i >= "\n  "@.len() {
                    let j = i - "\n  "@.len();
                    assert(name.subrange(0, role.role@.len() as int)[j] == name[j]);
                }
            }
        }
    }
    text::lemma_extends(named, " "@, start);
    text::lemma_extends(named + " "@, shown, start);
    text::lemma_extends(named + " "@ + shown, " "@, start);
    text::lemma_extends(named + " "@ + shown + " "@, lane, start);
    text::lemma_pieces(named + " "@ + shown + " "@, lane);
    text::lemma_mentions_within(named + " "@, shown, " "@, label);
    text::lemma_extends(named + " "@ + shown + " "@, lane, label);
}

/// A text filled up keeps its own characters first, and has the width unless it was
/// longer.
pub proof fn filling_up_keeps_the_text(s: &str, width: usize, r: String)
    requires
        call_ensures(pad, (s, width), r),
    ensures
        s@.is_prefix_of(r@),
        s@.len() <= width ==> r@.len() == width,
        s@.len() > width ==> r@ == s@,
        forall|i: int| s@.len() <= i < r@.len() ==> #[trigger] r@[i] == ' ',
{
    lemma_padded(s@, width as nat);
}

} // verus!
