//! The crew config: the declarative description a crew is brought online from.
//!
//! A [`RawConfig`] is a config as written, every field optional. Resolving it
//! applies the defaults, and validating the result makes sure the roles are
//! named and distinct, the commander is one of them, and no two roles own
//! overlapping lanes.
use vstd::prelude::*;

use crate::budget::Budget;
use crate::card::{BrokerEndpoint, RoleCard, DEFAULT_COMMANDER};
use crate::id::RoleId;
use crate::lane;
use crate::model::{self, ModelTier, ModelTiers};
use crate::number;
use crate::path;
use crate::rolemap::RoleMap;
use crate::text;

verus! {

/// How the crew enforces lane ownership when a role edits outside its owned
/// paths.
#[derive(Debug, Clone, Copy, PartialEq, Eq, Structural)]
pub enum LaneEnforcement {
    /// Off: out-of-lane edits are not checked.
    Off,
    /// Warn: an out-of-lane edit is reported, but the role may proceed.
    Warn,
    /// Block: an out-of-lane edit is refused.
    Block,
}

impl Default for LaneEnforcement {
    fn default() -> (r: Self)
        ensures
            r == LaneEnforcement::Warn,
    {
        LaneEnforcement::Warn
    }
}

/// The agent runtime a role runs on.
#[derive(Debug, Clone, Copy, PartialEq, Eq, Structural)]
pub enum Runtime {
    /// The runtime that reaches the crew through the MCP tools.
    Claude,
    /// Codex, which reaches the crew through the CLI shim.
    Codex,
}

impl Default for Runtime {
    fn default() -> (r: Self)
        ensures
            r == Runtime::Claude,
    {
        Runtime::Claude
    }
}

/// A whole number of seconds.
#[derive(Debug, Clone, Copy, PartialEq, Eq, PartialOrd, Ord, Structural)]
pub struct Seconds(pub u64);

impl Seconds {
    /// The number of seconds.
    pub fn as_secs(self) -> (r: u64)
        ensures
            r == self.0,
    {
        self.0
    }
}

/// The default idle-stop timeout, in seconds.
pub const DEFAULT_IDLE_STOP: u64 = 300;

/// What a duration should look like.
pub const EXPECTED_DURATION: &'static str =
    "expected a duration like `5m`, `30s`, `2h`, or a number of seconds";

/// Whether every character of `s` is a decimal digit.
pub open spec fn all_digits(s: Seq<char>) -> bool {
    forall|i: int| 0 <= i < s.len() ==> number::is_digit(#[trigger] s[i])
}

/// The seconds in `n` units of time.
pub open spec fn timed(n: nat, unit: char) -> Option<nat> {
    if unit == 's' {
        Some(n)
    } else if unit == 'm' {
        Some(n * 60)
    } else if unit == 'h' {
        Some(n * 3600)
    } else {
        None
    }
}

/// The count before the unit of a duration's text.
pub open spec fn duration_count(s: Seq<char>) -> Option<nat> {
    number::unsigned(text::trimmed(s.drop_last()), u64::MAX as nat)
}

/// The seconds that a duration's text means, or what is wrong with it: digits
/// alone are seconds, and a number may carry one of the units `s`, `m`, `h`. A
/// number of seconds beyond `u64` is none.
pub open spec fn duration(t: Seq<char>) -> Result<nat, Seq<char>> {
    let s = text::trimmed(t);
    if s.len() == 0 {
        Err(EXPECTED_DURATION@)
    } else if all_digits(s) {
        match number::unsigned(s, u64::MAX as nat) {
            Some(n) => Ok(n),
            None => Err(EXPECTED_DURATION@),
        }
    } else {
        match duration_count(s) {
            None => Err("expected a number before the unit; "@ + EXPECTED_DURATION@),
            Some(n) => match timed(n, s.last()) {
                Some(seconds) => if seconds <= u64::MAX {
                    Ok(seconds)
                } else {
                    Err(EXPECTED_DURATION@)
                },
                None => Err("unknown time unit `"@ + seq![s.last()] + "`; use s, m, or h"@),
            },
        }
    }
}

/// Whether every character of `s` is a decimal digit.
fn is_all_digits(s: &str) -> (r: bool)
    ensures
        r == all_digits(s@),
{
    let cs = text::chars_of(s);
    let mut i: usize = 0;
    while i < cs.len()
        invariant
            i <= cs.len(),
            cs@ == s@,
            forall|j: int| 0 <= j < i ==> number::is_digit(#[trigger] cs@[j]),
        decreases cs.len() - i,
    {
        if cs[i] < '0' || cs[i] > '9' {
            assert(!number::is_digit(s@[i as int]));
            return false;
        }
        i = i + 1;
    }
    true
}

/// The outcome of reading a duration, by the texts it holds.
pub open spec fn duration_view(r: Result<Seconds, String>) -> Result<nat, Seq<char>> {
    match r {
        Ok(seconds) => Ok(seconds.0 as nat),
        Err(reason) => Err(reason@),
    }
}

/// `count` units of `unit` seconds each, where they stay within `u64`.
fn in_seconds(count: u64, unit: u64) -> (r: Result<Seconds, String>)
    ensures
        duration_view(r) == (if count * unit <= u64::MAX {
            Ok::<nat, Seq<char>>((count * unit) as nat)
        } else {
            Err(EXPECTED_DURATION@)
        }),
{
    match count.checked_mul(unit) {
        Some(seconds) => Ok(Seconds(seconds)),
        None => Err(EXPECTED_DURATION.to_owned()),
    }
}

/// Reads a human duration: a plain number of seconds, or a number with an
/// `s`/`m`/`h` suffix (`30s`, `5m`, `2h`).
pub fn parse_duration(text: &str) -> (r: Result<Seconds, String>)
    ensures
        duration_view(r) == duration(text@),
{
    let s = text::trim(text);
    let n: usize = s.unicode_len();
    if n == 0 {
        return Err(EXPECTED_DURATION.to_owned());
    }
    if is_all_digits(s) {
        return match number::parse_unsigned(s, u64::MAX) {
            Some(seconds) => Ok(Seconds(seconds)),
            None => Err(EXPECTED_DURATION.to_owned()),
        };
    }
    let last = s.get_char(n - 1);
    let number = s.substring_char(0, n - 1);
    assert(number@ =~= s@.drop_last());
    assert(last == s@.last());
    match number::parse_unsigned(text::trim(number), u64::MAX) {
        None => Err("expected a number before the unit; ".to_owned().concat(EXPECTED_DURATION)),
        Some(count) => {
            if last == 's' {
                Ok(Seconds(count))
            } else if last == 'm' {
                in_seconds(count, 60)
            } else if last == 'h' {
                in_seconds(count, 3600)
            } else {
                let mut reason = "unknown time unit `".to_owned();
                reason.push(last);
                reason.append("`; use s, m, or h");
                assert(reason@ =~= "unknown time unit `"@ + seq![last] + "`; use s, m, or h"@);
                Err(reason)
            }
        },
    }
}

/// One role in a crew: its name, its lane, its acceptance bar, and its model.
#[derive(Debug, PartialEq, Eq)]
pub struct RoleSpec {
    /// The role's stable id.
    pub role: RoleId,
    /// The directory boundaries the role owns, its lane in the tree.
    pub owned_paths: Vec<String>,
    /// The bar the role holds its work to.
    pub acceptance: String,
    /// The tier this role runs, overriding the default tier for its name.
    pub tier: Option<ModelTier>,
    /// An exact model alias for this role, which wins over any tier.
    pub model: Option<String>,
    /// The role's token cap.
    pub token_cap: Option<u64>,
    /// The runtime the role is spawned on.
    pub runtime: Runtime,
}

/// A resolved crew: its roles, its defaults, and its commander.
#[derive(Debug, PartialEq, Eq)]
pub struct CrewConfig {
    /// The roles that make up the crew, each with the lane it owns.
    pub roles: Vec<RoleSpec>,
    /// The role that leads and routes: the one the General briefs.
    pub commander: RoleId,
    /// A crew-wide model alias that runs every un-tiered role.
    pub model: Option<String>,
    /// The concrete model alias each tier resolves to.
    pub models: ModelTiers,
    /// The crew-wide token budget.
    pub token_budget: Option<u64>,
    /// How long a role may be quiet before it is idle-stopped.
    pub idle_stop: Seconds,
    /// The repos in scope for the crew: each a path or a bare name.
    pub repos: Vec<String>,
    /// The directory the crew's named repos live under.
    pub workspace: Option<String>,
    /// Whether each role works in its own git worktree.
    pub worktrees: bool,
    /// How the crew enforces lane ownership.
    pub lane_enforcement: LaneEnforcement,
}

/// A config as written: every field optional.
#[derive(Debug)]
pub struct RawConfig {
    /// See [`CrewConfig::model`].
    pub model: Option<String>,
    /// See [`CrewConfig::models`].
    pub models: Option<RawModels>,
    /// See [`CrewConfig::token_budget`].
    pub token_budget: Option<u64>,
    /// See [`CrewConfig::commander`].
    pub commander: Option<String>,
    /// See [`CrewConfig::idle_stop`].
    pub idle_stop: Option<String>,
    /// See [`CrewConfig::repos`].
    pub repos: Option<Vec<String>>,
    /// See [`CrewConfig::workspace`].
    pub workspace: Option<String>,
    /// See [`CrewConfig::worktrees`].
    pub worktrees: Option<bool>,
    /// See [`CrewConfig::lane_enforcement`].
    pub lane_enforcement: Option<LaneEnforcement>,
    /// See [`CrewConfig::roles`].
    pub roles: Option<Vec<RawRole>>,
}

/// The tier map as written: the alias each tier resolves to.
#[derive(Debug)]
pub struct RawModels {
    /// The strong tier's alias.
    pub strong: Option<String>,
    /// The standard tier's alias.
    pub standard: Option<String>,
    /// The cheap tier's alias.
    pub cheap: Option<String>,
}

/// One role as written.
#[derive(Debug)]
pub struct RawRole {
    /// See [`RoleSpec::role`].
    pub role: String,
    /// See [`RoleSpec::owned_paths`].
    pub owned_paths: Option<Vec<String>>,
    /// See [`RoleSpec::acceptance`].
    pub acceptance: Option<String>,
    /// See [`RoleSpec::tier`].
    pub tier: Option<ModelTier>,
    /// See [`RoleSpec::model`].
    pub model: Option<String>,
    /// See [`RoleSpec::token_cap`].
    pub token_cap: Option<u64>,
    /// See [`RoleSpec::runtime`].
    pub runtime: Option<Runtime>,
}

/// Why a crew config was refused.
#[derive(Debug, PartialEq, Eq)]
pub enum ConfigError {
    /// The text was malformed or held an unknown field; the reason as the
    /// parser gave it.
    Parse(String),
    /// The config parsed but failed validation; the precise reason.
    Invalid(String),
}

impl ConfigError {
    /// The message shown for the error.
    pub open spec fn message(self) -> Seq<char> {
        match self {
            ConfigError::Parse(source) => "could not parse the crew config: "@ + source@,
            ConfigError::Invalid(reason) => "invalid crew config: "@ + reason@,
        }
    }

    /// Whether the config text was malformed and could not be parsed.
    pub fn is_parse(&self) -> (r: bool)
        ensures
            r == (self is Parse),
    {
        match self {
            ConfigError::Parse(_) => true,
            ConfigError::Invalid(_) => false,
        }
    }

    /// Whether the config parsed but failed validation.
    pub fn is_invalid(&self) -> (r: bool)
        ensures
            r == (self is Invalid),
    {
        match self {
            ConfigError::Parse(_) => false,
            ConfigError::Invalid(_) => true,
        }
    }

    /// The message shown for the error.
    pub fn to_string(&self) -> (r: String)
        ensures
            r@ == self.message(),
    {
        match self {
            ConfigError::Parse(source) => "could not parse the crew config: ".to_owned().concat(
                source.as_str(),
            ),
            ConfigError::Invalid(reason) => "invalid crew config: ".to_owned().concat(
                reason.as_str(),
            ),
        }
    }
}

/// The text of a list, empty where it is absent.
pub open spec fn list_or_empty(list: Option<Vec<String>>) -> Seq<Seq<char>> {
    match list {
        Some(list) => text::texts(list@),
        None => Seq::empty(),
    }
}

/// The text of a string, empty where it is absent.
pub open spec fn text_or_empty(s: Option<String>) -> Seq<char> {
    match s {
        Some(s) => s@,
        None => Seq::empty(),
    }
}

/// A model alias, trimmed; a blank one counts as absent.
pub open spec fn alias(given: Option<Seq<char>>) -> Option<Seq<char>> {
    match given {
        Some(a) => if text::blank(a) {
            None
        } else {
            Some(text::trimmed(a))
        },
        None => None,
    }
}

/// Trims a model alias, treating a blank value as absent.
fn normalize_alias(given: Option<String>) -> (r: Option<String>)
    ensures
        text::opt_string(r) == alias(text::opt_string(given)),
{
    match given {
        Some(a) => {
            let a = text::trim(a.as_str());
            if a.is_empty() {
                None
            } else {
                Some(a.to_owned())
            }
        },
        None => None,
    }
}

/// Whether `spec` is what a written role resolves to.
pub open spec fn role_resolved(raw: RawRole, spec: RoleSpec) -> bool {
    &&& spec.role@ == text::trimmed(raw.role@)
    &&& text::texts(spec.owned_paths@) == list_or_empty(raw.owned_paths)
    &&& spec.acceptance@ == text_or_empty(raw.acceptance)
    &&& spec.tier == raw.tier
    &&& text::opt_string(spec.model) == alias(text::opt_string(raw.model))
    &&& spec.token_cap == raw.token_cap
    &&& spec.runtime == (match raw.runtime {
        Some(runtime) => runtime,
        None => Runtime::Claude,
    })
}

impl RawRole {
    /// Applies per-role defaults.
    pub fn resolve(self) -> (r: RoleSpec)
        ensures
            role_resolved(self, r),
    {
        let owned_paths = match self.owned_paths {
            Some(paths) => paths,
            None => Vec::new(),
        };
        let acceptance = match self.acceptance {
            Some(acceptance) => acceptance,
            None => String::new(),
        };
        assert(text::texts(owned_paths@) =~= list_or_empty(self.owned_paths));
        RoleSpec {
            role: RoleId::new(text::trim(self.role.as_str())),
            owned_paths,
            acceptance,
            tier: self.tier,
            model: normalize_alias(self.model),
            token_cap: self.token_cap,
            runtime: match self.runtime {
                Some(runtime) => runtime,
                None => Runtime::default(),
            },
        }
    }
}

impl RawModels {
    /// The tier map, each tier falling back to its default alias.
    pub fn resolve(self) -> (r: ModelTiers)
        ensures
            r.alias(ModelTier::Strong) == model::alias_given(
                text::opt_string(self.strong),
                model::default_alias(ModelTier::Strong),
            ),
            r.alias(ModelTier::Standard) == model::alias_given(
                text::opt_string(self.standard),
                model::default_alias(ModelTier::Standard),
            ),
            r.alias(ModelTier::Cheap) == model::alias_given(
                text::opt_string(self.cheap),
                model::default_alias(ModelTier::Cheap),
            ),
    {
        ModelTiers::from_overrides(self.strong, self.standard, self.cheap)
    }
}

/// The alias that a written tier map gives a tier.
pub open spec fn tier_alias(models: Option<RawModels>, tier: ModelTier) -> Seq<char> {
    match models {
        Some(raw) => model::alias_given(
            text::opt_string(
                match tier {
                    ModelTier::Strong => raw.strong,
                    ModelTier::Standard => raw.standard,
                    ModelTier::Cheap => raw.cheap,
                },
            ),
            model::default_alias(tier),
        ),
        None => model::default_alias(tier),
    }
}

/// Whether `spec` is a default role: named and owning as given, with nothing
/// else set.
pub open spec fn plain_spec(spec: RoleSpec, name: Seq<char>, paths: Seq<Seq<char>>) -> bool {
    &&& spec.role@ == name
    &&& text::texts(spec.owned_paths@) == paths
    &&& spec.acceptance@.len() == 0
    &&& spec.tier is None
    &&& spec.model is None
    &&& spec.token_cap is None
    &&& spec.runtime == Runtime::Claude
}

/// Whether `roles` are the default crew: the commander routes, the specialists
/// own their lanes.
pub open spec fn default_crew(roles: Seq<RoleSpec>) -> bool {
    &&& roles.len() == 4
    &&& plain_spec(roles[0], DEFAULT_COMMANDER@, Seq::empty())
    &&& plain_spec(roles[1], "backend"@, seq!["api/"@])
    &&& plain_spec(roles[2], "frontend"@, seq!["frontend/"@])
    &&& plain_spec(roles[3], "qa"@, seq!["tests/"@])
}

/// A default role that owns no lane.
fn bare_role(name: &str) -> (r: RoleSpec)
    ensures
        plain_spec(r, name@, Seq::empty()),
{
    let r = RoleSpec {
        role: RoleId::new(name),
        owned_paths: Vec::new(),
        acceptance: String::new(),
        tier: None,
        model: None,
        token_cap: None,
        runtime: Runtime::default(),
    };
    assert(text::texts(r.owned_paths@) =~= Seq::<Seq<char>>::empty());
    r
}

/// A default role that owns one lane.
fn lane_role(name: &str, path: &str) -> (r: RoleSpec)
    ensures
        plain_spec(r, name@, seq![path@]),
{
    let mut owned_paths: Vec<String> = Vec::new();
    owned_paths.push(path.to_owned());
    assert(text::texts(owned_paths@) =~= seq![path@]);
    RoleSpec {
        role: RoleId::new(name),
        owned_paths,
        acceptance: String::new(),
        tier: None,
        model: None,
        token_cap: None,
        runtime: Runtime::default(),
    }
}

/// The default crew's roles.
pub fn default_roles() -> (r: Vec<RoleSpec>)
    ensures
        default_crew(r@),
{
    let mut roles: Vec<RoleSpec> = Vec::new();
    roles.push(bare_role(DEFAULT_COMMANDER));
    roles.push(lane_role("backend", "api/"));
    roles.push(lane_role("frontend", "frontend/"));
    roles.push(lane_role("qa", "tests/"));
    roles
}

/// Whether `config` is what a written config resolves to, its idle-stop apart.
pub open spec fn resolved(raw: RawConfig, config: CrewConfig) -> bool {
    &&& match raw.roles {
        Some(written) => {
            &&& config.roles@.len() == written@.len()
            &&& forall|i: int|
                0 <= i < written@.len() ==> role_resolved(
                    #[trigger] written@[i],
                    config.roles@[i],
                )
        },
        None => default_crew(config.roles@),
    }
    &&& config.commander@ == (match raw.commander {
        Some(name) => text::trimmed(name@),
        None => DEFAULT_COMMANDER@,
    })
    &&& text::opt_string(config.model) == alias(text::opt_string(raw.model))
    &&& forall|tier: ModelTier| #[trigger] config.models.alias(tier) == tier_alias(raw.models, tier)
    &&& config.token_budget == raw.token_budget
    &&& text::texts(config.repos@) == list_or_empty(raw.repos)
    &&& text::opt_string(config.workspace) == text::opt_string(raw.workspace)
    &&& config.worktrees == (raw.worktrees == Some(true))
    &&& config.lane_enforcement == (match raw.lane_enforcement {
        Some(enforcement) => enforcement,
        None => LaneEnforcement::Warn,
    })
}

/// The idle-stop that a written config asks for, or what is wrong with it.
pub open spec fn idle_stop_of(raw: RawConfig) -> Result<nat, Seq<char>> {
    match raw.idle_stop {
        Some(written) => match duration(written@) {
            Ok(n) => Ok(n),
            Err(reason) => Err("could not parse idle_stop `"@ + written@ + "`: "@ + reason),
        },
        None => Ok(DEFAULT_IDLE_STOP as nat),
    }
}

impl RawConfig {
    /// Applies defaults, reading the idle-stop duration.
    pub fn resolve(self) -> (r: Result<CrewConfig, ConfigError>)
        ensures
            match idle_stop_of(self) {
                Ok(seconds) => r matches Ok(config) && resolved(self, config) && config.idle_stop.0
                    == seconds,
                Err(reason) => r matches Err(ConfigError::Invalid(why)) && why@ == reason,
            },
    {
        let idle_stop = match &self.idle_stop {
            Some(written) => match parse_duration(written.as_str()) {
                Ok(seconds) => seconds,
                Err(reason) => {
                    return Err(
                        ConfigError::Invalid(
                            "could not parse idle_stop `".to_owned().concat(
                                written.as_str(),
                            ).concat("`: ").concat(reason.as_str()),
                        ),
                    );
                },
            },
            None => Seconds(DEFAULT_IDLE_STOP),
        };
        let roles = match self.roles {
            Some(written) => resolve_roles(written),
            None => default_roles(),
        };
        let commander = match &self.commander {
            Some(name) => RoleId::new(text::trim(name.as_str())),
            None => RoleId::new(DEFAULT_COMMANDER),
        };
        let models = match self.models {
            Some(raw) => raw.resolve(),
            None => ModelTiers::default(),
        };
        let repos = match self.repos {
            Some(repos) => repos,
            None => Vec::new(),
        };
        assert(text::texts(repos@) =~= list_or_empty(self.repos));
        Ok(
            CrewConfig {
                roles,
                commander,
                model: normalize_alias(self.model),
                models,
                token_budget: self.token_budget,
                idle_stop,
                repos,
                workspace: self.workspace,
                worktrees: match self.worktrees {
                    Some(worktrees) => worktrees,
                    None => false,
                },
                lane_enforcement: match self.lane_enforcement {
                    Some(enforcement) => enforcement,
                    None => LaneEnforcement::default(),
                },
            },
        )
    }
}

/// Resolves each written role, in order.
fn resolve_roles(written: Vec<RawRole>) -> (r: Vec<RoleSpec>)
    ensures
        r@.len() == written@.len(),
        forall|i: int| 0 <= i < written@.len() ==> role_resolved(#[trigger] written@[i], r@[i]),
{
    let mut out: Vec<RoleSpec> = Vec::new();
    for raw in it: written
        invariant
            it.seq() == written@,
            out@.len() == it.index(),
            forall|i: int| 0 <= i < it.index() ==> role_resolved(#[trigger] written@[i], out@[i]),
    {
        out.push(raw.resolve());
    }
    out
}

/// A role by what validation reads: its name and its paths.
pub struct Outline {
    pub name: Seq<char>,
    pub paths: Seq<Seq<char>>,
}

/// The outline of a role.
pub open spec fn outline(spec: RoleSpec) -> Outline {
    Outline { name: spec.role@, paths: text::texts(spec.owned_paths@) }
}

/// The outlines of a crew's roles.
pub open spec fn outlines(roles: Seq<RoleSpec>) -> Seq<Outline> {
    roles.map_values(|spec: RoleSpec| outline(spec))
}

/// The outlines of the default crew.
pub open spec fn default_outlines() -> Seq<Outline> {
    seq![
        Outline { name: DEFAULT_COMMANDER@, paths: Seq::empty() },
        Outline { name: "backend"@, paths: seq!["api/"@] },
        Outline { name: "frontend"@, paths: seq!["frontend/"@] },
        Outline { name: "qa"@, paths: seq!["tests/"@] },
    ]
}

/// The outlines of the roles that a written config resolves to.
pub open spec fn written_roles(raw: RawConfig) -> Seq<Outline> {
    match raw.roles {
        Some(written) => written@.map_values(
            |role: RawRole|
                Outline {
                    name: text::trimmed(role.role@),
                    paths: list_or_empty(role.owned_paths),
                },
        ),
        None => default_outlines(),
    }
}

/// The commander that a written config resolves to.
pub open spec fn written_commander(raw: RawConfig) -> Seq<char> {
    match raw.commander {
        Some(name) => text::trimmed(name@),
        None => DEFAULT_COMMANDER@,
    }
}

/// A resolved config has the roles and the commander as written.
proof fn lemma_resolved_roles(raw: RawConfig, config: CrewConfig)
    requires
        resolved(raw, config),
    ensures
        outlines(config.roles@) == written_roles(raw),
        config.commander@ == written_commander(raw),
{
    match raw.roles {
        Some(written) => {
            assert forall|i: int| 0 <= i < written@.len() implies outlines(config.roles@)[i]
                == written_roles(raw)[i] by {
                assert(role_resolved(written@[i], config.roles@[i]));
            }
            assert(outlines(config.roles@) =~= written_roles(raw));
        },
        None => {
            assert(outlines(config.roles@) =~= written_roles(raw));
        },
    }
}

/// Whether some role is named `name`.
pub open spec fn declared(roles: Seq<Outline>, name: Seq<char>) -> bool {
    exists|i: int| 0 <= i < roles.len() && (#[trigger] roles[i]).name == name
}

/// What is wrong with the name of the role at `i`: it is blank, or an earlier
/// role has it.
pub open spec fn name_problem(roles: Seq<Outline>, i: int) -> Option<Seq<char>> {
    if text::blank(roles[i].name) {
        Some("a role's name must not be empty"@)
    } else if declared(roles.take(i), roles[i].name) {
        Some("the role `"@ + roles[i].name + "` is declared more than once"@)
    } else {
        None
    }
}

/// The first problem with the names of the first `n` roles.
pub open spec fn first_name_problem(roles: Seq<Outline>, n: int) -> Option<Seq<char>>
    decreases n,
{
    if n <= 0 {
        None
    } else {
        match first_name_problem(roles, n - 1) {
            Some(problem) => Some(problem),
            None => name_problem(roles, n - 1),
        }
    }
}

/// One owned boundary: the role and the path as written, trimmed.
pub struct Lane {
    pub role: Seq<char>,
    pub path: Seq<char>,
}

/// The lanes of one role, for the first `n` of its paths; a path that bounds
/// nothing is no lane.
pub open spec fn role_lanes(spec: Outline, n: int) -> Seq<Lane>
    decreases n,
{
    if n <= 0 {
        Seq::empty()
    } else {
        let path = spec.paths[n - 1];
        if lane::boundary(path).len() == 0 {
            role_lanes(spec, n - 1)
        } else {
            role_lanes(spec, n - 1).push(Lane { role: spec.name, path: text::trimmed(path) })
        }
    }
}

/// The lanes of the first `n` roles, in the order they are declared.
pub open spec fn lanes_of(roles: Seq<Outline>, n: int) -> Seq<Lane>
    decreases n,
{
    if n <= 0 {
        Seq::empty()
    } else {
        lanes_of(roles, n - 1) + role_lanes(roles[n - 1], roles[n - 1].paths.len() as int)
    }
}

/// Whether two lanes collide: different roles, overlapping boundaries.
pub open spec fn collide(a: Lane, b: Lane) -> bool {
    a.role != b.role && lane::overlap(a.path, b.path)
}

/// The first of the first `m` lanes that `lane` collides with.
pub open spec fn rival(lanes: Seq<Lane>, lane: Lane, m: int) -> Option<Lane>
    decreases m,
{
    if m <= 0 {
        None
    } else {
        match rival(lanes, lane, m - 1) {
            Some(other) => Some(other),
            None => if collide(lane, lanes[m - 1]) {
                Some(lanes[m - 1])
            } else {
                None
            },
        }
    }
}

/// The first lane among the first `n` that collides with an earlier one, with
/// the first it collides with.
pub open spec fn first_clash(lanes: Seq<Lane>, n: int) -> Option<(Lane, Lane)>
    decreases n,
{
    if n <= 0 {
        None
    } else {
        match first_clash(lanes, n - 1) {
            Some(clash) => Some(clash),
            None => match rival(lanes, lanes[n - 1], n - 1) {
                Some(other) => Some((lanes[n - 1], other)),
                None => None,
            },
        }
    }
}

/// The message that names two colliding lanes.
pub open spec fn clash_text(clash: (Lane, Lane)) -> Seq<char> {
    "roles `"@ + clash.0.role + "` and `"@ + clash.1.role + "` own overlapping paths (`"@
        + clash.0.path + "` and `"@ + clash.1.path + "`)"@
}

/// The names of the roles, in order.
pub open spec fn names_of(roles: Seq<Outline>) -> Seq<Seq<char>> {
    roles.map_values(|role: Outline| role.name)
}

/// The first problem with a crew: no roles, a bad name, an undeclared
/// commander, or two roles whose lanes collide.
pub open spec fn problem(roles: Seq<Outline>, commander: Seq<char>) -> Option<Seq<char>> {
    let lanes = lanes_of(roles, roles.len() as int);
    if roles.len() == 0 {
        Some("a crew must have at least one role"@)
    } else if first_name_problem(roles, roles.len() as int) is Some {
        first_name_problem(roles, roles.len() as int)
    } else if !declared(roles, commander) {
        Some(
            "the commander `"@ + commander + "` is not one of the declared roles ("@
                + text::joined(names_of(roles), ", "@) + ")"@,
        )
    } else {
        match first_clash(lanes, lanes.len() as int) {
            Some(clash) => Some(clash_text(clash)),
            None => None,
        }
    }
}

/// A lane held while the ownership check runs.
struct Held {
    role: RoleId,
    path: String,
}

/// The lanes held so far, as the check sees them.
spec fn held_lanes(held: Seq<Held>) -> Seq<Lane> {
    held.map_values(|h: Held| Lane { role: h.role@, path: h.path@ })
}

impl CrewConfig {
    /// A config from its written form: defaults applied, and validated.
    pub fn from_raw(raw: RawConfig) -> (r: Result<Self, ConfigError>)
        ensures
            match idle_stop_of(raw) {
                Err(reason) => r matches Err(ConfigError::Invalid(why)) && why@ == reason,
                Ok(seconds) => match problem(written_roles(raw), written_commander(raw)) {
                    Some(reason) => r matches Err(ConfigError::Invalid(why)) && why@ == reason,
                    None => r matches Ok(config) && resolved(raw, config) && config.idle_stop.0
                        == seconds,
                },
            },
    {
        let ghost written = raw;
        match raw.resolve() {
            Err(error) => Err(error),
            Ok(config) => {
                proof {
                    lemma_resolved_roles(written, config);
                }
                match config.validate() {
                    Err(error) => Err(error),
                    Ok(()) => Ok(config),
                }
            },
        }
    }

    /// Validates the resolved config, returning the first problem it finds.
    pub fn validate(&self) -> (r: Result<(), ConfigError>)
        ensures
            match problem(outlines(self.roles@), self.commander@) {
                None => r is Ok,
                Some(reason) => r matches Err(ConfigError::Invalid(why)) && why@ == reason,
            },
    {
        let n: usize = self.roles.len();
        if n == 0 {
            return Err(ConfigError::Invalid("a crew must have at least one role".to_owned()));
        }
        let mut i: usize = 0;
        while i < n
            invariant
                n == self.roles.len(),
                i <= n,
                first_name_problem(outlines(self.roles@), i as int) is None,
            ensures
                first_name_problem(outlines(self.roles@), n as int) is None,
            decreases n - i,
        {
            let id = self.roles[i].role.as_str();
            proof {
                lemma_first_name_problem(outlines(self.roles@), i as int, n as int);
            }
            if text::is_blank(id) {
                return Err(ConfigError::Invalid("a role's name must not be empty".to_owned()));
            }
            if self.declares(id, i) {
                return Err(
                    ConfigError::Invalid(
                        "the role `".to_owned().concat(id).concat("` is declared more than once"),
                    ),
                );
            }
            i = i + 1;
        }
        assert(outlines(self.roles@).take(n as int) =~= outlines(self.roles@));
        if !self.declares(self.commander.as_str(), n) {
            return Err(
                ConfigError::Invalid(
                    "the commander `".to_owned().concat(self.commander.as_str()).concat(
                        "` is not one of the declared roles (",
                    ).concat(self.role_names().as_str()).concat(")"),
                ),
            );
        }
        self.check_ownership_overlaps()
    }

    /// Whether one of the first `n` roles is named `name`.
    fn declares(&self, name: &str, n: usize) -> (r: bool)
        requires
            n <= self.roles.len(),
        ensures
            r == declared(outlines(self.roles@).take(n as int), name@),
    {
        let mut i: usize = 0;
        while i < n
            invariant
                i <= n <= self.roles.len(),
                forall|j: int| 0 <= j < i ==> (#[trigger] self.roles@[j]).role@ != name@,
            decreases n - i,
        {
            if text::same(self.roles[i].role.as_str(), name) {
                assert(outlines(self.roles@).take(n as int)[i as int].name == name@);
                return true;
            }
            i = i + 1;
        }
        assert forall|j: int| 0 <= j < n implies (#[trigger] outlines(self.roles@).take(
            n as int,
        )[j]).name != name@ by {
            assert(self.roles@[j].role@ != name@);
        }
        false
    }

    /// Rejects two roles owning overlapping directory boundaries.
    pub fn check_ownership_overlaps(&self) -> (r: Result<(), ConfigError>)
        ensures
            ({
                let lanes = lanes_of(outlines(self.roles@), self.roles@.len() as int);
                match first_clash(lanes, lanes.len() as int) {
                    None => r is Ok,
                    Some(clash) => r matches Err(ConfigError::Invalid(why)) && why@ == clash_text(
                        clash,
                    ),
                }
            }),
    {
        let ghost all = lanes_of(outlines(self.roles@), self.roles@.len() as int);
        let mut held: Vec<Held> = Vec::new();
        let mut i: usize = 0;
        assert(held_lanes(held@) =~= lanes_of(outlines(self.roles@), 0));
        while i < self.roles.len()
            invariant
                i <= self.roles.len(),
                all == lanes_of(outlines(self.roles@), self.roles@.len() as int),
                held_lanes(held@) == lanes_of(outlines(self.roles@), i as int),
                first_clash(held_lanes(held@), held@.len() as int) is None,
            decreases self.roles.len() - i,
        {
            let spec = &self.roles[i];
            let ghost earlier = held_lanes(held@);
            let mut j: usize = 0;
            assert(earlier + role_lanes(outline(*spec), 0) =~= earlier);
            while j < spec.owned_paths.len()
                invariant
                    i < self.roles.len(),
                    *spec == self.roles@[i as int],
                    j <= spec.owned_paths.len(),
                    all == lanes_of(outlines(self.roles@), self.roles@.len() as int),
                    earlier == lanes_of(outlines(self.roles@), i as int),
                    held_lanes(held@) == earlier + role_lanes(outline(*spec), j as int),
                    first_clash(held_lanes(held@), held@.len() as int) is None,
                decreases spec.owned_paths.len() - j,
            {
                let path = spec.owned_paths[j].as_str();
                let bounds = lane::directory_boundary(path);
                if !bounds.as_str().is_empty() {
                    let shown = text::trim(path);
                    let ghost here = Lane { role: spec.role@, path: text::trimmed(path@) };
                    let ghost so_far = held_lanes(held@);
                    let ghost next = so_far.push(here);
                    proof {
                        lemma_lanes_prefix(outlines(self.roles@), i as int, j as int);
                        assert(next =~= earlier + role_lanes(outline(*spec), j + 1));
                    }
                    let mut k: usize = 0;
                    while k < held.len()
                        invariant
                            k <= held.len(),
                            so_far == held_lanes(held@),
                            here == (Lane { role: spec.role@, path: text::trimmed(path@) }),
                            shown@ == text::trimmed(path@),
                            rival(so_far, here, k as int) is None,
                            next == so_far.push(here),
                            first_clash(so_far, so_far.len() as int) is None,
                            all == lanes_of(outlines(self.roles@), self.roles@.len() as int),
                            next.len() <= all.len(),
                            next == all.take(next.len() as int),
                        decreases held.len() - k,
                    {
                        let other = &held[k];
                        assert(so_far[k as int] == (Lane { role: other.role@, path: other.path@ }));
                        if !other.role.same(&spec.role) && lane::lanes_overlap(
                            shown,
                            other.path.as_str(),
                        ) {
                            proof {
                                lemma_rival_found(so_far, here, k + 1, so_far.len() as int);
                                lemma_clash_extends(so_far, here);
                                lemma_clash_prefix(all, next.len() as int);
                            }
                            return Err(
                                ConfigError::Invalid(
                                    "roles `".to_owned().concat(spec.role.as_str()).concat(
                                        "` and `",
                                    ).concat(other.role.as_str()).concat(
                                        "` own overlapping paths (`",
                                    ).concat(shown).concat("` and `").concat(
                                        other.path.as_str(),
                                    ).concat("`)"),
                                ),
                            );
                        }
                        k = k + 1;
                    }
                    proof {
                        lemma_clash_extends(so_far, here);
                    }
                    held.push(Held { role: spec.role.clone(), path: shown.to_owned() });
                    assert(held_lanes(held@) =~= next);
                }
                j = j + 1;
            }
            i = i + 1;
        }
        Ok(())
    }

    /// The declared role names, joined for an error message.
    fn role_names(&self) -> (r: String)
        ensures
            r@ == text::joined(names_of(outlines(self.roles@)), ", "@),
    {
        let mut names: Vec<String> = Vec::new();
        let mut i: usize = 0;
        while i < self.roles.len()
            invariant
                i <= self.roles.len(),
                text::texts(names@) == names_of(outlines(self.roles@).take(i as int)),
            decreases self.roles.len() - i,
        {
            let ghost before = text::texts(names@);
            names.push(self.roles[i].role.as_str().to_owned());
            assert(text::texts(names@) =~= before.push(self.roles@[i as int].role@));
            i = i + 1;
            assert(names_of(outlines(self.roles@).take(i as int)) =~= names_of(outlines(self.roles@).take(i - 1)).push(
                self.roles@[i - 1].role@,
            ));
        }
        assert(outlines(self.roles@).take(self.roles@.len() as int) =~= outlines(self.roles@));
        text::join(names.as_slice(), ", ")
    }
}

/// A name problem among the first `i + 1` roles is the first of all.
proof fn lemma_first_name_problem(roles: Seq<Outline>, i: int, n: int)
    requires
        0 <= i < n,
        first_name_problem(roles, i) is None,
    ensures
        first_name_problem(roles, i + 1) == name_problem(roles, i),
        name_problem(roles, i) is Some ==> first_name_problem(roles, n) == name_problem(roles, i),
    decreases n - i,
{
    if n > i + 1 {
        lemma_first_name_problem(roles, i, n - 1);
    }
}

/// The lanes seen up to a path of a role are a prefix of all lanes.
proof fn lemma_lanes_prefix(roles: Seq<Outline>, i: int, j: int)
    requires
        0 <= i < roles.len(),
        0 <= j < roles[i].paths.len(),
        lane::boundary(roles[i].paths[j]).len() > 0,
    ensures
        ({
            let all = lanes_of(roles, roles.len() as int);
            let seen = lanes_of(roles, i) + role_lanes(roles[i], j + 1);
            seen.len() <= all.len() && seen == all.take(seen.len() as int)
        }),
{
    lemma_lanes_of_prefix(roles, i + 1, roles.len() as int);
    lemma_role_lanes_prefix(roles[i], j + 1, roles[i].paths.len() as int);
    let all = lanes_of(roles, roles.len() as int);
    let whole = lanes_of(roles, i + 1);
    let seen = lanes_of(roles, i) + role_lanes(roles[i], j + 1);
    assert(seen =~= whole.take(seen.len() as int));
    assert(seen =~= all.take(seen.len() as int));
}

proof fn lemma_lanes_of_prefix(roles: Seq<Outline>, i: int, n: int)
    requires
        0 <= i <= n,
    ensures
        lanes_of(roles, i).len() <= lanes_of(roles, n).len(),
        lanes_of(roles, i) == lanes_of(roles, n).take(lanes_of(roles, i).len() as int),
    decreases n,
{
    if i < n {
        lemma_lanes_of_prefix(roles, i, n - 1);
    }
    assert(lanes_of(roles, i) =~= lanes_of(roles, n).take(lanes_of(roles, i).len() as int));
}

proof fn lemma_role_lanes_prefix(spec: Outline, i: int, n: int)
    requires
        0 <= i <= n,
    ensures
        role_lanes(spec, i).len() <= role_lanes(spec, n).len(),
        role_lanes(spec, i) == role_lanes(spec, n).take(role_lanes(spec, i).len() as int),
    decreases n,
{
    if i < n {
        lemma_role_lanes_prefix(spec, i, n - 1);
    }
    assert(role_lanes(spec, i) =~= role_lanes(spec, n).take(role_lanes(spec, i).len() as int));
}

/// The first rival, once found, stays the first.
proof fn lemma_rival_found(lanes: Seq<Lane>, lane: Lane, k: int, m: int)
    requires
        0 < k <= m <= lanes.len(),
        rival(lanes, lane, k - 1) is None,
        collide(lane, lanes[k - 1]),
    ensures
        rival(lanes, lane, m) == Some(lanes[k - 1]),
    decreases m,
{
    if k < m {
        lemma_rival_found(lanes, lane, k, m - 1);
    }
}

/// Rivals and clashes among the first lanes depend on those lanes alone.
proof fn lemma_same_prefix(a: Seq<Lane>, b: Seq<Lane>, lane: Lane, n: int)
    requires
        n <= a.len(),
        n <= b.len(),
        forall|i: int| 0 <= i < n ==> a[i] == b[i],
    ensures
        rival(a, lane, n) == rival(b, lane, n),
        first_clash(a, n) == first_clash(b, n),
    decreases n,
{
    if n > 0 {
        lemma_same_prefix(a, b, lane, n - 1);
        lemma_same_prefix(a, b, a[n - 1], n - 1);
    }
}

/// One more lane clashes exactly where it has a rival.
proof fn lemma_clash_extends(lanes: Seq<Lane>, lane: Lane)
    requires
        first_clash(lanes, lanes.len() as int) is None,
    ensures
        first_clash(lanes.push(lane), lanes.len() as int + 1) == (match rival(
            lanes,
            lane,
            lanes.len() as int,
        ) {
            Some(other) => Some((lane, other)),
            None => None,
        }),
{
    lemma_same_prefix(lanes, lanes.push(lane), lane, lanes.len() as int);
}

/// A clash among the first lanes is the first of all.
proof fn lemma_clash_prefix(lanes: Seq<Lane>, n: int)
    requires
        0 <= n <= lanes.len(),
    ensures
        first_clash(lanes.take(n), n) is Some ==> first_clash(lanes, lanes.len() as int)
            == first_clash(lanes.take(n), n),
{
    if n > 0 {
        lemma_same_prefix(lanes, lanes.take(n), lanes[0], n);
    }
    lemma_clash_stays(lanes, n, lanes.len() as int);
}

proof fn lemma_clash_stays(lanes: Seq<Lane>, n: int, m: int)
    requires
        n <= m,
    ensures
        first_clash(lanes, n) is Some ==> first_clash(lanes, m) == first_clash(lanes, n),
    decreases m - n,
{
    if n < m {
        lemma_clash_stays(lanes, n, m - 1);
    }
}

impl Default for CrewConfig {
    /// The default crew: commander, backend, frontend, and qa.
    fn default() -> (r: Self)
        ensures
            default_crew(r.roles@),
            r.commander@ == DEFAULT_COMMANDER@,
            r.model is None,
            forall|tier: ModelTier| #[trigger] r.models.alias(tier) == model::default_alias(tier),
            r.token_budget is None,
            r.idle_stop.0 == DEFAULT_IDLE_STOP,
            r.repos@.len() == 0,
            r.workspace is None,
            !r.worktrees,
            r.lane_enforcement == LaneEnforcement::Warn,
    {
        CrewConfig {
            roles: default_roles(),
            commander: RoleId::new(DEFAULT_COMMANDER),
            model: None,
            models: ModelTiers::default(),
            token_budget: None,
            idle_stop: Seconds(DEFAULT_IDLE_STOP),
            repos: Vec::new(),
            workspace: None,
            worktrees: false,
            lane_enforcement: LaneEnforcement::default(),
        }
    }
}

/// Whether `card` is the boot card of a role in a crew.
pub open spec fn card_of(
    card: RoleCard,
    spec: RoleSpec,
    config: CrewConfig,
    broker: BrokerEndpoint,
) -> bool {
    &&& card.role == spec.role
    &&& card.owned_paths@ == spec.owned_paths@
    &&& card.acceptance@ == spec.acceptance@
    &&& card.commander == config.commander
    &&& card.lane_enforcement == config.lane_enforcement
    &&& card.runtime == spec.runtime
    &&& card.broker == broker
}

/// The first of the first `n` roles named `name`.
pub open spec fn spec_named(roles: Seq<RoleSpec>, name: Seq<char>, n: int) -> Option<RoleSpec>
    decreases n,
{
    if n <= 0 {
        None
    } else {
        match spec_named(roles, name, n - 1) {
            Some(spec) => Some(spec),
            None => if roles[n - 1].role@ == name {
                Some(roles[n - 1])
            } else {
                None
            },
        }
    }
}

/// The model alias a role runs: its own model, else its tier, else the crew's
/// model, else the tier its name maps to.
pub open spec fn model_of(config: CrewConfig, role: Seq<char>) -> Seq<char> {
    let spec = spec_named(config.roles@, role, config.roles@.len() as int);
    if spec matches Some(spec) && spec.model is Some {
        spec->0.model->0@
    } else if spec matches Some(spec) && spec.tier is Some {
        config.models.alias(spec->0.tier->0)
    } else if config.model is Some {
        config.model->0@
    } else {
        config.models.alias(model::tier_of(role))
    }
}

/// The token caps of the first `n` roles; a later role of the same name wins.
pub open spec fn caps_of(roles: Seq<RoleSpec>, n: int) -> Map<Seq<char>, u64>
    decreases n,
{
    if n <= 0 {
        Map::empty()
    } else {
        match roles[n - 1].token_cap {
            Some(cap) => caps_of(roles, n - 1).insert(roles[n - 1].role@, cap),
            None => caps_of(roles, n - 1),
        }
    }
}

/// The directory a bare repo name resolves under: the workspace, itself
/// resolved under the config's directory, or that directory.
pub open spec fn root_of(config: CrewConfig, config_dir: Seq<char>) -> Seq<char> {
    match config.workspace {
        Some(workspace) => if path::absolute(workspace@) {
            workspace@
        } else {
            path::under_dir(config_dir, workspace@)
        },
        None => config_dir,
    }
}

impl CrewConfig {
    /// One card per role, reaching the broker at `broker`; each names the
    /// crew's commander.
    pub fn to_cards(&self, broker: &BrokerEndpoint) -> (r: Vec<RoleCard>)
        ensures
            r@.len() == self.roles@.len(),
            forall|i: int|
                0 <= i < r@.len() ==> card_of(#[trigger] r@[i], self.roles@[i], *self, *broker),
    {
        let mut cards: Vec<RoleCard> = Vec::new();
        let mut i: usize = 0;
        while i < self.roles.len()
            invariant
                i <= self.roles.len(),
                cards@.len() == i,
                forall|j: int|
                    0 <= j < i ==> card_of(#[trigger] cards@[j], self.roles@[j], *self, *broker),
            decreases self.roles.len() - i,
        {
            let spec = &self.roles[i];
            cards.push(
                RoleCard::new(
                    spec.role.clone(),
                    text::copy_list(spec.owned_paths.as_slice()),
                    spec.acceptance.as_str(),
                    broker.clone(),
                ).with_commander(self.commander.clone()).with_lane_enforcement(
                    self.lane_enforcement,
                ).with_runtime(spec.runtime),
            );
            i = i + 1;
        }
        cards
    }

    /// The model alias `role` runs, the most specific setting winning. A role
    /// the crew does not declare still resolves.
    pub fn model_for(&self, role: &RoleId) -> (r: &str)
        ensures
            r@ == model_of(*self, role@),
    {
        let n: usize = self.roles.len();
        let mut found: Option<usize> = None;
        let mut i: usize = 0;
        while i < n && found.is_none()
            invariant
                i <= n == self.roles.len(),
                match found {
                    Some(k) => k < n && spec_named(self.roles@, role@, i as int) == Some(
                        self.roles@[k as int],
                    ),
                    None => spec_named(self.roles@, role@, i as int) is None,
                },
            decreases n - i,
        {
            if self.roles[i].role.same(role) {
                found = Some(i);
            }
            i = i + 1;
        }
        proof {
            lemma_spec_stays(self.roles@, role@, i as int, n as int);
        }
        if let Some(k) = found {
            if let Some(model) = &self.roles[k].model {
                return model.as_str();
            }
            if let Some(tier) = self.roles[k].tier {
                return self.models.resolve(tier);
            }
        }
        if let Some(model) = &self.model {
            return model.as_str();
        }
        self.models.resolve(model::default_tier_for(role))
    }

    /// The crew's token budget: the crew-wide ceiling and each role's cap.
    pub fn budget(&self) -> (r: Budget)
        ensures
            r.wf(),
            r@.ceiling == self.token_budget,
            r@.caps == caps_of(self.roles@, self.roles@.len() as int),
            r@.spent == Map::<Seq<char>, u64>::empty(),
            r@.crew_spent == 0,
            r@.flagged == Set::<Seq<char>>::empty(),
            !r@.crew_flagged,
    {
        let mut caps: RoleMap<u64> = RoleMap::new();
        let mut i: usize = 0;
        while i < self.roles.len()
            invariant
                i <= self.roles.len(),
                caps.wf(),
                caps@ == caps_of(self.roles@, i as int),
            decreases self.roles.len() - i,
        {
            if let Some(cap) = self.roles[i].token_cap {
                caps.insert(self.roles[i].role.clone(), cap);
            }
            i = i + 1;
        }
        Budget::new(self.token_budget, caps)
    }

    /// The directory a bare `repos` name resolves under.
    pub fn workspace_root(&self, config_dir: &str) -> (r: String)
        ensures
            r@ == root_of(*self, config_dir@),
    {
        match &self.workspace {
            Some(workspace) => {
                if path::is_absolute(workspace.as_str()) {
                    workspace.clone()
                } else {
                    path::join(config_dir, workspace.as_str())
                }
            },
            None => config_dir.to_owned(),
        }
    }

    /// The crew's `repos` as filesystem paths: an absolute entry as it is, any
    /// other under the workspace root.
    pub fn repo_paths(&self, config_dir: &str) -> (r: Vec<String>)
        ensures
            r@.len() == self.repos@.len(),
            forall|i: int|
                0 <= i < r@.len() ==> (#[trigger] r@[i])@ == path::under_dir(
                    root_of(*self, config_dir@),
                    self.repos@[i]@,
                ),
    {
        let root = self.workspace_root(config_dir);
        let mut out: Vec<String> = Vec::new();
        let mut i: usize = 0;
        while i < self.repos.len()
            invariant
                i <= self.repos.len(),
                root@ == root_of(*self, config_dir@),
                out@.len() == i,
                forall|j: int|
                    0 <= j < i ==> (#[trigger] out@[j])@ == path::under_dir(
                        root@,
                        self.repos@[j]@,
                    ),
            decreases self.repos.len() - i,
        {
            let repo = self.repos[i].as_str();
            if path::is_absolute(repo) {
                out.push(repo.to_owned());
            } else {
                out.push(path::join(root.as_str(), repo));
            }
            i = i + 1;
        }
        out
    }
}

/// The first role of a name stays the first.
proof fn lemma_spec_stays(roles: Seq<RoleSpec>, name: Seq<char>, i: int, n: int)
    requires
        0 <= i <= n,
    ensures
        spec_named(roles, name, i) is Some ==> spec_named(roles, name, n) == spec_named(
            roles,
            name,
            i,
        ),
    decreases n - i,
{
    if i < n {
        lemma_spec_stays(roles, name, i, n - 1);
    }
}

/// In a valid crew every role has a name, and the commander is one of the roles.
pub proof fn a_valid_crew_names_every_role(roles: Seq<Outline>, commander: Seq<char>, i: int)
    requires
        problem(roles, commander) is None,
        0 <= i < roles.len(),
    ensures
        !text::blank(roles[i].name),
        declared(roles, commander),
{
    lemma_no_name_problem(roles, roles.len() as int, i);
}

/// In a valid crew the roles are named, distinct, and one of them commands.
pub proof fn a_valid_crew_names_its_roles(roles: Seq<Outline>, commander: Seq<char>, i: int, j: int)
    requires
        problem(roles, commander) is None,
        0 <= i < j < roles.len(),
    ensures
        !text::blank(roles[i].name),
        !text::blank(roles[j].name),
        roles[i].name != roles[j].name,
        declared(roles, commander),
{
    lemma_no_name_problem(roles, roles.len() as int, i);
    lemma_no_name_problem(roles, roles.len() as int, j);
    if roles[i].name == roles[j].name {
        assert(roles.take(j)[i].name == roles[j].name);
    }
}

proof fn lemma_no_name_problem(roles: Seq<Outline>, n: int, i: int)
    requires
        0 <= i < n,
        first_name_problem(roles, n) is None,
    ensures
        name_problem(roles, i) is None,
    decreases n,
{
    if i < n - 1 {
        lemma_no_name_problem(roles, n - 1, i);
    }
}

/// In a valid crew no path belongs to the lanes of two roles.
pub proof fn a_valid_crew_shares_no_path(
    roles: Seq<Outline>,
    commander: Seq<char>,
    i: int,
    j: int,
    a: int,
    b: int,
    file: Seq<char>,
)
    requires
        problem(roles, commander) is None,
        0 <= i < j < roles.len(),
        0 <= a < roles[i].paths.len(),
        0 <= b < roles[j].paths.len(),
    ensures
        !(lane::owns(roles[i].paths[a], file) && lane::owns(roles[j].paths[b], file)),
{
    if lane::owns(roles[i].paths[a], file) && lane::owns(roles[j].paths[b], file) {
        a_valid_crew_names_its_roles(roles, commander, i, j);
        lane::disjoint_lanes_share_no_path(roles[j].paths[b], roles[i].paths[a], file);
        let n = roles.len() as int;
        let lanes = lanes_of(roles, n);
        let p = lemma_lane_listed(roles, n, i, a);
        let q = lemma_lane_listed(roles, n, j, b);
        text::lemma_trimmed_twice(roles[i].paths[a]);
        text::lemma_trimmed_twice(roles[j].paths[b]);
        assert(collide(lanes[q], lanes[p]));
        assert(collide(lanes[p], lanes[q]));
        if p < q {
            lemma_no_clash(lanes, lanes.len() as int, q, p);
        } else {
            lemma_no_clash(lanes, lanes.len() as int, p, q);
        }
    }
}

/// Every path that bounds something is listed among the lanes.
proof fn lemma_lane_listed(roles: Seq<Outline>, n: int, i: int, a: int) -> (p: int)
    requires
        0 <= i < n <= roles.len(),
        0 <= a < roles[i].paths.len(),
        lane::boundary(roles[i].paths[a]).len() > 0,
    ensures
        0 <= p < lanes_of(roles, n).len(),
        lanes_of(roles, n)[p] == (Lane {
            role: roles[i].name,
            path: text::trimmed(roles[i].paths[a]),
        }),
    decreases n,
{
    if i < n - 1 {
        lemma_lane_listed(roles, n - 1, i, a)
    } else {
        let own = role_lanes(roles[i], roles[i].paths.len() as int);
        let k = lemma_role_lane_listed(roles[i], roles[i].paths.len() as int, a);
        lanes_of(roles, n - 1).len() as int + k
    }
}

proof fn lemma_role_lane_listed(role: Outline, n: int, a: int) -> (k: int)
    requires
        0 <= a < n <= role.paths.len(),
        lane::boundary(role.paths[a]).len() > 0,
    ensures
        0 <= k < role_lanes(role, n).len(),
        role_lanes(role, n)[k] == (Lane { role: role.name, path: text::trimmed(role.paths[a]) }),
    decreases n,
{
    if a < n - 1 {
        lemma_role_lane_listed(role, n - 1, a)
    } else {
        role_lanes(role, n - 1).len() as int
    }
}

proof fn lemma_no_clash(lanes: Seq<Lane>, n: int, q: int, p: int)
    requires
        0 <= p < q < n <= lanes.len(),
        first_clash(lanes, n) is None,
    ensures
        !collide(lanes[q], lanes[p]),
    decreases n,
{
    if q < n - 1 {
        lemma_no_clash(lanes, n - 1, q, p);
    } else {
        lemma_no_rival(lanes, lanes[q], q, p);
    }
}

proof fn lemma_no_rival(lanes: Seq<Lane>, lane: Lane, m: int, p: int)
    requires
        0 <= p < m <= lanes.len(),
        rival(lanes, lane, m) is None,
    ensures
        !collide(lane, lanes[p]),
    decreases m,
{
    if p < m - 1 {
        lemma_no_rival(lanes, lane, m - 1, p);
    }
}

/// A plain directory name with a slash is its own boundary.
proof fn lemma_plain_boundary(s: Seq<char>)
    requires
        s.len() > 1,
        !text::white_space(s[0]),
        s[0] != '.',
        s.last() == '/',
        s[s.len() - 2] != '/',
    ensures
        lane::boundary(s) == s,
        text::trimmed(s) == s,
{
    text::lemma_run_is(s, text::white(), 0);
    assert(s.skip(0) =~= s);
    text::lemma_run_back_is(s, text::white(), 0);
    assert(s.take(s.len() as int) =~= s);
    assert(!lane::dot_slash().is_prefix_of(s)) by {
        if lane::dot_slash().is_prefix_of(s) {
            assert(lane::dot_slash()[0] == s.subrange(0, 2)[0]);
        }
    }
    text::lemma_run_back_is(s, text::only('/'), 1);
    assert(s.take(s.len() - 1).push('/') =~= s);
}

/// The default crew is valid.
pub proof fn the_default_crew_is_valid()
    ensures
        problem(default_outlines(), DEFAULT_COMMANDER@) is None,
{
    reveal_strlit("commander");
    reveal_strlit("backend");
    reveal_strlit("frontend");
    reveal_strlit("qa");
    reveal_strlit("api/");
    reveal_strlit("frontend/");
    reveal_strlit("tests/");
    let roles = default_outlines();
    let commander = roles[0].name;
    assert(commander[0] == 'c');
    assert(roles[1].name[0] == 'b');
    assert(roles[2].name[0] == 'f');
    assert(roles[3].name[0] == 'q');
    assert forall|i: int| 0 <= i < 4 implies name_problem(roles, i) is None by {
        let name = roles[i].name;
        text::lemma_run_is(name, text::white(), 0);
        assert(name.skip(0) =~= name);
        text::lemma_run_back_is(name, text::white(), 0);
        assert(!text::blank(name));
        assert(!declared(roles.take(i), name));
    }
    reveal_with_fuel(first_name_problem, 5);
    assert(name_problem(roles, 0) is None && name_problem(roles, 1) is None && name_problem(
        roles,
        2,
    ) is None && name_problem(roles, 3) is None);
    assert(declared(roles, commander)) by {
        assert(roles[0].name == commander);
    }
    lemma_plain_boundary("api/"@);
    lemma_plain_boundary("frontend/"@);
    lemma_plain_boundary("tests/"@);
    reveal_with_fuel(role_lanes, 2);
    reveal_with_fuel(lanes_of, 5);
    let a = Lane { role: roles[1].name, path: "api/"@ };
    let b = Lane { role: roles[2].name, path: "frontend/"@ };
    let c = Lane { role: roles[3].name, path: "tests/"@ };
    let lanes = lanes_of(roles, 4);
    assert(role_lanes(roles[0], 0) =~= Seq::<Lane>::empty());
    assert(role_lanes(roles[1], 1) =~= seq![a]);
    assert(role_lanes(roles[2], 1) =~= seq![b]);
    assert(role_lanes(roles[3], 1) =~= seq![c]);
    assert(lanes =~= seq![a, b, c]);
    assert("api/"@[0] == 'a' && "frontend/"@[0] == 'f' && "tests/"@[0] == 't');
    lemma_different_start("api/"@, "frontend/"@);
    lemma_different_start("api/"@, "tests/"@);
    lemma_different_start("frontend/"@, "tests/"@);
    reveal_with_fuel(first_clash, 4);
    reveal_with_fuel(rival, 4);
}

/// Boundaries that start differently do not overlap.
proof fn lemma_different_start(a: Seq<char>, b: Seq<char>)
    requires
        lane::boundary(a) == a,
        lane::boundary(b) == b,
        a.len() > 0,
        b.len() > 0,
        a[0] != b[0],
    ensures
        !lane::overlap(a, b),
        !lane::overlap(b, a),
{
    if a.is_prefix_of(b) {
        assert(a[0] == b.subrange(0, a.len() as int)[0]);
    }
    if b.is_prefix_of(a) {
        assert(b[0] == a.subrange(0, b.len() as int)[0]);
    }
}

/// A duration means what it says: a bare number is seconds, and `s`, `m` and `h` count
/// seconds, minutes and hours; one that comes to more seconds than can be held, and
/// one with another unit, is refused.
pub proof fn a_duration_means_what_it_says(
    n: u64,
    unit: char,
    bare: &str,
    full: &str,
    plain: Result<Seconds, String>,
    timed: Result<Seconds, String>,
)
    requires
        bare@ == number::decimal(n as nat),
        full@ == number::decimal(n as nat).push(unit),
        !number::is_digit(unit) && !text::white_space(unit),
        call_ensures(parse_duration, (bare,), plain),
        call_ensures(parse_duration, (full,), timed),
    ensures
        plain matches Ok(seconds) && seconds.0 == n,
        unit == 's' ==> (timed matches Ok(seconds) && seconds.0 == n),
        unit == 'm' && n * 60 <= u64::MAX ==> (timed matches Ok(seconds) && seconds.0 == n * 60),
        unit == 'h' && n * 3600 <= u64::MAX ==> (timed matches Ok(seconds) && seconds.0 == n
            * 3600),
        unit == 'm' && n * 60 > u64::MAX ==> timed is Err,
        unit == 'h' && n * 3600 > u64::MAX ==> timed is Err,
        unit != 's' && unit != 'm' && unit != 'h' ==> timed is Err,
{
    let d = number::decimal(n as nat);
    number::lemma_decimal(n as nat);
    number::decimal_reads_back(n as nat, u64::MAX as nat);
    assert(number::is_digit(d[0]) && number::is_digit(d[d.len() - 1]));
    text::lemma_trimmed_is(d);
    let s = d.push(unit);
    assert(s[0] == d[0]);
    text::lemma_trimmed_is(s);
    assert(s.drop_last() =~= d);
    assert(!all_digits(s)) by {
        assert(!number::is_digit(s[s.len() - 1]));
    }
}

/// A blank duration is refused.
pub proof fn a_blank_duration_is_refused(written: &str, r: Result<Seconds, String>)
    requires
        call_ensures(parse_duration, (written,), r),
        forall|i: int| 0 <= i < written@.len() ==> text::white_space(#[trigger] written@[i]),
    ensures
        r is Err,
{
    text::blank_means_white_space_only(written@);
}

/// What makes a crew valid: at least one role, every role named and no two alike, the
/// commander one of them, and no two roles with overlapping lanes.
pub open spec fn sound_crew(config: CrewConfig) -> bool {
    let roles = config.roles@;
    &&& roles.len() > 0
    &&& forall|i: int|
        0 <= i < roles.len() ==> exists|k: int|
            0 <= k < (#[trigger] roles[i]).role@.len() && !text::white_space(#[trigger] roles[i].role@[k])
    &&& forall|i: int, j: int|
        0 <= i < j < roles.len() ==> (#[trigger] roles[i]).role@ != (#[trigger] roles[j]).role@
    &&& exists|i: int| 0 <= i < roles.len() && (#[trigger] roles[i]).role@ == config.commander@
    &&& forall|i: int, j: int, a: int, b: int|
        0 <= i < j < roles.len() && 0 <= a < roles[i].owned_paths@.len() && 0 <= b
            < roles[j].owned_paths@.len() ==> !lane::overlap(
            (#[trigger] roles[i].owned_paths@[a])@,
            (#[trigger] roles[j].owned_paths@[b])@,
        )
}

/// Validation passes exactly the sound crews.
pub proof fn exactly_sound_crews_are_valid(config: CrewConfig, r: Result<(), ConfigError>)
    requires
        call_ensures(CrewConfig::validate, (&config,), r),
    ensures
        r is Ok <==> sound_crew(config),
        r matches Err(error) ==> error is Invalid,
{
    let roles = outlines(config.roles@);
    let n = roles.len() as int;
    assert forall|i: int| 0 <= i < n implies roles[i] == outline(#[trigger] config.roles@[i]) by {}
    if r is Ok {
        lemma_valid_is_sound(config);
    }
    if sound_crew(config) {
        lemma_sound_is_valid(config);
    }
}

proof fn lemma_valid_is_sound(config: CrewConfig)
    requires
        problem(outlines(config.roles@), config.commander@) is None,
    ensures
        sound_crew(config),
{
    let all = config.roles@;
    let roles = outlines(all);
    let n = roles.len() as int;
    assert forall|i: int| 0 <= i < n implies exists|k: int|
        0 <= k < (#[trigger] all[i]).role@.len() && !text::white_space(#[trigger] all[i].role@[k]) by {
        a_valid_crew_names_every_role(roles, config.commander@, i);
        text::blank_means_white_space_only(roles[i].name);
        assert(roles[i].name == all[i].role@);
    }
    assert forall|i: int, j: int| 0 <= i < j < n implies (#[trigger] all[i]).role@ != (
    #[trigger] all[j]).role@ by {
        a_valid_crew_names_its_roles(roles, config.commander@, i, j);
        assert(roles[i].name == all[i].role@ && roles[j].name == all[j].role@);
    }
    a_valid_crew_names_every_role(roles, config.commander@, 0);
    let c = choose|c: int| 0 <= c < roles.len() && (#[trigger] roles[c]).name == config.commander@;
    assert(all[c].role@ == config.commander@);
    assert forall|i: int, j: int, a: int, b: int|
        0 <= i < j < all.len() && 0 <= a < all[i].owned_paths@.len() && 0 <= b
            < all[j].owned_paths@.len() implies !lane::overlap(
        (#[trigger] all[i].owned_paths@[a])@,
        (#[trigger] all[j].owned_paths@[b])@,
    ) by {
        let x = all[i].owned_paths@[a]@;
        let y = all[j].owned_paths@[b]@;
        assert(roles[i].paths[a] == x && roles[j].paths[b] == y);
        if lane::overlap(x, y) {
            let lanes = lanes_of(roles, n);
            let p = lemma_lane_listed(roles, n, i, a);
            let q = lemma_lane_listed(roles, n, j, b);
            text::lemma_trimmed_twice(x);
            text::lemma_trimmed_twice(y);
            a_valid_crew_names_its_roles(roles, config.commander@, i, j);
            assert(collide(lanes[p], lanes[q]) && collide(lanes[q], lanes[p]));
            if p < q {
                lemma_no_clash(lanes, lanes.len() as int, q, p);
            } else {
                lemma_no_clash(lanes, lanes.len() as int, p, q);
            }
        }
    }
}

proof fn lemma_sound_is_valid(config: CrewConfig)
    requires
        sound_crew(config),
    ensures
        problem(outlines(config.roles@), config.commander@) is None,
{
    let all = config.roles@;
    let roles = outlines(all);
    let n = roles.len() as int;
    assert forall|i: int| 0 <= i < n implies name_problem(roles, i) is None by {
        assert(roles[i].name == all[i].role@);
        text::blank_means_white_space_only(roles[i].name);
        let k = choose|k: int|
            0 <= k < all[i].role@.len() && !text::white_space(#[trigger] all[i].role@[k]);
        assert(!text::white_space(roles[i].name[k]));
        if declared(roles.take(i), roles[i].name) {
            let j = choose|j: int|
                0 <= j < roles.take(i).len() && (#[trigger] roles.take(i)[j]).name == roles[i].name;
            assert(roles[j].name == all[j].role@);
            assert(all[j].role@ != all[i].role@);
        }
    }
    lemma_names_fine(roles, n);
    let c = choose|c: int| 0 <= c < all.len() && (#[trigger] all[c]).role@ == config.commander@;
    assert(roles[c].name == config.commander@);
    let lanes = lanes_of(roles, n);
    if first_clash(lanes, lanes.len() as int) is Some {
        let (q, p) = lemma_clash_found(lanes, lanes.len() as int);
        let (i, a) = lemma_lane_source(roles, n, q);
        let (j, b) = lemma_lane_source(roles, n, p);
        text::lemma_trimmed_twice(roles[i].paths[a]);
        text::lemma_trimmed_twice(roles[j].paths[b]);
        assert(lane::overlap(roles[i].paths[a], roles[j].paths[b]));
        assert(lane::overlap(roles[j].paths[b], roles[i].paths[a]));
        assert(roles[i].paths[a] == all[i].owned_paths@[a]@);
        assert(roles[j].paths[b] == all[j].owned_paths@[b]@);
        assert(i != j);
    }
}

proof fn lemma_names_fine(roles: Seq<Outline>, n: int)
    requires
        forall|i: int| 0 <= i < n ==> name_problem(roles, i) is None,
    ensures
        first_name_problem(roles, n) is None,
    decreases n,
{
    if n > 0 {
        lemma_names_fine(roles, n - 1);
    }
}

proof fn lemma_rival_at(lanes: Seq<Lane>, lane: Lane, m: int) -> (p: int)
    requires
        rival(lanes, lane, m) is Some,
    ensures
        0 <= p < m,
        collide(lane, lanes[p]),
    decreases m,
{
    if m > 0 && rival(lanes, lane, m - 1) is Some {
        lemma_rival_at(lanes, lane, m - 1)
    } else {
        m - 1
    }
}

proof fn lemma_clash_found(lanes: Seq<Lane>, n: int) -> (qp: (int, int))
    requires
        first_clash(lanes, n) is Some,
        n <= lanes.len(),
    ensures
        0 <= qp.1 < qp.0 < n,
        collide(lanes[qp.0], lanes[qp.1]),
    decreases n,
{
    if first_clash(lanes, n - 1) is Some {
        lemma_clash_found(lanes, n - 1)
    } else {
        (n - 1, lemma_rival_at(lanes, lanes[n - 1], n - 1))
    }
}

proof fn lemma_role_lane_source(role: Outline, n: int, k: int) -> (a: int)
    requires
        0 <= n <= role.paths.len(),
        0 <= k < role_lanes(role, n).len(),
    ensures
        0 <= a < n,
        role_lanes(role, n)[k] == (Lane { role: role.name, path: text::trimmed(role.paths[a]) }),
    decreases n,
{
    let shorter = role_lanes(role, n - 1);
    if k < shorter.len() {
        lemma_role_lane_source(role, n - 1, k)
    } else {
        n - 1
    }
}

proof fn lemma_lane_source(roles: Seq<Outline>, n: int, p: int) -> (ia: (int, int))
    requires
        0 <= n <= roles.len(),
        0 <= p < lanes_of(roles, n).len(),
    ensures
        0 <= ia.0 < n,
        0 <= ia.1 < roles[ia.0].paths.len(),
        lanes_of(roles, n)[p] == (Lane {
            role: roles[ia.0].name,
            path: text::trimmed(roles[ia.0].paths[ia.1]),
        }),
    decreases n,
{
    let shorter = lanes_of(roles, n - 1);
    if p < shorter.len() {
        lemma_lane_source(roles, n - 1, p)
    } else {
        let a = lemma_role_lane_source(
            roles[n - 1],
            roles[n - 1].paths.len() as int,
            p - shorter.len(),
        );
        (n - 1, a)
    }
}

/// What is left out of a config takes its default, and what is written is kept: a
/// quiet role is stopped after five minutes, lanes are warned about, and the roles
/// share one tree, unless the config says otherwise.
pub proof fn a_config_keeps_what_is_written(
    raw: RawConfig,
    stop: &str,
    read: Result<Seconds, String>,
    r: Result<CrewConfig, ConfigError>,
)
    requires
        call_ensures(RawConfig::resolve, (raw,), r),
        call_ensures(parse_duration, (stop,), read),
        raw.idle_stop is Some ==> stop@ == raw.idle_stop->0@,
    ensures
        raw.idle_stop is Some && read is Err ==> r is Err,
        raw.idle_stop is None || read is Ok ==> r is Ok,
        r matches Ok(config) ==> {
            &&& raw.idle_stop is None ==> config.idle_stop.0 == 300
            &&& raw.idle_stop is Some ==> config.idle_stop == read->Ok_0
            &&& raw.lane_enforcement is None ==> config.lane_enforcement == LaneEnforcement::Warn
            &&& raw.lane_enforcement is Some ==> config.lane_enforcement == raw.lane_enforcement->0
            &&& raw.worktrees is None ==> !config.worktrees
            &&& raw.worktrees is Some ==> config.worktrees == raw.worktrees->0
            &&& config.token_budget == raw.token_budget
            &&& raw.commander is None ==> config.commander@ == "commander"@
            &&& raw.commander is Some ==> config.commander@ == text::trimmed(raw.commander->0@)
            &&& raw.workspace is None ==> config.workspace is None
            &&& raw.workspace is Some ==> (config.workspace matches Some(dir) && dir@
                == raw.workspace->0@)
            &&& raw.repos is None ==> config.repos@.len() == 0
            &&& raw.repos matches Some(repos) ==> config.repos@.len() == repos@.len()
            &&& raw.roles is None ==> config.roles@.len() == 4
            &&& raw.roles matches Some(written) ==> config.roles@.len() == written@.len()
            &&& raw.model is None ==> config.model is None
            &&& raw.model matches Some(named) ==> (config.model is Some <==> text::trimmed(
                named@,
            ).len() > 0)
        },
{
    if let Ok(config) = r {
        assert(text::texts(config.repos@).len() == config.repos@.len());
        if raw.repos is Some {
            assert(text::texts(raw.repos->0@).len() == raw.repos->0@.len());
        }
    }
}

/// A role keeps what is written of it: its name trimmed, its paths in their order, its
/// bar, tier, model and cap; it runs on the usual runtime unless it names another.
pub proof fn a_role_keeps_what_is_written(raw: RawRole, spec: RoleSpec)
    requires
        call_ensures(RawRole::resolve, (raw,), spec),
    ensures
        spec.role@ == text::trimmed(raw.role@),
        raw.owned_paths is None ==> spec.owned_paths@.len() == 0,
        raw.owned_paths matches Some(paths) ==> spec.owned_paths@.len() == paths@.len() && forall|
            i: int,
        |
            0 <= i < paths@.len() ==> (#[trigger] spec.owned_paths@[i])@ == paths@[i]@,
        raw.acceptance matches Some(bar) ==> spec.acceptance@ == bar@,
        raw.acceptance is None ==> spec.acceptance@.len() == 0,
        spec.tier == raw.tier,
        spec.token_cap == raw.token_cap,
        raw.runtime is None ==> spec.runtime == Runtime::Claude,
        raw.runtime is Some ==> spec.runtime == raw.runtime->0,
        raw.model is None ==> spec.model is None,
        raw.model matches Some(named) ==> text::trimmed(named@).len() > 0 ==> (
        spec.model matches Some(model) && model@ == text::trimmed(named@)),
{
    let kept = text::texts(spec.owned_paths@);
    assert(kept.len() == spec.owned_paths@.len());
    if let Some(paths) = raw.owned_paths {
        assert forall|i: int| 0 <= i < paths@.len() implies (#[trigger] spec.owned_paths@[i])@
            == paths@[i]@ by {
            assert(kept[i] == text::texts(paths@)[i]);
        }
    }
}

/// Each role gets its own card: its name, lane, bar and runtime, the crew's commander
/// and lane policy, and the broker.
pub proof fn each_role_gets_its_card(
    config: CrewConfig,
    broker: BrokerEndpoint,
    cards: Vec<RoleCard>,
    i: int,
)
    requires
        call_ensures(CrewConfig::to_cards, (&config, &broker), cards),
        0 <= i < config.roles@.len(),
    ensures
        cards@.len() == config.roles@.len(),
        cards@[i].role@ == config.roles@[i].role@,
        cards@[i].owned_paths@ == config.roles@[i].owned_paths@,
        cards@[i].acceptance@ == config.roles@[i].acceptance@,
        cards@[i].runtime == config.roles@[i].runtime,
        cards@[i].commander@ == config.commander@,
        cards@[i].lane_enforcement == config.lane_enforcement,
        cards@[i].broker == broker,
{
    assert(card_of(cards@[i], config.roles@[i], config, broker));
}

proof fn lemma_spec_at(roles: Seq<RoleSpec>, name: Seq<char>, i: int, n: int)
    requires
        0 <= i < n <= roles.len(),
        roles[i].role@ == name,
        forall|j: int| 0 <= j < i ==> (#[trigger] roles[j]).role@ != name,
    ensures
        spec_named(roles, name, n) == Some(roles[i]),
    decreases n,
{
    if n - 1 > i {
        lemma_spec_at(roles, name, i, n - 1);
    } else {
        lemma_spec_none(roles, name, i);
    }
}

proof fn lemma_spec_none(roles: Seq<RoleSpec>, name: Seq<char>, n: int)
    requires
        0 <= n <= roles.len(),
        forall|j: int| 0 <= j < n ==> (#[trigger] roles[j]).role@ != name,
    ensures
        spec_named(roles, name, n) is None,
    decreases n,
{
    if n > 0 {
        lemma_spec_none(roles, name, n - 1);
    }
}

/// A role runs the model it names; else that of the tier it names; else the crew's
/// model; else that of the tier its name maps to.
pub proof fn a_roles_model_goes_by_precedence(
    config: CrewConfig,
    i: int,
    role: RoleId,
    tier: ModelTier,
    model: &str,
)
    requires
        0 <= i < config.roles@.len(),
        config.roles@[i].role@ == role@,
        forall|j: int| 0 <= j < i ==> (#[trigger] config.roles@[j]).role@ != role@,
        call_ensures(model::default_tier_for, (&role,), tier),
        call_ensures(CrewConfig::model_for, (&config, &role), model),
    ensures
        ({
            let spec = config.roles@[i];
            &&& spec.model is Some ==> model@ == spec.model->0@
            &&& spec.model is None && spec.tier is Some ==> model@ == config.models.alias(
                spec.tier->0,
            )
            &&& spec.model is None && spec.tier is None && config.model is Some ==> model@
                == config.model->0@
            &&& spec.model is None && spec.tier is None && config.model is None ==> model@
                == config.models.alias(tier)
        }),
{
    lemma_spec_at(config.roles@, role@, i, config.roles@.len() as int);
}

/// The budget of a crew holds its ceiling and each role to its own cap, and caps no
/// role that has none.
pub proof fn each_role_is_held_to_its_cap(config: CrewConfig, budget: Budget, i: int)
    requires
        call_ensures(CrewConfig::budget, (&config,), budget),
        0 <= i < config.roles@.len(),
        forall|j: int, k: int|
            0 <= j < k < config.roles@.len() ==> (#[trigger] config.roles@[j]).role@ != (
            #[trigger] config.roles@[k]).role@,
    ensures
        budget@.ceiling == config.token_budget,
        budget@.crew_spent == 0,
        config.roles@[i].token_cap matches Some(cap) ==> budget@.caps.dom().contains(
            config.roles@[i].role@,
        ) && budget@.caps[config.roles@[i].role@] == cap,
        config.roles@[i].token_cap is None ==> !budget@.caps.dom().contains(config.roles@[i].role@),
{
    lemma_caps(config.roles@, config.roles@.len() as int, i);
}

proof fn lemma_caps(roles: Seq<RoleSpec>, n: int, i: int)
    requires
        0 <= n <= roles.len(),
        0 <= i < roles.len(),
        forall|j: int, k: int|
            0 <= j < k < roles.len() ==> (#[trigger] roles[j]).role@ != (#[trigger] roles[k]).role@,
    ensures
        i >= n ==> !caps_of(roles, n).dom().contains(roles[i].role@),
        i < n && roles[i].token_cap is Some ==> caps_of(roles, n).dom().contains(roles[i].role@)
            && caps_of(roles, n)[roles[i].role@] == roles[i].token_cap->0,
        i < n && roles[i].token_cap is None ==> !caps_of(roles, n).dom().contains(roles[i].role@),
    decreases n,
{
    if n > 0 {
        lemma_caps(roles, n - 1, i);
        if i != n - 1 {
            assert(roles[n - 1].role@ != roles[i].role@);
        }
    }
}

/// A repo given by an absolute path is taken as it is, and any other under the
/// workspace, which itself lies under the config's directory unless it is absolute.
pub proof fn repos_lie_under_the_workspace(
    config: CrewConfig,
    config_dir: &str,
    root: String,
    paths: Vec<String>,
    i: int,
)
    requires
        call_ensures(CrewConfig::workspace_root, (&config, config_dir), root),
        call_ensures(CrewConfig::repo_paths, (&config, config_dir), paths),
        0 <= i < config.repos@.len(),
        config.repos@[i]@.len() > 0,
        config_dir@.len() > 0 && config_dir@.last() != '/',
        config.workspace matches Some(dir) ==> dir@.len() > 0 && dir@.last() != '/',
    ensures
        paths@.len() == config.repos@.len(),
        config.workspace is None ==> root@ == config_dir@,
        config.workspace matches Some(dir) ==> if dir@[0] == '/' {
            root@ == dir@
        } else {
            root@ == config_dir@ + seq!['/'] + dir@
        },
        config.repos@[i]@[0] == '/' ==> paths@[i]@ == config.repos@[i]@,
        config.repos@[i]@[0] != '/' ==> paths@[i]@ == root@ + seq!['/'] + config.repos@[i]@,
{
    assert(root@.len() > 0 && root@.last() != '/');
}

/// The default crew is a commander that routes and three specialists, each with the one
/// lane of its own, all of them on the usual runtime with nothing else set.
pub proof fn the_default_crew_is_four_plain_roles(roles: Vec<RoleSpec>, k: int)
    requires
        call_ensures(default_roles, (), roles),
    ensures
        roles@.len() == 4,
        roles@[0].role@ == "commander"@ && roles@[0].owned_paths@.len() == 0,
        roles@[1].role@ == "backend"@ && text::texts(roles@[1].owned_paths@) == seq!["api/"@],
        roles@[2].role@ == "frontend"@ && text::texts(roles@[2].owned_paths@) == seq!["frontend/"@],
        roles@[3].role@ == "qa"@ && text::texts(roles@[3].owned_paths@) == seq!["tests/"@],
        0 <= k < 4 ==> {
            let spec = roles@[k];
            &&& spec.runtime is Claude
            &&& spec.tier is None && spec.model is None && spec.token_cap is None
            &&& spec.acceptance@.len() == 0
        },
{
    assert(text::texts(roles@[0].owned_paths@).len() == 0);
    assert(0 <= k < 4 ==> k == 0 || k == 1 || k == 2 || k == 3);
}

} // verus!
