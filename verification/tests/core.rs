//! The shared vocabulary: actions and approvals, budgets, cards, channels,
//! configs, ids, lanes, and model tiers.
use crew::approval::{self, default_roe_for, ActionKind, DEFAULT_SPEND_THRESHOLD};
use crew::budget::{Budget, BudgetScope};
use crew::card::{BrokerEndpoint, RoleCard};
use crew::channel::{Channel, ALL_UNITS};
use crew::config::{
    parse_duration, ConfigError, CrewConfig, LaneEnforcement, RawConfig, RawModels, RawRole,
    Runtime,
};
use crew::id::{ChannelId, IdError, MessageId, RoleId, Sender, TaskId};
use crew::lane::{lanes_overlap, path_in_lane};
use crew::model::{default_tier_for, ModelTier, ModelTiers};
use crew::roe::{self, RiskyAction};
use crew::rolemap::RoleMap;
use crew::time::Timestamp;

fn role(name: &str) -> RoleId {
    RoleId::new(name)
}

// Actions and approvals.

#[test]
fn action_labels_round_trip_and_cover_every_kind() {
    for action in ActionKind::ALL {
        assert_eq!(
            ActionKind::parse(action.label()),
            Some(action),
            "`{}` round-trips",
            action.label(),
        );
        assert!(!action.phrase().is_empty(), "every action has a phrase");
    }
    // Case and the loose aliases resolve, so an agent naming an action is
    // forgiving.
    assert_eq!(ActionKind::parse("MERGE"), Some(ActionKind::Merge));
    assert_eq!(
        ActionKind::parse("external-post"),
        Some(ActionKind::ExternalPost)
    );
    assert_eq!(ActionKind::parse("post"), Some(ActionKind::ExternalPost));
    assert_eq!(ActionKind::parse("nonsense"), None);
}

#[test]
fn the_specialist_default_gates_every_action() {
    let rules = default_roe_for(false);
    // Push, merge, delete, and external post are gated outright.
    for action in [
        ActionKind::Push,
        ActionKind::Merge,
        ActionKind::Delete,
        ActionKind::ExternalPost,
    ] {
        assert!(
            rules.requires_approval(action, None),
            "a specialist needs approval to {}",
            action.label(),
        );
    }
    // Spend is gated only above the threshold.
    assert!(
        !rules.requires_approval(ActionKind::Spend, Some(DEFAULT_SPEND_THRESHOLD - 1)),
        "a spend below the threshold proceeds",
    );
    assert!(
        rules.requires_approval(ActionKind::Spend, Some(DEFAULT_SPEND_THRESHOLD)),
        "a spend at the threshold needs approval",
    );
    assert!(
        !rules.requires_approval(ActionKind::Spend, None),
        "a spend with no amount is not gated (the amount decides)",
    );
}

#[test]
fn the_commander_default_lets_it_integrate_but_gates_the_irreversible() {
    let rules = default_roe_for(true);
    // The lead may push, merge, and spend without sign-off.
    assert!(
        !rules.requires_approval(ActionKind::Push, None),
        "commander may push"
    );
    assert!(
        !rules.requires_approval(ActionKind::Merge, None),
        "commander may merge"
    );
    assert!(
        !rules.requires_approval(ActionKind::Spend, Some(u64::MAX)),
        "commander may spend any amount",
    );
    // But not delete or post outside the crew.
    assert!(
        rules.requires_approval(ActionKind::Delete, None),
        "even the commander gets sign-off to delete",
    );
    assert!(
        rules.requires_approval(ActionKind::ExternalPost, None),
        "even the commander gets sign-off to post externally",
    );
}

#[test]
fn a_full_action_matrix_of_gated_and_ungated() {
    // Every action against a role's rules, both ways.
    let rules = approval::RulesOfEngagement::new(&[ActionKind::Merge, ActionKind::Spend], 500);
    let matrix = [
        (ActionKind::Push, None, false),
        (ActionKind::Merge, None, true),
        (ActionKind::Delete, None, false),
        (ActionKind::ExternalPost, None, false),
        (ActionKind::Spend, Some(499), false),
        (ActionKind::Spend, Some(500), true),
        (ActionKind::Spend, Some(1000), true),
    ];
    for (action, amount, expected) in matrix {
        assert_eq!(
            rules.requires_approval(action, amount),
            expected,
            "{}{:?} should be {}",
            action.label(),
            amount,
            if expected { "gated" } else { "ungated" },
        );
    }
}

#[test]
fn an_unrestricted_role_gates_nothing() {
    let rules = approval::RulesOfEngagement::new(&[], DEFAULT_SPEND_THRESHOLD);
    assert!(rules.is_unrestricted());
    for action in ActionKind::ALL {
        assert!(
            !rules.requires_approval(action, Some(u64::MAX)),
            "nothing is gated for an unrestricted role",
        );
    }
    assert_eq!(rules.gated_actions().len(), 0);
}

#[test]
fn gated_actions_lists_in_a_stable_order() {
    let rules = approval::RulesOfEngagement::new(
        &[
            ActionKind::ExternalPost,
            ActionKind::Push,
            ActionKind::Delete,
        ],
        DEFAULT_SPEND_THRESHOLD,
    );
    assert_eq!(
        rules.gated_actions(),
        [
            ActionKind::Push,
            ActionKind::Delete,
            ActionKind::ExternalPost
        ],
        "listed in the canonical order, not insertion order",
    );
}

#[test]
fn overrides_replace_the_gated_set_and_the_threshold() {
    let rules = default_roe_for(false)
        .with_gated(&[ActionKind::Push])
        .with_spend_threshold(42);
    assert!(rules.requires_approval(ActionKind::Push, None));
    assert!(
        !rules.requires_approval(ActionKind::Merge, None),
        "merge is no longer gated"
    );
    assert_eq!(rules.spend_threshold(), 42);
}

#[test]
fn a_risky_action_round_trips_through_its_label() {
    for action in RiskyAction::ALL {
        assert_eq!(RiskyAction::parse(action.label()), Some(action));
    }
    assert_eq!(RiskyAction::parse("stroll"), None);
}

/// A specialist gates all five; the commander gates all but `merge`.
#[test]
fn the_default_policy_matrix_gates_by_role_and_action() {
    let specialist = roe::RulesOfEngagement::default_for(false);
    let commander = roe::RulesOfEngagement::default_for(true);

    for action in RiskyAction::ALL {
        assert!(
            specialist.requires_approval(action, None),
            "a specialist gates {}",
            action.to_string(),
        );
        let commander_gates = action != RiskyAction::Merge;
        assert_eq!(
            commander.requires_approval(action, None),
            commander_gates,
            "the commander gates {} unless it is a merge",
            action.to_string(),
        );
    }
}

#[test]
fn an_ungated_action_needs_no_approval() {
    let policy = roe::RulesOfEngagement::new(&[RiskyAction::Push, RiskyAction::Delete]);
    assert!(policy.requires_approval(RiskyAction::Push, None));
    assert!(policy.requires_approval(RiskyAction::Delete, None));
    assert!(
        !policy.requires_approval(RiskyAction::Merge, None),
        "merge is not gated"
    );
    assert!(!policy.requires_approval(RiskyAction::ExternalPost, None));
}

#[test]
fn a_threshold_opens_no_gate_of_its_own() {
    // Spending is not gated, so the threshold has nothing to narrow.
    let policy = roe::RulesOfEngagement::new(&[RiskyAction::Push]).with_spend_threshold(1_000);
    assert!(!policy.requires_approval(RiskyAction::Spend, Some(5_000)));
    assert!(!policy.requires_approval(RiskyAction::Spend, None));
    assert!(policy.requires_approval(RiskyAction::Push, None));
    // A gated spend of no stated magnitude stays below any threshold.
    let thrifty = roe::RulesOfEngagement::new(&[RiskyAction::Spend]).with_spend_threshold(1_000);
    assert!(!thrifty.requires_approval(RiskyAction::Spend, None));
    assert!(thrifty.requires_approval(RiskyAction::Spend, Some(5_000)));
}

#[test]
fn a_spend_threshold_gates_only_above_the_line() {
    let policy = roe::RulesOfEngagement::new(&[RiskyAction::Spend]).with_spend_threshold(1_000);
    assert!(
        !policy.requires_approval(RiskyAction::Spend, Some(1_000)),
        "at the line proceeds"
    );
    assert!(!policy.requires_approval(RiskyAction::Spend, Some(999)));
    assert!(
        policy.requires_approval(RiskyAction::Spend, Some(1_001)),
        "above the line gates"
    );
}

#[test]
fn a_gated_spend_without_a_threshold_gates_every_spend() {
    let policy = roe::RulesOfEngagement::new(&[RiskyAction::Spend]);
    assert!(policy.requires_approval(RiskyAction::Spend, None));
    assert!(policy.requires_approval(RiskyAction::Spend, Some(1)));
}

#[test]
fn gate_all_gates_everything_and_the_default_is_permissive() {
    let all = roe::RulesOfEngagement::gate_all();
    for action in RiskyAction::ALL {
        assert!(
            all.requires_approval(action, None),
            "gate_all gates {}",
            action.to_string()
        );
    }
    let empty = roe::RulesOfEngagement::default();
    for action in RiskyAction::ALL {
        assert!(
            !empty.requires_approval(action, None),
            "the empty default gates nothing"
        );
    }
}

#[test]
fn an_approval_never_lapses_as_the_spend_grows() {
    let rules = approval::RulesOfEngagement::new(&[ActionKind::Spend], 500);
    let mut needed = false;
    for amount in [0, 499, 500, 501, u64::MAX] {
        let now = rules.requires_approval(ActionKind::Spend, Some(amount));
        assert!(now || !needed, "{amount}");
        needed = now;
    }
    assert!(needed);
}

// Budgets.

fn caps(entries: &[(&str, u64)]) -> RoleMap<u64> {
    let mut map = RoleMap::new();
    for (name, cap) in entries {
        map.insert(role(name), *cap);
    }
    map
}

#[test]
fn an_unbounded_crew_never_breaches() {
    let mut budget = Budget::new(None, RoleMap::new());
    let backend = role("backend");
    for _ in 0..5 {
        assert!(budget.record(&backend, 1_000_000).breach.is_none());
    }
    assert_eq!(budget.crew_spent(), 5_000_000);
    assert_eq!(budget.crew_remaining(), None);
    assert_eq!(budget.role_remaining(&backend), None);
    assert!(!budget.is_bounded());
}

#[test]
fn a_role_cap_breaches_once_when_reached() {
    let backend = role("backend");
    let mut budget = Budget::new(None, caps(&[("backend", 1_000)]));

    let under = budget.record(&backend, 900);
    assert_eq!(under.breach, None);
    assert_eq!(under.role_spent, 900);
    assert_eq!(budget.role_remaining(&backend), Some(100));

    // Reaching the cap breaches; a later spend does not re-fire it.
    assert_eq!(budget.record(&backend, 100).breach, Some(BudgetScope::Role));
    assert_eq!(budget.record(&backend, 500).breach, None);
    assert_eq!(budget.role_remaining(&backend), Some(0));
}

#[test]
fn a_role_cap_leaves_other_roles_alone() {
    let backend = role("backend");
    let frontend = role("frontend");
    let mut budget = Budget::new(None, caps(&[("backend", 1_000)]));

    assert_eq!(
        budget.record(&backend, 1_000).breach,
        Some(BudgetScope::Role)
    );
    // Frontend is uncapped, so its spend never breaches.
    assert_eq!(budget.record(&frontend, 5_000).breach, None);
}

#[test]
fn the_crew_budget_breaches_across_roles() {
    let backend = role("backend");
    let frontend = role("frontend");
    let mut budget = Budget::new(Some(1_000), RoleMap::new());

    assert_eq!(budget.record(&backend, 600).breach, None);
    // The crew total (600 + 400) reaches the crew budget, though no single role did.
    assert_eq!(
        budget.record(&frontend, 400).breach,
        Some(BudgetScope::Crew)
    );
    assert_eq!(budget.crew_remaining(), Some(0));
    assert_eq!(
        budget.record(&backend, 100).breach,
        None,
        "the crew cap acts once"
    );
}

#[test]
fn the_crew_budget_takes_precedence_over_a_role_cap_crossed_at_once() {
    let backend = role("backend");
    let mut budget = Budget::new(Some(1_000), caps(&[("backend", 1_000)]));

    // A single spend crosses both ceilings; the crew scope wins (it stops the crew).
    assert_eq!(
        budget.record(&backend, 1_000).breach,
        Some(BudgetScope::Crew)
    );
}

#[test]
fn totals_stop_at_the_largest_number() {
    let backend = role("backend");
    let mut budget = Budget::new(None, RoleMap::new());
    budget.record(&backend, u64::MAX);
    assert_eq!(budget.record(&backend, 1).role_spent, u64::MAX);
    assert_eq!(budget.crew_spent(), u64::MAX);
}

// Cards.

/// A fully specified card, as the supervisor would write it.
fn sample() -> RoleCard {
    RoleCard::new(
        RoleId::new("backend"),
        vec!["api/".to_owned(), "db/".to_owned()],
        "Tests green, migrations reversible, no clippy warnings.",
        BrokerEndpoint::new("127.0.0.1", 2739),
    )
}

#[test]
fn the_briefing_states_the_lane_bar_and_broker() {
    let briefing = sample().briefing();
    assert!(briefing.contains("backend"), "names the role");
    assert!(briefing.contains("api/, db/"), "lists the owned lane");
    assert!(
        briefing.contains("no clippy warnings"),
        "states the acceptance bar"
    );
    assert!(
        briefing.contains("http://127.0.0.1:2739"),
        "gives the broker address"
    );
    assert!(briefing.contains("crew_send"), "points at the MCP tools");
    assert!(
        briefing.contains("redirect") && briefing.contains("belay"),
        "tells the role to honor the General's redirect and belay"
    );
    assert!(
        briefing.contains("next tool boundary"),
        "says when to honor a directive"
    );
}

#[test]
fn the_briefing_handles_a_role_without_a_lane() {
    let card = RoleCard::new(
        RoleId::new("commander"),
        Vec::new(),
        "",
        BrokerEndpoint::new("127.0.0.1", 2739),
    );
    let briefing = card.briefing();
    assert!(
        briefing.contains("no fixed paths"),
        "explains the missing lane"
    );
    assert!(
        !briefing.contains("Acceptance bar:"),
        "omits the acceptance line when there is none",
    );
}

#[test]
fn the_commander_briefing_states_its_duties_and_fan_out_handle() {
    // A card whose role is the commander gets the commander's briefing.
    let card = RoleCard::new(
        RoleId::new("commander"),
        Vec::new(),
        "",
        BrokerEndpoint::new("127.0.0.1", 2739),
    );
    assert!(card.is_commander(), "the role matches the commander");
    let briefing = card.briefing();
    assert!(briefing.contains("Decompose"), "states decomposition duty");
    assert!(briefing.contains("Arbitrate"), "states arbitration duty");
    assert!(
        briefing.contains("crew_order"),
        "gives the handle to issue orders",
    );
}

#[test]
fn a_specialist_briefing_names_its_commander() {
    // The default crew names the commander `commander`; a specialist is told so.
    let card = sample();
    assert!(!card.is_commander(), "backend is not the commander");
    let briefing = card.briefing();
    assert!(
        briefing.contains("Your commander is commander"),
        "names the commander to brief and report to",
    );
    assert!(
        briefing.contains("reaches the commander"),
        "explains the default addressing",
    );
}

#[test]
fn with_commander_sets_a_configured_commander() {
    let card = sample().with_commander(RoleId::new("lead"));
    assert_eq!(card.commander, RoleId::new("lead"));
    assert!(!card.is_commander(), "backend is not the `lead` commander");
    assert!(
        card.briefing().contains("Your commander is lead"),
        "the briefing names the configured commander",
    );
    let lead = card.with_runtime(Runtime::Codex).with_lane_enforcement(LaneEnforcement::Block);
    assert_eq!(lead.runtime, Runtime::Codex);
    assert_eq!(lead.lane_enforcement, LaneEnforcement::Block);
}

// Channels.

#[test]
fn parses_the_three_channel_kinds() {
    assert_eq!(Channel::parse(ALL_UNITS), Some(Channel::AllUnits));
    assert_eq!(
        Channel::parse("@backend"),
        Some(Channel::Direct(role("backend")))
    );
    assert_eq!(
        Channel::parse("backend+frontend"),
        Channel::pair(role("backend"), role("frontend")),
    );
}

#[test]
fn a_pair_is_order_independent_and_canonically_named() {
    let forward = Channel::parse("frontend+backend").unwrap();
    let reverse = Channel::parse("backend+frontend").unwrap();
    assert_eq!(forward, reverse, "member order must not matter");
    // The name renders members in a single canonical (sorted) order.
    assert_eq!(forward.name().as_str(), "backend+frontend");
    assert_eq!(reverse.name().as_str(), "backend+frontend");
}

#[test]
fn names_round_trip_through_parse() {
    for channel in [
        Channel::AllUnits,
        Channel::Direct(role("qa")),
        Channel::pair(role("frontend"), role("backend")).unwrap(),
    ] {
        let name = channel.name();
        assert_eq!(
            Channel::parse(name.as_str()),
            Some(channel.clone()),
            "{} must parse back to itself",
            name.as_str(),
        );
    }
}

#[test]
fn rejects_malformed_names() {
    for bad in [
        "",        // empty
        "  ",      // blank
        "@",       // direct with no role
        "@ ",      // direct with a blank role
        "backend", // a bare role name is not a channel
        "random",  // unknown word
        "a+a",     // a pair of one role with itself
        "a+b+c",   // more than two members
        "@a+b",    // a member carrying a reserved marker
        "+b",      // pair missing its first member
        "a+",      // pair missing its second member
    ] {
        assert_eq!(Channel::parse(bad), None, "{bad:?} must not parse");
    }
}

#[test]
fn resolve_follows_the_hub_and_spoke_default() {
    let commander = role("commander");

    // Neither target given: the message reaches the commander.
    assert_eq!(
        Channel::resolve(None, None, &commander),
        Some(Channel::Direct(commander.clone())),
        "an unaddressed message defaults to the commander",
    );
    // A blank target is treated as absent, so it still defaults to the commander.
    assert_eq!(
        Channel::resolve(Some("  "), Some("  "), &commander),
        Some(Channel::Direct(commander.clone())),
    );

    // A named role wins over the default and over a channel.
    assert_eq!(
        Channel::resolve(Some("backend"), Some("all-units"), &commander),
        Some(Channel::Direct(role("backend"))),
        "a direct `to` takes precedence",
    );

    // A channel name resolves to its parsed meaning.
    assert_eq!(
        Channel::resolve(None, Some("all-units"), &commander),
        Some(Channel::AllUnits),
    );
    assert_eq!(
        Channel::resolve(None, Some("frontend+backend"), &commander),
        Channel::pair(role("frontend"), role("backend")),
    );

    // An unroutable target is rejected rather than guessed.
    assert_eq!(Channel::resolve(None, Some("nonsense"), &commander), None);
    assert_eq!(Channel::resolve(Some("a+b"), None, &commander), None);
}

#[test]
fn addresses_resolves_membership_across_the_matrix() {
    let backend = role("backend");
    let frontend = role("frontend");
    let qa = role("qa");

    // all-units reaches every role.
    assert!(Channel::AllUnits.addresses(&backend));
    assert!(Channel::AllUnits.addresses(&qa));

    // a direct channel reaches only its addressee.
    let direct = Channel::Direct(backend.clone());
    assert!(direct.addresses(&backend));
    assert!(!direct.addresses(&frontend));

    // a pair reaches both members and no one else.
    let pair = Channel::pair(frontend.clone(), backend.clone()).unwrap();
    assert!(pair.addresses(&frontend));
    assert!(pair.addresses(&backend));
    assert!(!pair.addresses(&qa));
}

// Configs.

fn strings(value: &toml::Value) -> Vec<String> {
    value
        .as_array()
        .unwrap()
        .iter()
        .map(|item| item.as_str().unwrap().to_owned())
        .collect()
}

fn text(table: &toml::Table, key: &str) -> Option<String> {
    table.get(key).map(|value| value.as_str().unwrap().to_owned())
}

fn raw_role(table: &toml::Table) -> RawRole {
    RawRole {
        role: text(table, "role").unwrap(),
        owned_paths: table.get("owned_paths").map(strings),
        acceptance: text(table, "acceptance"),
        tier: text(table, "tier").map(|tier| match tier.as_str() {
            "strong" => ModelTier::Strong,
            "standard" => ModelTier::Standard,
            "cheap" => ModelTier::Cheap,
            other => panic!("no tier {other}"),
        }),
        model: text(table, "model"),
        token_cap: table.get("token_cap").map(|cap| cap.as_integer().unwrap() as u64),
        runtime: text(table, "runtime").map(|runtime| match runtime.as_str() {
            "codex" => Runtime::Codex,
            _ => Runtime::Claude,
        }),
    }
}

/// The crew that a TOML document describes, its fields read one by one.
fn from_toml(source: &str) -> Result<CrewConfig, ConfigError> {
    let table: toml::Table = source.parse().unwrap();
    CrewConfig::from_raw(RawConfig {
        model: text(&table, "model"),
        models: table.get("models").map(|models| {
            let models = models.as_table().unwrap();
            RawModels {
                strong: text(models, "strong"),
                standard: text(models, "standard"),
                cheap: text(models, "cheap"),
            }
        }),
        token_budget: table.get("token_budget").map(|cap| cap.as_integer().unwrap() as u64),
        commander: text(&table, "commander"),
        idle_stop: text(&table, "idle_stop"),
        repos: table.get("repos").map(strings),
        workspace: text(&table, "workspace"),
        worktrees: table.get("worktrees").map(|on| on.as_bool().unwrap()),
        lane_enforcement: text(&table, "lane_enforcement").map(|mode| match mode.as_str() {
            "off" => LaneEnforcement::Off,
            "warn" => LaneEnforcement::Warn,
            "block" => LaneEnforcement::Block,
            other => panic!("no enforcement {other}"),
        }),
        roles: table.get("roles").map(|roles| {
            roles
                .as_array()
                .unwrap()
                .iter()
                .map(|entry| raw_role(entry.as_table().unwrap()))
                .collect()
        }),
    })
}

#[test]
fn a_role_runtime_defaults_to_claude_and_parses_codex() {
    let config = from_toml(
        "commander = \"backend\"\n\n\
         [[roles]]\nrole = \"backend\"\n\n\
         [[roles]]\nrole = \"scout\"\nruntime = \"codex\"",
    )
    .expect("a per-role runtime is valid config");
    let runtime = |name: &str| {
        config
            .roles
            .iter()
            .find(|role| role.role == RoleId::new(name))
            .unwrap()
            .runtime
    };
    assert_eq!(
        runtime("backend"),
        Runtime::Claude,
        "an unset runtime has a default"
    );
    assert_eq!(
        runtime("scout"),
        Runtime::Codex,
        "runtime = \"codex\" parses"
    );

    // to_cards carries the runtime onto each card, so the spawn path can branch.
    let cards = config.to_cards(&BrokerEndpoint::new("127.0.0.1", 2739));
    let scout = cards
        .iter()
        .find(|card| card.role == RoleId::new("scout"))
        .unwrap();
    assert_eq!(
        scout.runtime,
        Runtime::Codex,
        "the card carries the codex runtime"
    );
}

/// A fully specified config exercising every field.
const DOCUMENTED: &str = r#"
    commander = "commander"
    idle_stop = "10m"
    repos = ["api", "web"]
    worktrees = true
    lane_enforcement = "block"

    [models]
    strong = "opus"
    standard = "sonnet"
    cheap = "haiku"

    [[roles]]
    role = "commander"
    owned_paths = []

    [[roles]]
    role = "backend"
    owned_paths = ["api/", "db/"]
    acceptance = "Tests green, migrations reversible."
    model = "haiku"

    [[roles]]
    role = "frontend"
    owned_paths = ["web/"]

    [[roles]]
    role = "qa"
    owned_paths = ["tests/"]
    tier = "cheap"
"#;

#[test]
fn the_documented_config_produces_a_valid_crew() {
    let config = from_toml(DOCUMENTED).expect("the documented config is valid");
    assert_eq!(config.roles.len(), 4);
    assert_eq!(config.commander, RoleId::new("commander"));
    assert_eq!(config.model, None, "no crew-wide model override");
    assert_eq!(config.idle_stop.as_secs(), 10 * 60);
    assert_eq!(config.repos, ["api", "web"]);
    assert!(config.worktrees, "worktree isolation is opted in");
    assert_eq!(config.lane_enforcement, LaneEnforcement::Block);

    // Each precedence level resolves as expected: an exact model pins the build, an
    // explicit tier and the default-by-name tier both resolve through the tier map.
    assert_eq!(
        config.model_for(&RoleId::new("backend")),
        "haiku",
        "exact model"
    );
    assert_eq!(
        config.model_for(&RoleId::new("qa")),
        "haiku",
        "explicit cheap tier"
    );
    assert_eq!(
        config.model_for(&RoleId::new("commander")),
        "opus",
        "default strong tier"
    );
    assert_eq!(
        config.model_for(&RoleId::new("frontend")),
        "sonnet",
        "default standard tier"
    );

    // It produces one role card per role, reaching the given broker.
    let cards = config.to_cards(&BrokerEndpoint::new("127.0.0.1", 2739));
    assert_eq!(cards.len(), 4);
    let backend = cards
        .iter()
        .find(|c| c.role == RoleId::new("backend"))
        .unwrap();
    assert_eq!(backend.owned_paths, ["api/", "db/"]);
    assert_eq!(backend.broker.base_url(), "http://127.0.0.1:2739");

    // Every card names the crew's commander, so each agent boots knowing the hub.
    assert!(
        cards
            .iter()
            .all(|c| c.commander == RoleId::new("commander")),
        "each card carries the crew's commander",
    );
    let commander = cards
        .iter()
        .find(|c| c.role == RoleId::new("commander"))
        .unwrap();
    assert!(
        commander.is_commander(),
        "the commander card knows it leads"
    );
    assert!(!backend.is_commander(), "a specialist card does not");
}

#[test]
fn repo_names_resolve_under_the_config_directory_by_default() {
    // A bare name anchors to the config file's own directory, so it means the
    // same repo wherever the crew is brought up.
    let config = from_toml("repos = [\"api\", \"web\"]").unwrap();
    assert_eq!(
        config.repo_paths("/workspace"),
        ["/workspace/api", "/workspace/web"],
    );
}

#[test]
fn absolute_and_relative_repo_entries_are_paths_not_names() {
    let config = from_toml("repos = [\"/opt/api\", \"../sibling\", \"nested/web\"]").unwrap();
    assert_eq!(
        config.repo_paths("/workspace/crew"),
        [
            // Absolute: taken as-is, ignoring the workspace root.
            "/opt/api",
            // Relative: joined onto the workspace root (the config dir here).
            "/workspace/crew/../sibling",
            "/workspace/crew/nested/web",
        ],
    );
}

#[test]
fn the_workspace_field_overrides_the_root_for_named_repos() {
    // A relative `workspace` is anchored to the config dir: `..` points a
    // config that lives inside a repo at the surrounding clones.
    let relative = from_toml("repos = [\"api\"]\nworkspace = \"..\"").unwrap();
    assert_eq!(
        relative.repo_paths("/workspace/crew"),
        ["/workspace/crew/../api"],
    );

    // An absolute `workspace` is the root outright; an absolute repo entry
    // still ignores it.
    let absolute = from_toml("repos = [\"api\", \"/opt/x\"]\nworkspace = \"/clones\"").unwrap();
    assert_eq!(
        absolute.repo_paths("/anywhere"),
        ["/clones/api", "/opt/x"],
    );
}

#[test]
fn the_default_crew_is_valid_and_complete() {
    let config = CrewConfig::default();
    assert_eq!(
        config
            .roles
            .iter()
            .map(|spec| spec.role.as_str())
            .collect::<Vec<_>>(),
        ["commander", "backend", "frontend", "qa"],
    );
    assert_eq!(config.commander, RoleId::new("commander"));
    assert_eq!(config.model, None, "no crew-wide model override by default");
    // The sensible default mapping: the lead runs strong, the builders run standard,
    // with no per-role config.
    assert_eq!(config.model_for(&RoleId::new("commander")), "opus");
    assert_eq!(config.model_for(&RoleId::new("backend")), "sonnet");
    assert_eq!(config.model_for(&RoleId::new("frontend")), "sonnet");
    assert_eq!(config.model_for(&RoleId::new("qa")), "sonnet");
    assert_eq!(config.idle_stop.as_secs(), 5 * 60);
    assert!(config.repos.is_empty());
    assert!(!config.worktrees, "worktree isolation is off by default");
    assert_eq!(
        config.lane_enforcement,
        LaneEnforcement::Warn,
        "lane enforcement defaults to warn"
    );
    // The default crew round-trips through validation via an empty config document.
    assert_eq!(from_toml("").unwrap(), config);
}

#[test]
fn omitted_roles_yield_the_default_crew_with_overrides_applied() {
    let config = from_toml("model = \"haiku\"\nidle_stop = \"90s\"").unwrap();
    assert_eq!(config.roles.len(), 4, "roles default to the standard crew");
    assert_eq!(config.model.as_deref(), Some("haiku"));
    assert_eq!(config.idle_stop.as_secs(), 90);
    // A crew-wide model runs every un-tiered role, overriding the default mapping.
    assert_eq!(config.model_for(&RoleId::new("commander")), "haiku");
    assert_eq!(config.model_for(&RoleId::new("backend")), "haiku");
}

#[test]
fn the_tier_map_retunes_spend_without_touching_roles() {
    // Remapping a tier alias changes what every role on that tier runs:
    // bumping the cheap tier to sonnet moves the docs role up with no per-role
    // edit.
    let config = from_toml(
        "[models]\ncheap = \"sonnet\"\n\
         [[roles]]\nrole = \"commander\"\n[[roles]]\nrole = \"docs\"",
    )
    .unwrap();
    assert_eq!(
        config.model_for(&RoleId::new("docs")),
        "sonnet",
        "the remapped cheap tier"
    );
    assert_eq!(
        config.model_for(&RoleId::new("commander")),
        "opus",
        "the strong tier keeps its default alias"
    );
}

#[test]
fn a_per_role_tier_overrides_the_default_mapping() {
    // The commander defaults to strong; an explicit cheap tier overrides that.
    let config = from_toml(
        "[[roles]]\nrole = \"commander\"\ntier = \"cheap\"\n[[roles]]\nrole = \"backend\"",
    )
    .unwrap();
    assert_eq!(config.model_for(&RoleId::new("commander")), "haiku");
    assert_eq!(config.model_for(&RoleId::new("backend")), "sonnet");
}

#[test]
fn idle_stop_parses_seconds_minutes_and_hours() {
    assert_eq!(parse_duration("30s").unwrap().as_secs(), 30);
    assert_eq!(parse_duration("5m").unwrap().as_secs(), 300);
    assert_eq!(parse_duration("2h").unwrap().as_secs(), 7200);
    assert_eq!(parse_duration("300").unwrap().as_secs(), 300);
    // An unknown unit, non-numeric text, and a blank string are all rejected.
    parse_duration("5x").unwrap_err();
    parse_duration("abc").unwrap_err();
    parse_duration("").unwrap_err();
}

#[test]
fn a_duration_that_cannot_be_held_is_an_error() {
    let expected = "expected a duration like `5m`, `30s`, `2h`, or a number of seconds";
    // The largest number of seconds, and the first minute and hour beyond it.
    assert_eq!(
        parse_duration("18446744073709551615s").unwrap().as_secs(),
        u64::MAX
    );
    assert_eq!(
        parse_duration("5124095576030431h").unwrap().as_secs(),
        18_446_744_073_709_551_600
    );
    for beyond in [
        "5124095576030432h",
        "307445734561825861m",
        "18446744073709551615h",
        "18446744073709551616",
    ] {
        assert_eq!(parse_duration(beyond).unwrap_err(), expected, "{beyond}");
    }
    // A unit of more than one byte is an unknown unit like any other.
    assert_eq!(
        parse_duration("5\u{e9}").unwrap_err(),
        "unknown time unit `\u{e9}`; use s, m, or h"
    );
    assert!(parse_duration("\u{e9}").unwrap_err().contains("a number"));
    assert_eq!(parse_duration(" 5 m ").unwrap().as_secs(), 300);
    let message = invalid("idle_stop = \"5124095576030432h\"");
    assert!(message.contains("could not parse idle_stop"), "{message}");
}

/// Reads a config expected to be invalid, returning the precise message.
fn invalid(source: &str) -> String {
    let error = from_toml(source).expect_err("should be invalid");
    assert!(
        error.is_invalid(),
        "expected a validation error: {}",
        error.to_string()
    );
    error.to_string()
}

#[test]
fn an_unknown_commander_fails_with_a_precise_message() {
    let message = invalid(
        "commander = \"lead\"\n\
         [[roles]]\nrole = \"backend\"\nowned_paths = [\"api/\"]",
    );
    assert!(message.contains("commander `lead`"), "{message}");
    assert!(
        message.contains("backend"),
        "it lists the declared roles: {message}"
    );
}

#[test]
fn overlapping_ownership_fails_naming_both_roles_and_paths() {
    // Nested lanes overlap: `api/` contains `api/routes/`.
    let nested = invalid(
        "commander = \"backend\"\n\
         [[roles]]\nrole = \"backend\"\nowned_paths = [\"api/\"]\n\
         [[roles]]\nrole = \"frontend\"\nowned_paths = [\"api/routes/\"]",
    );
    assert!(
        nested.contains("backend") && nested.contains("frontend"),
        "{nested}"
    );
    assert!(
        nested.contains("api/") && nested.contains("api/routes/"),
        "{nested}"
    );

    // Identical lanes overlap too, even when written differently (`api` vs `api/`).
    let identical = invalid(
        "commander = \"backend\"\n\
         [[roles]]\nrole = \"backend\"\nowned_paths = [\"api\"]\n\
         [[roles]]\nrole = \"qa\"\nowned_paths = [\"api/\"]",
    );
    assert!(identical.contains("overlapping"), "{identical}");
}

#[test]
fn sibling_lanes_that_only_share_a_prefix_do_not_overlap() {
    // `api/` and `apiv2/` share a string prefix but are distinct directories.
    let config = from_toml(
        "commander = \"backend\"\n\
         [[roles]]\nrole = \"backend\"\nowned_paths = [\"api/\"]\n\
         [[roles]]\nrole = \"frontend\"\nowned_paths = [\"apiv2/\"]",
    );
    assert!(
        config.is_ok(),
        "sibling directories are not an overlap: {config:?}"
    );
}

#[test]
fn a_duplicate_or_empty_role_is_rejected() {
    let duplicate = invalid(
        "commander = \"backend\"\n\
         [[roles]]\nrole = \"backend\"\n[[roles]]\nrole = \"backend\"",
    );
    assert!(duplicate.contains("more than once"), "{duplicate}");

    let empty = invalid("commander = \"backend\"\n[[roles]]\nrole = \"  \"");
    assert!(empty.contains("must not be empty"), "{empty}");
}

#[test]
fn a_bad_idle_stop_fails_precisely() {
    let bad_duration = invalid("idle_stop = \"soon\"");
    assert!(bad_duration.contains("idle_stop `soon`"), "{bad_duration}");
    let unread = ConfigError::Parse("unknown field `modle`".to_owned());
    assert!(unread.is_parse() && !unread.is_invalid());
    assert!(unread.to_string().contains("modle"));
}

#[test]
fn a_config_budget_holds_the_crew_and_each_capped_role() {
    let config = from_toml(
        "token_budget = 1000\ncommander = \"backend\"\n\
         [[roles]]\nrole = \"backend\"\ntoken_cap = 600",
    )
    .unwrap();
    let mut budget = config.budget();
    assert!(budget.is_bounded());
    assert_eq!(budget.crew_budget(), Some(1000));
    let backend = role("backend");
    assert_eq!(budget.role_remaining(&backend), Some(600));
    assert_eq!(budget.record(&backend, 600).breach, Some(BudgetScope::Role));
    assert_eq!(budget.crew_remaining(), Some(400));
}

// Ids.

#[test]
fn uuid_ids_parse_from_their_display_string() {
    // Parsing is the inverse of display, so a CLI or MCP argument round-trips
    // through the wire form.
    let id = TaskId::new();
    let parsed: TaskId = id.to_string().parse().unwrap();
    assert_eq!(parsed, id, "the id parses back from its own Display text");
    assert!(
        "not-a-uuid".parse::<TaskId>().is_err(),
        "a non-UUID string is a parse error, not a silent default",
    );
}

#[test]
fn fresh_ids_are_unique_and_random() {
    let id = MessageId::new();
    assert_ne!(id, MessageId::new());
    let written = id.to_string();
    assert_eq!(written.len(), 36);
    assert_eq!(written.as_bytes()[14], b'4', "version 4: {written}");
    assert_eq!(MessageId::parse(&written), Ok(id));
    assert_eq!(MessageId::parse("backend"), Err(IdError::NotAUuid));
}

#[test]
fn an_id_is_written_in_the_canonical_form() {
    let id = TaskId(0x0123_4567_89ab_cdef_0123_4567_89ab_cdef);
    assert_eq!(id.to_string(), "01234567-89ab-cdef-0123-456789abcdef");
    assert_eq!(
        TaskId::parse("01234567-89AB-CDEF-0123-456789ABCDEF"),
        Ok(id),
        "upper case is read too"
    );
    assert_eq!(id.as_uuid(), id.0);
}

#[test]
fn a_sender_is_a_role_or_the_general() {
    assert!(Sender::Role(role("qa")).is_role(&role("qa")));
    assert!(!Sender::Role(role("qa")).is_role(&role("backend")));
    assert!(!Sender::General.is_role(&role("qa")));
    assert_eq!(ChannelId::new("all-units").into_inner(), "all-units");
}

// Lanes.

fn lane(paths: &[&str]) -> Vec<String> {
    paths.iter().map(|p| (*p).to_owned()).collect()
}

#[test]
fn nested_or_equal_lanes_overlap() {
    assert!(lanes_overlap("api/", "api/"), "equal lanes overlap");
    assert!(
        lanes_overlap("api/", "api/routes/"),
        "a nested lane overlaps"
    );
    assert!(lanes_overlap("api/routes/", "api/"), "nesting is symmetric");
    // A file under a directory lane collides with it.
    assert!(lanes_overlap("api/config.toml", "api/"));
}

#[test]
fn sibling_and_shared_prefix_lanes_do_not_overlap() {
    assert!(
        !lanes_overlap("api/", "frontend/"),
        "disjoint lanes do not overlap"
    );
    assert!(
        !lanes_overlap("api/", "apiv2/"),
        "a shared text prefix is not a segment"
    );
    assert!(
        !lanes_overlap("api/a.rs", "api/b.rs"),
        "sibling files do not overlap"
    );
}

#[test]
fn a_blank_lane_never_overlaps() {
    assert!(!lanes_overlap("", "api/"), "a blank lane owns nothing");
    assert!(
        !lanes_overlap("api/", "  "),
        "a whitespace lane owns nothing"
    );
}

#[test]
fn trailing_slashes_and_dot_prefixes_do_not_change_overlap() {
    assert!(
        lanes_overlap("./api", "api/routes"),
        "normalized before comparing"
    );
    assert!(lanes_overlap("api//", "api"), "extra slashes do not matter");
}

#[test]
fn a_path_under_an_owned_directory_is_in_lane() {
    let lane = lane(&["api/", "db/"]);
    assert!(path_in_lane(&lane, "api/routes.rs"));
    assert!(path_in_lane(&lane, "api/handlers/login.rs"));
    assert!(path_in_lane(&lane, "db/schema.sql"));
}

#[test]
fn a_path_outside_every_boundary_is_out_of_lane() {
    let lane = lane(&["api/"]);
    assert!(!path_in_lane(&lane, "frontend/app.tsx"));
    assert!(!path_in_lane(&lane, "README.md"));
}

#[test]
fn a_boundary_matches_a_whole_segment_not_a_prefix() {
    // `api/` must not own `apiv2/`, which merely shares a text prefix.
    let lane = lane(&["api/"]);
    assert!(!path_in_lane(&lane, "apiv2/routes.rs"));
    assert!(!path_in_lane(&lane, "apix"));
}

#[test]
fn trailing_slashes_and_dot_prefixes_do_not_matter() {
    let lane = lane(&["api"]);
    assert!(path_in_lane(&lane, "./api/routes.rs"));
    assert!(path_in_lane(&lane, "api/"));
    assert!(path_in_lane(&lane, "api"));
}

#[test]
fn a_specific_owned_file_is_in_lane_only_for_itself() {
    let lane = lane(&["Cargo.toml"]);
    assert!(path_in_lane(&lane, "Cargo.toml"));
    assert!(!path_in_lane(&lane, "Cargo.lock"));
}

#[test]
fn a_role_with_no_lane_is_unrestricted() {
    assert!(path_in_lane(&[], "anything/goes"));
    // A lane of only-blank entries is the same as no lane.
    assert!(path_in_lane(&lane(&["", "  "]), "anything/goes"));
}

#[test]
fn lanes_that_do_not_overlap_share_no_path() {
    for path in ["api/x.rs", "web/x.rs", "api", "web"] {
        assert!(!(path_in_lane(&lane(&["api"]), path) && path_in_lane(&lane(&["web"]), path)));
    }
}

// Model tiers.

#[test]
fn the_default_tier_map_uses_the_claude_code_aliases() {
    let tiers = ModelTiers::default();
    assert_eq!(tiers.resolve(ModelTier::Strong), "opus");
    assert_eq!(tiers.resolve(ModelTier::Standard), "sonnet");
    assert_eq!(tiers.resolve(ModelTier::Cheap), "haiku");
}

#[test]
fn overrides_replace_only_the_named_tiers() {
    let tiers = ModelTiers::from_overrides(None, Some("opus".to_owned()), Some(" ".to_owned()));
    assert_eq!(
        tiers.resolve(ModelTier::Strong),
        "opus",
        "unset keeps its default"
    );
    assert_eq!(
        tiers.resolve(ModelTier::Standard),
        "opus",
        "a set override wins"
    );
    assert_eq!(
        tiers.resolve(ModelTier::Cheap),
        "haiku",
        "a blank override is treated as absent"
    );
}

#[test]
fn the_default_mapping_spends_strong_where_it_matters_and_cheap_elsewhere() {
    // The lead roles run strong.
    assert_eq!(
        default_tier_for(&RoleId::new("commander")),
        ModelTier::Strong
    );
    assert_eq!(
        default_tier_for(&RoleId::new("architect")),
        ModelTier::Strong
    );

    // The mechanical roles run cheap.
    for cheap in [
        "docs",
        "ci",
        "release",
        "lint",
        "test",
        "sdet-unit",
        "sdet-e2e",
    ] {
        assert_eq!(
            default_tier_for(&RoleId::new(cheap)),
            ModelTier::Cheap,
            "{cheap} defaults to cheap"
        );
    }

    // The builders and any custom role run standard.
    for standard in ["backend", "frontend", "qa", "security", "some-custom-role"] {
        assert_eq!(
            default_tier_for(&RoleId::new(standard)),
            ModelTier::Standard,
            "{standard} defaults to standard"
        );
    }
}

#[test]
fn the_default_mapping_is_case_and_whitespace_insensitive() {
    assert_eq!(
        default_tier_for(&RoleId::new(" Commander ")),
        ModelTier::Strong
    );
    assert_eq!(default_tier_for(&RoleId::new("DOCS")), ModelTier::Cheap);
}

// Time.

#[test]
fn an_instant_is_written_in_utc() {
    let ts = Timestamp {
        secs: 1_700_000_000,
        nanos: 0,
    };
    assert_eq!(ts.clock(), "22:13:20");
    assert_eq!(
        ts.to_rfc3339().as_deref(),
        Some("2023-11-14T22:13:20+00:00")
    );
    let now = Timestamp::now();
    assert!(now.secs > 1_700_000_000);
    assert!(now.nanos < 1_000_000_000);
    assert!(now.to_rfc3339().is_some(), "the current instant is written");
    let beyond = Timestamp {
        secs: i64::MAX,
        nanos: 0,
    };
    assert_eq!(beyond.to_rfc3339(), None, "outside the calendar");
}
