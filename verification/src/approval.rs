//! Rules of engagement: the per-role approval gates for risky actions.
//!
//! Each role carries the set of actions it must get the General's approval for
//! before it takes them. By default the commander, who integrates the crew's
//! work, is gated only on deleting and on posting outside the crew; a
//! specialist is gated on all five.
use vstd::prelude::*;

use crate::text;

verus! {

/// A risky action a role might take, which its rules of engagement may gate
/// behind the General's approval.
#[derive(Debug, Clone, Copy, PartialEq, Eq, PartialOrd, Ord, Hash, Structural)]
pub enum ActionKind {
    /// Push commits to a remote.
    Push,
    /// Merge a branch or a pull request.
    Merge,
    /// Delete something not easily undone: a branch, a file, a resource.
    Delete,
    /// Spend above the role's threshold (tokens against the crew budget).
    Spend,
    /// Post outside the crew: a comment, an issue, a message to an external
    /// service.
    ExternalPost,
}

impl ActionKind {
    /// Every action kind, in the order they are listed.
    pub const ALL: [ActionKind; 5] = [
        ActionKind::Push,
        ActionKind::Merge,
        ActionKind::Delete,
        ActionKind::Spend,
        ActionKind::ExternalPost,
    ];

    /// The wire and config label.
    pub open spec fn label_text(self) -> Seq<char> {
        match self {
            ActionKind::Push => "push"@,
            ActionKind::Merge => "merge"@,
            ActionKind::Delete => "delete"@,
            ActionKind::Spend => "spend"@,
            ActionKind::ExternalPost => "external_post"@,
        }
    }

    /// The human phrase.
    pub open spec fn phrase_text(self) -> Seq<char> {
        match self {
            ActionKind::Push => "push to a remote"@,
            ActionKind::Merge => "merge a branch or pull request"@,
            ActionKind::Delete => "delete a branch, file, or resource"@,
            ActionKind::Spend => "spend above your threshold"@,
            ActionKind::ExternalPost => "post outside the crew"@,
        }
    }

    /// The action that a label names, whatever its case and outer white space;
    /// posting outside the crew has two aliases.
    pub open spec fn named(label: Seq<char>) -> Option<ActionKind> {
        let name = text::lower(text::trimmed(label));
        if name == "push"@ {
            Some(ActionKind::Push)
        } else if name == "merge"@ {
            Some(ActionKind::Merge)
        } else if name == "delete"@ {
            Some(ActionKind::Delete)
        } else if name == "spend"@ {
            Some(ActionKind::Spend)
        } else if name == "external_post"@ || name == "external-post"@ || name == "post"@ {
            Some(ActionKind::ExternalPost)
        } else {
            None
        }
    }

    /// The wire and config label (`push`, `merge`, `delete`, `spend`,
    /// `external_post`).
    pub fn label(self) -> (r: &'static str)
        ensures
            r@ == self.label_text(),
    {
        match self {
            ActionKind::Push => "push",
            ActionKind::Merge => "merge",
            ActionKind::Delete => "delete",
            ActionKind::Spend => "spend",
            ActionKind::ExternalPost => "external_post",
        }
    }

    /// A short human phrase, so a briefing reads "you need approval to push to
    /// a remote".
    pub fn phrase(self) -> (r: &'static str)
        ensures
            r@ == self.phrase_text(),
    {
        match self {
            ActionKind::Push => "push to a remote",
            ActionKind::Merge => "merge a branch or pull request",
            ActionKind::Delete => "delete a branch, file, or resource",
            ActionKind::Spend => "spend above your threshold",
            ActionKind::ExternalPost => "post outside the crew",
        }
    }

    /// The action that `label` names, so an agent or the config can name one.
    pub fn parse(label: &str) -> (r: Option<Self>)
        ensures
            r == ActionKind::named(label@),
    {
        let name = text::to_lower(text::trim(label));
        let name = name.as_str();
        if text::same(name, "push") {
            Some(ActionKind::Push)
        } else if text::same(name, "merge") {
            Some(ActionKind::Merge)
        } else if text::same(name, "delete") {
            Some(ActionKind::Delete)
        } else if text::same(name, "spend") {
            Some(ActionKind::Spend)
        } else if text::same(name, "external_post") || text::same(name, "external-post")
            || text::same(name, "post") {
            Some(ActionKind::ExternalPost)
        } else {
            None
        }
    }
}

/// The default spend threshold: a spend at or above this many tokens needs
/// approval when a role is gated on spend.
pub const DEFAULT_SPEND_THRESHOLD: u64 = 1_000_000;

/// The actions a policy gates, one flag for each.
#[derive(Debug, Clone, Copy, PartialEq, Eq, Structural)]
struct Gates {
    push: bool,
    merge: bool,
    delete: bool,
    spend: bool,
    external_post: bool,
}

impl Gates {
    spec fn holds(self, action: ActionKind) -> bool {
        match action {
            ActionKind::Push => self.push,
            ActionKind::Merge => self.merge,
            ActionKind::Delete => self.delete,
            ActionKind::Spend => self.spend,
            ActionKind::ExternalPost => self.external_post,
        }
    }

    spec fn as_set(self) -> Set<ActionKind> {
        Set::new(|action: ActionKind| self.holds(action))
    }

    fn has(&self, action: ActionKind) -> (r: bool)
        ensures
            r == self.holds(action),
    {
        match action {
            ActionKind::Push => self.push,
            ActionKind::Merge => self.merge,
            ActionKind::Delete => self.delete,
            ActionKind::Spend => self.spend,
            ActionKind::ExternalPost => self.external_post,
        }
    }

    /// The flags for the actions listed.
    fn of(actions: &[ActionKind]) -> (r: Self)
        ensures
            r.as_set() == actions@.to_set(),
    {
        let mut gates = Gates {
            push: false,
            merge: false,
            delete: false,
            spend: false,
            external_post: false,
        };
        let mut i: usize = 0;
        while i < actions.len()
            invariant
                i <= actions.len(),
                forall|a: ActionKind| #[trigger] gates.holds(a) == actions@.take(i as int).contains(a),
            decreases actions.len() - i,
        {
            let ghost before = gates;
            match actions[i] {
                ActionKind::Push => {
                    gates.push = true;
                },
                ActionKind::Merge => {
                    gates.merge = true;
                },
                ActionKind::Delete => {
                    gates.delete = true;
                },
                ActionKind::Spend => {
                    gates.spend = true;
                },
                ActionKind::ExternalPost => {
                    gates.external_post = true;
                },
            }
            proof {
                let shorter = actions@.take(i as int);
                let longer = actions@.take(i + 1);
                assert(longer =~= shorter.push(actions@[i as int]));
                assert forall|a: ActionKind| #[trigger] gates.holds(a) == longer.contains(a) by {
                    assert(before.holds(a) == shorter.contains(a));
                    if longer.contains(a) {
                        let k = choose|k: int| 0 <= k < longer.len() && longer[k] == a;
                        if k < i {
                            assert(shorter[k] == a);
                        }
                    }
                    if shorter.contains(a) {
                        let k = choose|k: int| 0 <= k < shorter.len() && shorter[k] == a;
                        assert(longer[k] == a);
                    }
                    assert(longer[i as int] == actions@[i as int]);
                }
            }
            i = i + 1;
        }
        assert(actions@.take(actions@.len() as int) =~= actions@);
        assert forall|a: ActionKind| gates.as_set().contains(a) == actions@.to_set().contains(a) by {
            assert(gates.holds(a) == actions@.contains(a));
        }
        assert(gates.as_set() =~= actions@.to_set());
        gates
    }
}

/// A role's rules of engagement: which actions require the General's approval
/// before the role may take them.
#[derive(Debug, Clone, Copy, PartialEq, Eq, Structural)]
pub struct RulesOfEngagement {
    /// The actions gated behind approval.
    gated: Gates,
    /// A gated spend needs approval at or above this many tokens.
    spend_threshold: u64,
}

impl RulesOfEngagement {
    /// The actions gated behind approval.
    pub closed spec fn gated_set(self) -> Set<ActionKind> {
        self.gated.as_set()
    }

    /// The spend, in tokens, from which a gated spend needs approval.
    pub closed spec fn threshold(self) -> u64 {
        self.spend_threshold
    }

    /// Whether `action` at `amount` needs approval: the action is gated, and a
    /// spend states an amount that reaches the threshold.
    pub open spec fn needs_approval(self, action: ActionKind, amount: Option<u64>) -> bool {
        &&& self.gated_set().contains(action)
        &&& action == ActionKind::Spend ==> (amount matches Some(n) && n >= self.threshold())
    }

    /// Rules of engagement from the gated actions and the spend threshold.
    pub fn new(gated: &[ActionKind], spend_threshold: u64) -> (r: Self)
        ensures
            r.gated_set() == gated@.to_set(),
            r.threshold() == spend_threshold,
    {
        RulesOfEngagement { gated: Gates::of(gated), spend_threshold }
    }

    /// Whether `action` requires the General's approval before the role takes
    /// it. The amount matters to a spend only; one below the threshold, or with
    /// no amount given, proceeds.
    pub fn requires_approval(&self, action: ActionKind, amount: Option<u64>) -> (r: bool)
        ensures
            r == self.needs_approval(action, amount),
    {
        if action == ActionKind::Spend {
            match amount {
                Some(amount) => self.gated.has(ActionKind::Spend) && amount >= self.spend_threshold,
                None => false,
            }
        } else {
            self.gated.has(action)
        }
    }

    /// Whether the action is gated at all, ignoring any spend amount.
    pub fn gates(&self, action: ActionKind) -> (r: bool)
        ensures
            r == self.gated_set().contains(action),
    {
        self.gated.has(action)
    }

    /// The gated actions, in the order of [`ActionKind::ALL`].
    pub fn gated_actions(&self) -> (r: Vec<ActionKind>)
        ensures
            r@ == ActionKind::ALL@.filter(|action: ActionKind| self.gated_set().contains(action)),
    {
        let all = ActionKind::ALL;
        let ghost p = |action: ActionKind| self.gated_set().contains(action);
        let mut out: Vec<ActionKind> = Vec::new();
        let mut i: usize = 0;
        proof {
            reveal(Seq::filter);
            assert(all@.take(0).filter(p) =~= Seq::<ActionKind>::empty());
        }
        while i < 5
            invariant
                i <= 5,
                all@ == ActionKind::ALL@,
                p == (|action: ActionKind| self.gated_set().contains(action)),
                out@ == all@.take(i as int).filter(p),
            decreases 5 - i,
        {
            if self.gated.has(all[i]) {
                out.push(all[i]);
            }
            i = i + 1;
            proof {
                reveal(Seq::filter);
                assert(all@.take(i as int).drop_last() =~= all@.take(i - 1));
            }
        }
        assert(all@.take(5) =~= all@);
        out
    }

    /// Whether the role gates nothing: every action proceeds without sign-off.
    pub fn is_unrestricted(&self) -> (r: bool)
        ensures
            r == (self.gated_set() == Set::<ActionKind>::empty()),
    {
        let r = !(self.gated.push || self.gated.merge || self.gated.delete || self.gated.spend
            || self.gated.external_post);
        proof {
            if r {
                assert(self.gated_set() =~= Set::<ActionKind>::empty());
            } else {
                assert(self.gated_set().contains(ActionKind::Push) || self.gated_set().contains(
                    ActionKind::Merge,
                ) || self.gated_set().contains(ActionKind::Delete) || self.gated_set().contains(
                    ActionKind::Spend,
                ) || self.gated_set().contains(ActionKind::ExternalPost));
            }
        }
        r
    }

    /// The spend that needs approval when spend is gated (in tokens).
    pub fn spend_threshold(&self) -> (r: u64)
        ensures
            r == self.threshold(),
    {
        self.spend_threshold
    }

    /// The same rules with another gated set.
    pub fn with_gated(self, gated: &[ActionKind]) -> (r: Self)
        ensures
            r.gated_set() == gated@.to_set(),
            r.threshold() == self.threshold(),
    {
        RulesOfEngagement { gated: Gates::of(gated), spend_threshold: self.spend_threshold }
    }

    /// The same rules with another spend threshold.
    pub fn with_spend_threshold(self, threshold: u64) -> (r: Self)
        ensures
            r.gated_set() == self.gated_set(),
            r.threshold() == threshold,
    {
        RulesOfEngagement { gated: self.gated, spend_threshold: threshold }
    }
}

impl Default for RulesOfEngagement {
    /// The safe default: a specialist's rules, so a card or config that omits
    /// its rules errs toward asking.
    fn default() -> (r: Self)
        ensures
            r.gated_set() == default_gates(false),
            r.threshold() == DEFAULT_SPEND_THRESHOLD,
    {
        default_roe_for(false)
    }
}

/// The actions gated by default.
pub open spec fn default_gates(is_commander: bool) -> Set<ActionKind> {
    if is_commander {
        set![ActionKind::Delete, ActionKind::ExternalPost]
    } else {
        Set::full()
    }
}

/// The default rules of engagement for a role: the commander is gated on
/// deleting and on posting outside the crew, a specialist on every action.
pub fn default_roe_for(is_commander: bool) -> (r: RulesOfEngagement)
    ensures
        r.gated_set() == default_gates(is_commander),
        r.threshold() == DEFAULT_SPEND_THRESHOLD,
{
    let gated = Gates {
        push: !is_commander,
        merge: !is_commander,
        delete: true,
        spend: !is_commander,
        external_post: true,
    };
    let r = RulesOfEngagement { gated, spend_threshold: DEFAULT_SPEND_THRESHOLD };
    assert(r.gated_set() =~= default_gates(is_commander));
    r
}

/// The rules of engagement a role works under: its own, or else the default for
/// it.
pub fn rules_or_default(own: Option<RulesOfEngagement>, is_commander: bool) -> (r:
    RulesOfEngagement)
    ensures
        match own {
            Some(rules) => r == rules,
            None => r.gated_set() == default_gates(is_commander) && r.threshold()
                == DEFAULT_SPEND_THRESHOLD,
        },
{
    match own {
        Some(rules) => rules,
        None => default_roe_for(is_commander),
    }
}

/// A text in lower case, without white space at its ends, is its own reading.
proof fn lemma_plain(s: Seq<char>)
    requires
        s.len() > 0,
        !text::white_space(s[0]),
        !text::white_space(s.last()),
        forall|i: int| 0 <= i < s.len() ==> text::lower_char(#[trigger] s[i]) == s[i],
    ensures
        text::lower(text::trimmed(s)) == s,
{
    text::lemma_run_is(s, text::white(), 0);
    assert(s.skip(0) =~= s);
    text::lemma_run_back_is(s, text::white(), 0);
    assert(s.take(s.len() as int) =~= s);
    assert(text::lower(s) =~= s);
}

/// Every action's label parses back to the action.
pub proof fn labels_parse_back(action: ActionKind)
    ensures
        ActionKind::named(action.label_text()) == Some(action),
{
    reveal_strlit("push");
    reveal_strlit("merge");
    reveal_strlit("delete");
    reveal_strlit("spend");
    reveal_strlit("external_post");
    reveal_strlit("external-post");
    reveal_strlit("post");
    lemma_plain(action.label_text());
    let s = action.label_text();
    assert(s == "push"@ || s == "merge"@ || s == "delete"@ || s == "spend"@ || s
        == "external_post"@);
    assert("push"@[0] == 'p' && "merge"@[0] == 'm' && "delete"@[0] == 'd' && "spend"@[0] == 's'
        && "external_post"@[0] == 'e');
}

/// An unrestricted role needs no approval for anything; a role gated on
/// everything needs approval for every action but a small spend.
pub proof fn gating_is_membership(roe: RulesOfEngagement, action: ActionKind, amount: Option<u64>)
    ensures
        roe.gated_set() == Set::<ActionKind>::empty() ==> !roe.needs_approval(action, amount),
        roe.gated_set() == Set::<ActionKind>::full() && action != ActionKind::Spend
            ==> roe.needs_approval(action, amount),
{
}

/// Raising a spend never lifts the need for approval.
pub proof fn approval_is_monotone_in_the_spend(roe: RulesOfEngagement, less: u64, more: u64)
    requires
        less <= more,
        roe.needs_approval(ActionKind::Spend, Some(less)),
    ensures
        roe.needs_approval(ActionKind::Spend, Some(more)),
{
}

/// A gated action other than a spend always needs the General's approval, and a
/// gated spend exactly from the threshold on; an action that is not gated, or a
/// spend of no stated amount, needs none.
pub proof fn approval_is_needed_where_gated(
    roe: RulesOfEngagement,
    action: ActionKind,
    amount: Option<u64>,
    needed: bool,
    gated: bool,
)
    requires
        call_ensures(RulesOfEngagement::requires_approval, (&roe, action, amount), needed),
        call_ensures(RulesOfEngagement::gates, (&roe, action), gated),
    ensures
        gated <==> roe.gated_set().contains(action),
        !gated ==> !needed,
        action != ActionKind::Spend ==> needed == gated,
        action == ActionKind::Spend && amount is None ==> !needed,
        gated && action == ActionKind::Spend && amount is Some ==> (needed <==> amount->0
            >= roe.threshold()),
{
}

/// Rules made of a list of actions gate each of them and no other.
pub proof fn listed_actions_are_gated(
    listed: &[ActionKind],
    threshold: u64,
    action: ActionKind,
    roe: RulesOfEngagement,
    gated: bool,
)
    requires
        call_ensures(RulesOfEngagement::new, (listed, threshold), roe),
        call_ensures(RulesOfEngagement::gates, (&roe, action), gated),
    ensures
        gated <==> exists|i: int| 0 <= i < listed@.len() && #[trigger] listed@[i] == action,
        roe.threshold() == threshold,
{
}

/// The list of gated actions holds each gated action and no other.
pub proof fn the_gated_list_is_the_gated_set(
    roe: RulesOfEngagement,
    list: Vec<ActionKind>,
    unrestricted: bool,
    action: ActionKind,
)
    requires
        call_ensures(RulesOfEngagement::gated_actions, (&roe,), list),
        call_ensures(RulesOfEngagement::is_unrestricted, (&roe,), unrestricted),
    ensures
        list@.contains(action) <==> roe.gated_set().contains(action),
        unrestricted <==> list@.len() == 0,
{
    let p = |a: ActionKind| roe.gated_set().contains(a);
    let all = ActionKind::ALL@;
    assert(all[0] == ActionKind::Push && all[1] == ActionKind::Merge && all[2]
        == ActionKind::Delete && all[3] == ActionKind::Spend && all[4] == ActionKind::ExternalPost);
    assert forall|a: ActionKind| #[trigger] list@.contains(a) <==> roe.gated_set().contains(a) by {
        if roe.gated_set().contains(a) {
            let k: int = match a {
                ActionKind::Push => 0,
                ActionKind::Merge => 1,
                ActionKind::Delete => 2,
                ActionKind::Spend => 3,
                ActionKind::ExternalPost => 4,
            };
            assert(all[k] == a && p(all[k]));
            all.lemma_filter_contains(p, k);
        }
        if list@.contains(a) {
            let k = choose|k: int| 0 <= k < list@.len() && list@[k] == a;
            all.lemma_filter_pred(p, k);
        }
    }
    if list@.len() == 0 {
        assert forall|a: ActionKind| !roe.gated_set().contains(a) by {
            assert(!list@.contains(a));
        }
        assert(roe.gated_set() =~= Set::<ActionKind>::empty());
    } else {
        assert(list@.contains(list@[0]));
    }
}

/// By default a specialist asks before every risky action, and the commander only
/// before deleting and before posting outside the crew. A role's own rules come
/// before the default.
pub proof fn the_default_asks_of_a_specialist(
    own: RulesOfEngagement,
    commander: RulesOfEngagement,
    specialist: RulesOfEngagement,
    kept: RulesOfEngagement,
    leads: bool,
    action: ActionKind,
)
    requires
        call_ensures(rules_or_default, (None, true), commander),
        call_ensures(rules_or_default, (None, false), specialist),
        call_ensures(rules_or_default, (Some(own), leads), kept),
    ensures
        specialist.gated_set().contains(action),
        commander.gated_set().contains(action) <==> action == ActionKind::Delete || action
            == ActionKind::ExternalPost,
        specialist.threshold() == 1_000_000 && commander.threshold() == 1_000_000,
        kept == own,
{
}

/// An action's label is read whatever its case and outer white space, so what
/// reads as one label does not read as another's.
pub proof fn a_label_names_one_action(action: ActionKind, label: &str, r: Option<ActionKind>)
    requires
        call_ensures(ActionKind::parse, (label,), r),
        text::lower(text::trimmed(label@)) == action.label_text(),
    ensures
        r == Some(action),
{
    labels_parse_back(action);
    let s = action.label_text();
    assert(s == "push"@ || s == "merge"@ || s == "delete"@ || s == "spend"@ || s
        == "external_post"@);
    reveal_strlit("push");
    reveal_strlit("merge");
    reveal_strlit("delete");
    reveal_strlit("spend");
    reveal_strlit("external_post");
    reveal_strlit("external-post");
    reveal_strlit("post");
    assert("push"@[0] == 'p' && "merge"@[0] == 'm' && "delete"@[0] == 'd' && "spend"@[0] == 's'
        && "external_post"@[0] == 'e');
}

} // verus!
