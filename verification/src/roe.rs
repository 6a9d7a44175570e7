//! Rules of engagement: the risky actions a role must get signed off, with an
//! optional threshold below which spending is routine.
use vstd::prelude::*;

use crate::text;

verus! {

/// An action risky enough to gate behind human approval.
#[derive(Debug, Clone, Copy, PartialEq, Eq, PartialOrd, Ord, Hash, Structural)]
pub enum RiskyAction {
    /// Pushing commits to a remote.
    Push,
    /// Merging a branch or a pull request.
    Merge,
    /// Deleting a branch, a file tree, or data.
    Delete,
    /// Spending money or tokens.
    Spend,
    /// Posting outside the crew: a comment, an issue, a chat message, a
    /// webhook.
    ExternalPost,
}

impl RiskyAction {
    /// Every risky action, the full set a policy is drawn from.
    pub const ALL: [RiskyAction; 5] = [
        RiskyAction::Push,
        RiskyAction::Merge,
        RiskyAction::Delete,
        RiskyAction::Spend,
        RiskyAction::ExternalPost,
    ];

    /// The action's wire and display label.
    pub open spec fn label_text(self) -> Seq<char> {
        match self {
            RiskyAction::Push => "push"@,
            RiskyAction::Merge => "merge"@,
            RiskyAction::Delete => "delete"@,
            RiskyAction::Spend => "spend"@,
            RiskyAction::ExternalPost => "external_post"@,
        }
    }

    /// The action's wire and display label (`push`, `merge`, `external_post`,
    /// ...).
    pub fn label(self) -> (r: &'static str)
        ensures
            r@ == self.label_text(),
    {
        match self {
            RiskyAction::Push => "push",
            RiskyAction::Merge => "merge",
            RiskyAction::Delete => "delete",
            RiskyAction::Spend => "spend",
            RiskyAction::ExternalPost => "external_post",
        }
    }

    /// The label as an owned text.
    pub fn to_string(&self) -> (r: String)
        ensures
            r@ == self.label_text(),
    {
        (*self).label().to_owned()
    }

    /// The action with exactly this label.
    pub fn parse(label: &str) -> (r: Option<Self>)
        ensures
            r matches Some(action) ==> action.label_text() == label@,
            r is None ==> forall|action: RiskyAction|
                #![trigger action.label_text()]
                action.label_text() != label@,
    {
        let all = RiskyAction::ALL;
        let mut i: usize = 0;
        while i < 5
            invariant
                i <= 5,
                all@ == RiskyAction::ALL@,
                forall|j: int| 0 <= j < i ==> (#[trigger] all@[j]).label_text() != label@,
            decreases 5 - i,
        {
            if text::same(all[i].label(), label) {
                return Some(all[i]);
            }
            i = i + 1;
        }
        assert forall|action: RiskyAction| #[trigger] action.label_text() != label@ by {
            assert(all@[0] == RiskyAction::Push && all@[1] == RiskyAction::Merge && all@[2]
                == RiskyAction::Delete && all@[3] == RiskyAction::Spend && all@[4]
                == RiskyAction::ExternalPost);
        }
        None
    }
}

/// The actions a policy gates, one flag for each.
#[derive(Debug, Clone, Copy, PartialEq, Eq, Structural)]
struct Gates {
    push: bool,
    merge: bool,
    delete: bool,
    spend: bool,
    external_post: bool,
}

impl Gates {
    spec fn holds(self, action: RiskyAction) -> bool {
        match action {
            RiskyAction::Push => self.push,
            RiskyAction::Merge => self.merge,
            RiskyAction::Delete => self.delete,
            RiskyAction::Spend => self.spend,
            RiskyAction::ExternalPost => self.external_post,
        }
    }

    spec fn as_set(self) -> Set<RiskyAction> {
        Set::new(|action: RiskyAction| self.holds(action))
    }

    fn has(&self, action: RiskyAction) -> (r: bool)
        ensures
            r == self.holds(action),
    {
        match action {
            RiskyAction::Push => self.push,
            RiskyAction::Merge => self.merge,
            RiskyAction::Delete => self.delete,
            RiskyAction::Spend => self.spend,
            RiskyAction::ExternalPost => self.external_post,
        }
    }

    /// The flags for the actions listed.
    fn of(actions: &[RiskyAction]) -> (r: Self)
        ensures
            r.as_set() == actions@.to_set(),
    {
        let mut gates = Gates {
            push: false,
            merge: false,
            delete: false,
            spend: false,
            external_post: false,
        };
        let mut i: usize = 0;
        while i < actions.len()
            invariant
                i <= actions.len(),
                forall|a: RiskyAction| #[trigger] gates.holds(a) == actions@.take(i as int).contains(a),
            decreases actions.len() - i,
        {
            let ghost before = gates;
            match actions[i] {
                RiskyAction::Push => {
                    gates.push = true;
                },
                RiskyAction::Merge => {
                    gates.merge = true;
                },
                RiskyAction::Delete => {
                    gates.delete = true;
                },
                RiskyAction::Spend => {
                    gates.spend = true;
                },
                RiskyAction::ExternalPost => {
                    gates.external_post = true;
                },
            }
            proof {
                let shorter = actions@.take(i as int);
                let longer = actions@.take(i + 1);
                assert(longer =~= shorter.push(actions@[i as int]));
                assert forall|a: RiskyAction| #[trigger] gates.holds(a) == longer.contains(a) by {
                    assert(before.holds(a) == shorter.contains(a));
                    if longer.contains(a) {
                        let k = choose|k: int| 0 <= k < longer.len() && longer[k] == a;
                        if k < i {
                            assert(shorter[k] == a);
                        }
                    }
                    if shorter.contains(a) {
                        let k = choose|k: int| 0 <= k < shorter.len() && shorter[k] == a;
                        assert(longer[k] == a);
                    }
                    assert(longer[i as int] == actions@[i as int]);
                }
            }
            i = i + 1;
        }
        assert(actions@.take(actions@.len() as int) =~= actions@);
        assert forall|a: RiskyAction| gates.as_set().contains(a) == actions@.to_set().contains(a) by {
            assert(gates.holds(a) == actions@.contains(a));
        }
        assert(gates.as_set() =~= actions@.to_set());
        gates
    }
}

/// A role's rules of engagement: the risky actions it must get approved before
/// taking, and the spend up to which a gated spend needs no approval.
#[derive(Debug, Clone, Copy, PartialEq, Eq, Structural)]
pub struct RulesOfEngagement {
    /// The actions this role must get signed off before taking.
    gated: Gates,
    /// When set, a gated spend needs approval only above this magnitude.
    spend_threshold: Option<u64>,
}

impl RulesOfEngagement {
    /// The gated actions.
    pub closed spec fn gated_set(self) -> Set<RiskyAction> {
        self.gated.as_set()
    }

    /// The spend threshold.
    pub closed spec fn threshold(self) -> Option<u64> {
        self.spend_threshold
    }

    /// Whether `action` at `magnitude` needs approval: it is gated, and a
    /// threshold narrows the spend gate to spends above it, an unstated
    /// magnitude counting as nothing. What is not gated is done freely.
    pub open spec fn needs_approval(self, action: RiskyAction, magnitude: Option<u64>) -> bool {
        &&& self.gated_set().contains(action)
        &&& action == RiskyAction::Spend ==> (self.threshold() matches Some(threshold) ==> (
        magnitude matches Some(n) && n > threshold))
    }

    /// A policy gating exactly `gated`, with no spend threshold.
    pub fn new(gated: &[RiskyAction]) -> (r: Self)
        ensures
            r.gated_set() == gated@.to_set(),
            r.threshold() is None,
    {
        RulesOfEngagement { gated: Gates::of(gated), spend_threshold: None }
    }

    /// A policy gating every risky action: the safe fallback when none is
    /// stated.
    pub fn gate_all() -> (r: Self)
        ensures
            r.gated_set() == Set::<RiskyAction>::full(),
            r.threshold() is None,
    {
        RulesOfEngagement::default_for(false)
    }

    /// The same policy with a spend threshold.
    pub fn with_spend_threshold(self, threshold: u64) -> (r: Self)
        ensures
            r.gated_set() == self.gated_set(),
            r.threshold() == Some(threshold),
    {
        RulesOfEngagement { gated: self.gated, spend_threshold: Some(threshold) }
    }

    /// The default policy for a role: a specialist gates every risky action;
    /// the commander, the unit's integrator, may merge without sign-off.
    pub fn default_for(is_commander: bool) -> (r: Self)
        ensures
            r.gated_set() == (if is_commander {
                Set::full().remove(RiskyAction::Merge)
            } else {
                Set::full()
            }),
            r.threshold() is None,
    {
        let gated = Gates {
            push: true,
            merge: !is_commander,
            delete: true,
            spend: true,
            external_post: true,
        };
        let r = RulesOfEngagement { gated, spend_threshold: None };
        assert(is_commander ==> r.gated_set() =~= Set::full().remove(RiskyAction::Merge));
        assert(!is_commander ==> r.gated_set() =~= Set::full());
        r
    }

    /// Whether `action` at `magnitude` needs human approval before the role may
    /// take it.
    pub fn requires_approval(&self, action: RiskyAction, magnitude: Option<u64>) -> (r: bool)
        ensures
            r == self.needs_approval(action, magnitude),
    {
        if action == RiskyAction::Spend {
            if let Some(threshold) = self.spend_threshold {
                return self.gated.has(action) && magnitude.unwrap_or(0) > threshold;
            }
        }
        self.gated.has(action)
    }

    /// Whether `action` is gated at all, ignoring any spend magnitude.
    pub fn gates(&self, action: RiskyAction) -> (r: bool)
        ensures
            r == self.gated_set().contains(action),
    {
        self.gated.has(action)
    }

    /// The gated actions, in the order of [`RiskyAction::ALL`].
    pub fn gated_actions(&self) -> (r: Vec<RiskyAction>)
        ensures
            r@ == RiskyAction::ALL@.filter(|action: RiskyAction| self.gated_set().contains(action)),
    {
        let all = RiskyAction::ALL;
        let ghost p = |action: RiskyAction| self.gated_set().contains(action);
        let mut out: Vec<RiskyAction> = Vec::new();
        let mut i: usize = 0;
        proof {
            reveal(Seq::filter);
            assert(all@.take(0).filter(p) =~= Seq::<RiskyAction>::empty());
        }
        while i < 5
            invariant
                i <= 5,
                all@ == RiskyAction::ALL@,
                p == (|action: RiskyAction| self.gated_set().contains(action)),
                out@ == all@.take(i as int).filter(p),
            decreases 5 - i,
        {
            if self.gated.has(all[i]) {
                out.push(all[i]);
            }
            i = i + 1;
            proof {
                reveal(Seq::filter);
                assert(all@.take(i as int).drop_last() =~= all@.take(i - 1));
            }
        }
        assert(all@.take(5) =~= all@);
        out
    }

    /// The spend threshold, if one narrows the spend gate.
    pub fn spend_threshold(&self) -> (r: Option<u64>)
        ensures
            r == self.threshold(),
    {
        self.spend_threshold
    }
}

impl Default for RulesOfEngagement {
    /// The permissive policy: nothing gated, no threshold.
    fn default() -> (r: Self)
        ensures
            r.gated_set() == Set::<RiskyAction>::empty(),
            r.threshold() is None,
    {
        let gated = Gates {
            push: false,
            merge: false,
            delete: false,
            spend: false,
            external_post: false,
        };
        let r = RulesOfEngagement { gated, spend_threshold: None };
        assert(r.gated_set() =~= Set::<RiskyAction>::empty());
        r
    }
}

/// Labels tell actions apart, so parsing a label gives back its action.
pub proof fn labels_are_distinct(a: RiskyAction, b: RiskyAction)
    ensures
        a.label_text() == b.label_text() ==> a == b,
{
    reveal_strlit("push");
    reveal_strlit("merge");
    reveal_strlit("delete");
    reveal_strlit("spend");
    reveal_strlit("external_post");
    assert("push"@[0] == 'p' && "merge"@[0] == 'm' && "delete"@[0] == 'd' && "spend"@[0] == 's'
        && "external_post"@[0] == 'e');
}

/// With a threshold, a gated spend at or below the line proceeds and one above
/// it needs approval; without one, every gated spend needs it.
pub proof fn a_threshold_draws_the_line(policy: RulesOfEngagement, spend: u64)
    requires
        policy.gated_set().contains(RiskyAction::Spend),
    ensures
        policy.threshold() matches Some(line) ==> policy.needs_approval(
            RiskyAction::Spend,
            Some(spend),
        ) == (spend > line),
        policy.threshold() is None ==> policy.needs_approval(RiskyAction::Spend, Some(spend)),
{
}

/// What a policy does not gate, the role does freely: at any magnitude, and
/// whatever threshold is set.
pub proof fn an_ungated_action_is_free(
    policy: RulesOfEngagement,
    action: RiskyAction,
    magnitude: Option<u64>,
)
    requires
        !policy.gated_set().contains(action),
    ensures
        !policy.needs_approval(action, magnitude),
{
}

/// A gated action needs approval, but for a spend that a threshold lets pass; what is
/// not gated needs none.
pub proof fn approval_is_needed_where_gated(
    policy: RulesOfEngagement,
    action: RiskyAction,
    magnitude: Option<u64>,
    needed: bool,
    gated: bool,
    threshold: Option<u64>,
)
    requires
        call_ensures(RulesOfEngagement::requires_approval, (&policy, action, magnitude), needed),
        call_ensures(RulesOfEngagement::gates, (&policy, action), gated),
        call_ensures(RulesOfEngagement::spend_threshold, (&policy,), threshold),
    ensures
        gated <==> policy.gated_set().contains(action),
        !gated ==> !needed,
        action != RiskyAction::Spend ==> needed == gated,
        threshold is None ==> needed == gated,
        gated && action == RiskyAction::Spend && threshold is Some ==> (needed <==> (match magnitude {
            Some(n) => n as int,
            None => 0,
        }) > threshold->0),
{
}

/// A policy gates the actions it lists and no other; by default a specialist is gated
/// on everything, and the commander on everything but merging. A threshold changes
/// what is gated in nothing.
pub proof fn a_policy_gates_what_it_lists(
    listed: &[RiskyAction],
    policy: RulesOfEngagement,
    limited: RulesOfEngagement,
    line: u64,
    commander: RulesOfEngagement,
    specialist: RulesOfEngagement,
    action: RiskyAction,
)
    requires
        call_ensures(RulesOfEngagement::new, (listed,), policy),
        call_ensures(RulesOfEngagement::with_spend_threshold, (policy, line), limited),
        call_ensures(RulesOfEngagement::default_for, (true,), commander),
        call_ensures(RulesOfEngagement::default_for, (false,), specialist),
    ensures
        policy.gated_set().contains(action) <==> exists|i: int|
            0 <= i < listed@.len() && #[trigger] listed@[i] == action,
        limited.gated_set() == policy.gated_set(),
        limited.threshold() == Some(line),
        specialist.gated_set().contains(action),
        commander.gated_set().contains(action) <==> action != RiskyAction::Merge,
{
}

/// An action's label reads back as the action.
pub proof fn a_label_reads_back(action: RiskyAction, label: &'static str, s: &str, r: Option<RiskyAction>)
    requires
        call_ensures(RiskyAction::label, (action,), label),
        call_ensures(RiskyAction::parse, (s,), r),
        s@ == label@,
    ensures
        r == Some(action),
{
    if let Some(read) = r {
        labels_are_distinct(read, action);
    } else {
        assert(action.label_text() != s@);
    }
}

} // verus!
