//! The crew token budget: a crew-wide ceiling and per-role caps.
//!
//! A [`Budget`] tracks cumulative spend per role and crew-wide; each
//! [`Budget::record`] reports the running totals and the ceiling the spend
//! newly crossed, if any. A ceiling is reported once.
use vstd::prelude::*;

use crate::id::RoleId;
use crate::rolemap::RoleMap;

verus! {

/// Which ceiling a spend crossed: one role's cap, or the crew-wide budget.
#[derive(Debug, Clone, Copy, PartialEq, Eq, Structural)]
pub enum BudgetScope {
    /// A single role's own token cap.
    Role,
    /// The crew-wide token budget, across every role.
    Crew,
}

/// The result of recording a role's token spend: the running totals and any cap
/// it hit.
#[derive(Debug, PartialEq, Eq)]
pub struct Spend {
    /// The role whose turn this spend belongs to.
    pub role: RoleId,
    /// The role's cumulative spend after this record.
    pub role_spent: u64,
    /// The role's cap, if it has one.
    pub role_cap: Option<u64>,
    /// The crew's cumulative spend after this record.
    pub crew_spent: u64,
    /// The crew-wide budget, if the crew has one.
    pub crew_budget: Option<u64>,
    /// The ceiling this spend newly crossed, if any.
    pub breach: Option<BudgetScope>,
}

/// A crew's token budget: a crew-wide ceiling and optional per-role caps.
#[derive(Debug)]
pub struct Budget {
    crew_ceiling: Option<u64>,
    caps: RoleMap<u64>,
    spent: RoleMap<u64>,
    crew_spent: u64,
    flagged: RoleMap<()>,
    crew_flagged: bool,
}

/// A budget by what it holds.
#[verifier::ext_equal]
pub struct BudgetView {
    /// The crew-wide ceiling.
    pub ceiling: Option<u64>,
    /// Each role's cap.
    pub caps: Map<Seq<char>, u64>,
    /// Each role's cumulative spend.
    pub spent: Map<Seq<char>, u64>,
    /// The crew's cumulative spend.
    pub crew_spent: u64,
    /// The roles whose cap was already reported as reached.
    pub flagged: Set<Seq<char>>,
    /// Whether the crew-wide ceiling was already reported as reached.
    pub crew_flagged: bool,
}

/// `a + b`, held at the largest `u64`.
pub open spec fn capped_sum(a: u64, b: u64) -> u64 {
    if a + b > u64::MAX {
        u64::MAX
    } else {
        (a + b) as u64
    }
}

impl BudgetView {
    /// What `role` has spent so far.
    pub open spec fn spent_by(self, role: Seq<char>) -> u64 {
        if self.spent.dom().contains(role) {
            self.spent[role]
        } else {
            0
        }
    }

    /// The cap of `role`.
    pub open spec fn cap_of(self, role: Seq<char>) -> Option<u64> {
        if self.caps.dom().contains(role) {
            Some(self.caps[role])
        } else {
            None
        }
    }

    /// Whether the crew's total, once `tokens` are added, reaches its ceiling.
    pub open spec fn crew_over(self, tokens: u64) -> bool {
        self.ceiling matches Some(ceiling) && capped_sum(self.crew_spent, tokens) >= ceiling
    }

    /// Whether the total of `role`, once `tokens` are added, reaches its cap.
    pub open spec fn role_over(self, role: Seq<char>, tokens: u64) -> bool {
        self.cap_of(role) matches Some(cap) && capped_sum(self.spent_by(role), tokens) >= cap
    }

    /// The ceiling that a spend newly crosses; the crew's comes first.
    pub open spec fn breach(self, role: Seq<char>, tokens: u64) -> Option<BudgetScope> {
        if self.crew_over(tokens) && !self.crew_flagged {
            Some(BudgetScope::Crew)
        } else if self.role_over(role, tokens) && !self.flagged.contains(role) {
            Some(BudgetScope::Role)
        } else {
            None
        }
    }

    /// The budget once `role` has spent `tokens` more.
    pub open spec fn recorded(self, role: Seq<char>, tokens: u64) -> BudgetView {
        BudgetView {
            ceiling: self.ceiling,
            caps: self.caps,
            spent: self.spent.insert(role, capped_sum(self.spent_by(role), tokens)),
            crew_spent: capped_sum(self.crew_spent, tokens),
            flagged: if self.role_over(role, tokens) {
                self.flagged.insert(role)
            } else {
                self.flagged
            },
            crew_flagged: self.crew_flagged || self.crew_over(tokens),
        }
    }

    /// The budget after a series of spends.
    pub open spec fn after(self, spends: Seq<(Seq<char>, u64)>) -> BudgetView
        decreases spends.len(),
    {
        if spends.len() == 0 {
            self
        } else {
            self.after(spends.drop_last()).recorded(spends.last().0, spends.last().1)
        }
    }
}

impl View for Budget {
    type V = BudgetView;

    closed spec fn view(&self) -> BudgetView {
        BudgetView {
            ceiling: self.crew_ceiling,
            caps: self.caps@,
            spent: self.spent@,
            crew_spent: self.crew_spent,
            flagged: self.flagged@.dom(),
            crew_flagged: self.crew_flagged,
        }
    }
}

impl Budget {
    /// The order that the budget's records are kept in.
    pub closed spec fn wf(self) -> bool {
        self.caps.wf() && self.spent.wf() && self.flagged.wf()
    }

    /// A budget with a crew-wide ceiling and per-role `caps`, nothing spent.
    pub fn new(crew_budget: Option<u64>, caps: RoleMap<u64>) -> (r: Self)
        requires
            caps.wf(),
        ensures
            r.wf(),
            r@ == (BudgetView {
                ceiling: crew_budget,
                caps: caps@,
                spent: Map::empty(),
                crew_spent: 0,
                flagged: Set::empty(),
                crew_flagged: false,
            }),
    {
        let r = Budget {
            crew_ceiling: crew_budget,
            caps,
            spent: RoleMap::new(),
            crew_spent: 0,
            flagged: RoleMap::new(),
            crew_flagged: false,
        };
        assert(r@.flagged =~= Set::<Seq<char>>::empty());
        r
    }

    /// Records `tokens` of spend for `role`, returning the running totals and
    /// any breach.
    pub fn record(&mut self, role: &RoleId, tokens: u64) -> (r: Spend)
        requires
            old(self).wf(),
        ensures
            final(self).wf(),
            final(self)@ == old(self)@.recorded(role@, tokens),
            r.role@ == role@,
            r.role_spent == final(self)@.spent_by(role@),
            r.role_cap == old(self)@.cap_of(role@),
            r.crew_spent == final(self)@.crew_spent,
            r.crew_budget == old(self)@.ceiling,
            r.breach == old(self)@.breach(role@, tokens),
    {
        let ghost before = self@;
        let so_far: u64 = self.role_spent(role);
        let role_spent: u64 = so_far.saturating_add(tokens);
        self.spent.insert(role.clone(), role_spent);
        self.crew_spent = self.crew_spent.saturating_add(tokens);
        let role_cap: Option<u64> = match self.caps.get(role) {
            Some(cap) => Some(*cap),
            None => None,
        };
        let crew_over = match self.crew_ceiling {
            Some(ceiling) => self.crew_spent >= ceiling,
            None => false,
        };
        let role_over = match role_cap {
            Some(cap) => role_spent >= cap,
            None => false,
        };
        let breach = self.newly_breached(role, crew_over, role_over);
        assert(self@ =~= before.recorded(role@, tokens));
        Spend {
            role: role.clone(),
            role_spent,
            role_cap,
            crew_spent: self.crew_spent,
            crew_budget: self.crew_ceiling,
            breach,
        }
    }

    /// The scope a spend newly drove over its ceiling, flagging it so it fires
    /// once. A role over its cap is flagged either way.
    fn newly_breached(&mut self, role: &RoleId, crew_over: bool, role_over: bool) -> (r: Option<
        BudgetScope,
    >)
        requires
            old(self).wf(),
        ensures
            final(self).wf(),
            final(self)@ == (BudgetView {
                flagged: if role_over {
                    old(self)@.flagged.insert(role@)
                } else {
                    old(self)@.flagged
                },
                crew_flagged: old(self)@.crew_flagged || crew_over,
                ..old(self)@
            }),
            r == (if crew_over && !old(self)@.crew_flagged {
                Some(BudgetScope::Crew)
            } else if role_over && !old(self)@.flagged.contains(role@) {
                Some(BudgetScope::Role)
            } else {
                None
            }),
    {
        let ghost before = self@;
        let role_newly = role_over && self.flagged.get(role).is_none();
        if role_over {
            self.flagged.insert(role.clone(), ());
            assert(self@.flagged =~= before.flagged.insert(role@));
        }
        if crew_over && !self.crew_flagged {
            self.crew_flagged = true;
            return Some(BudgetScope::Crew);
        }
        if role_newly {
            Some(BudgetScope::Role)
        } else {
            None
        }
    }

    /// Whether the crew has any ceiling at all: a crew-wide budget or a
    /// per-role cap.
    pub fn is_bounded(&self) -> (r: bool)
        requires
            self.wf(),
        ensures
            r == (self@.ceiling is Some || self@.caps != Map::<Seq<char>, u64>::empty()),
    {
        proof {
            let keys = self.caps.keys();
            if keys.len() == 0 {
                assert(self@.caps =~= Map::<Seq<char>, u64>::empty());
            } else {
                assert(keys.contains(keys[0]));
                assert(self@.caps.dom().contains(keys[0]));
            }
        }
        self.crew_ceiling.is_some() || self.caps.len() > 0
    }

    /// The crew's cumulative spend across every role.
    pub fn crew_spent(&self) -> (r: u64)
        ensures
            r == self@.crew_spent,
    {
        self.crew_spent
    }

    /// The crew-wide budget, if the crew has one.
    pub fn crew_budget(&self) -> (r: Option<u64>)
        ensures
            r == self@.ceiling,
    {
        self.crew_ceiling
    }

    /// The crew's remaining headroom, or nothing where the crew has no budget.
    pub fn crew_remaining(&self) -> (r: Option<u64>)
        ensures
            match self@.ceiling {
                Some(ceiling) => r matches Some(left) && left == if ceiling >= self@.crew_spent {
                    ceiling - self@.crew_spent
                } else {
                    0
                },
                None => r is None,
            },
    {
        match self.crew_ceiling {
            Some(ceiling) => Some(ceiling.saturating_sub(self.crew_spent)),
            None => None,
        }
    }

    /// A role's cumulative spend.
    pub fn role_spent(&self, role: &RoleId) -> (r: u64)
        requires
            self.wf(),
        ensures
            r == self@.spent_by(role@),
    {
        match self.spent.get(role) {
            Some(spent) => *spent,
            None => 0,
        }
    }

    /// A role's remaining headroom under its own cap, or nothing where it is
    /// uncapped.
    pub fn role_remaining(&self, role: &RoleId) -> (r: Option<u64>)
        requires
            self.wf(),
        ensures
            match self@.cap_of(role@) {
                Some(cap) => r matches Some(left) && left == if cap >= self@.spent_by(role@) {
                    cap - self@.spent_by(role@)
                } else {
                    0
                },
                None => r is None,
            },
    {
        match self.caps.get(role) {
            Some(cap) => Some((*cap).saturating_sub(self.role_spent(role))),
            None => None,
        }
    }
}

impl Default for Budget {
    /// The unbounded budget.
    fn default() -> (r: Self)
        ensures
            r.wf(),
            r@.ceiling is None,
            r@.caps == Map::<Seq<char>, u64>::empty(),
            r@.spent == Map::<Seq<char>, u64>::empty(),
            r@.crew_spent == 0,
            r@.flagged == Set::<Seq<char>>::empty(),
            !r@.crew_flagged,
    {
        Budget::new(None, RoleMap::new())
    }
}

/// An unbounded crew never breaches.
pub proof fn an_unbounded_crew_never_breaches(b: BudgetView, role: Seq<char>, tokens: u64)
    requires
        b.ceiling is None,
        b.caps == Map::<Seq<char>, u64>::empty(),
    ensures
        b.breach(role, tokens) is None,
        b.recorded(role, tokens).ceiling is None,
        b.recorded(role, tokens).caps == Map::<Seq<char>, u64>::empty(),
{
}

/// Spends keep the ceilings and never take a flag back.
pub proof fn flags_are_kept(b: BudgetView, spends: Seq<(Seq<char>, u64)>)
    ensures
        b.after(spends).ceiling == b.ceiling,
        b.after(spends).caps == b.caps,
        b.crew_flagged ==> b.after(spends).crew_flagged,
        b.flagged.subset_of(b.after(spends).flagged),
    decreases spends.len(),
{
    if spends.len() > 0 {
        flags_are_kept(b, spends.drop_last());
    }
}

/// A cap acts once: after the spend that a role's cap reported, no later spend
/// of that role reports it again, whatever was spent between.
pub proof fn a_role_cap_acts_once(
    b: BudgetView,
    role: Seq<char>,
    tokens: u64,
    between: Seq<(Seq<char>, u64)>,
    later: u64,
)
    requires
        b.breach(role, tokens) == Some(BudgetScope::Role),
    ensures
        b.recorded(role, tokens).after(between).breach(role, later) != Some(BudgetScope::Role),
{
    flags_are_kept(b.recorded(role, tokens), between);
}

/// The crew budget acts once, whatever is spent and by whom after it.
pub proof fn the_crew_budget_acts_once(
    b: BudgetView,
    role: Seq<char>,
    tokens: u64,
    between: Seq<(Seq<char>, u64)>,
    other: Seq<char>,
    later: u64,
)
    requires
        b.breach(role, tokens) == Some(BudgetScope::Crew),
    ensures
        b.recorded(role, tokens).after(between).breach(other, later) != Some(BudgetScope::Crew),
{
    flags_are_kept(b.recorded(role, tokens), between);
}

/// The crew budget takes precedence over a role cap crossed by the same spend,
/// which then fires no more.
pub proof fn the_crew_budget_takes_precedence(
    b: BudgetView,
    role: Seq<char>,
    tokens: u64,
    between: Seq<(Seq<char>, u64)>,
    later: u64,
)
    requires
        b.crew_over(tokens),
        !b.crew_flagged,
        b.role_over(role, tokens),
    ensures
        b.breach(role, tokens) == Some(BudgetScope::Crew),
        b.recorded(role, tokens).after(between).breach(role, later) is None,
{
    flags_are_kept(b.recorded(role, tokens), between);
}

/// A spend leaves the other roles' totals and flags alone.
pub proof fn other_roles_are_left_alone(
    b: BudgetView,
    role: Seq<char>,
    tokens: u64,
    other: Seq<char>,
)
    requires
        other != role,
    ensures
        b.recorded(role, tokens).spent_by(other) == b.spent_by(other),
        b.recorded(role, tokens).flagged.contains(other) == b.flagged.contains(other),
        b.recorded(role, tokens).cap_of(other) == b.cap_of(other),
{
}

/// Totals never fall.
pub proof fn totals_never_fall(b: BudgetView, role: Seq<char>, tokens: u64, other: Seq<char>)
    ensures
        b.recorded(role, tokens).crew_spent >= b.crew_spent,
        b.recorded(role, tokens).spent_by(other) >= b.spent_by(other),
{
}

/// A total that reaches its cap is reported: where a role's spend comes to its
/// cap or passes it, by however much, the spend reports a breach, unless the cap
/// was reported before; and the role counts as reported from then on.
pub proof fn reaching_a_cap_is_reported(b: BudgetView, role: Seq<char>, tokens: u64)
    requires
        b.caps.dom().contains(role),
        (if b.spent.dom().contains(role) {
            b.spent[role] as int
        } else {
            0
        }) + tokens >= b.caps[role],
    ensures
        b.recorded(role, tokens).flagged.contains(role),
        !b.flagged.contains(role) ==> b.breach(role, tokens) is Some,
        !b.flagged.contains(role) && b.crew_flagged ==> b.breach(role, tokens) == Some(
            BudgetScope::Role,
        ),
        !b.flagged.contains(role) && b.ceiling is None ==> b.breach(role, tokens) == Some(
            BudgetScope::Role,
        ),
{
}

/// A total below its cap is not: where a role has no cap, or its spend stays
/// under it, the spend does not report the role, and leaves the reported roles
/// as they were.
pub proof fn a_spend_under_the_cap_passes(b: BudgetView, role: Seq<char>, tokens: u64)
    requires
        b.caps.dom().contains(role) ==> (if b.spent.dom().contains(role) {
            b.spent[role] as int
        } else {
            0
        }) + tokens < b.caps[role],
    ensures
        b.breach(role, tokens) != Some(BudgetScope::Role),
        b.recorded(role, tokens).flagged == b.flagged,
{
}

/// A crew total that reaches the crew budget is reported, whoever spent, unless
/// it was reported before; one that stays under it is not.
pub proof fn reaching_the_crew_budget_is_reported(b: BudgetView, role: Seq<char>, tokens: u64)
    ensures
        b.ceiling matches Some(ceiling) && b.crew_spent + tokens >= ceiling ==> {
            &&& b.recorded(role, tokens).crew_flagged
            &&& !b.crew_flagged ==> b.breach(role, tokens) == Some(BudgetScope::Crew)
        },
        (b.ceiling matches Some(ceiling) ==> b.crew_spent + tokens < ceiling) ==> {
            &&& b.breach(role, tokens) != Some(BudgetScope::Crew)
            &&& b.recorded(role, tokens).crew_flagged == b.crew_flagged
        },
{
}

/// A larger spend reaches whatever a smaller one does.
pub proof fn reaching_is_monotone(b: BudgetView, role: Seq<char>, less: u64, more: u64)
    requires
        less <= more,
    ensures
        b.recorded(role, less).flagged.subset_of(b.recorded(role, more).flagged),
        b.recorded(role, less).crew_flagged ==> b.recorded(role, more).crew_flagged,
        b.breach(role, less) is Some ==> b.breach(role, more) is Some,
        b.breach(role, less) == Some(BudgetScope::Crew) ==> b.breach(role, more) == Some(
            BudgetScope::Crew,
        ),
{
}

/// A spend adds its tokens to the role's total and to the crew's, which stay at
/// the largest number where they would pass it, and keeps the ceilings.
pub proof fn a_spend_adds_up(b: BudgetView, role: Seq<char>, tokens: u64)
    ensures
        ({
            let before: int = if b.spent.dom().contains(role) {
                b.spent[role] as int
            } else {
                0
            };
            let after = b.recorded(role, tokens);
            &&& after.spent.dom() == b.spent.dom().insert(role)
            &&& before + tokens <= u64::MAX ==> after.spent[role] == before + tokens
            &&& before + tokens > u64::MAX ==> after.spent[role] == u64::MAX
            &&& b.crew_spent + tokens <= u64::MAX ==> after.crew_spent == b.crew_spent + tokens
            &&& b.crew_spent + tokens > u64::MAX ==> after.crew_spent == u64::MAX
            &&& after.ceiling == b.ceiling
            &&& after.caps == b.caps
            &&& after.spent_by(role) == after.spent[role]
        }),
        b.cap_of(role) is Some <==> b.caps.dom().contains(role),
        b.cap_of(role) matches Some(cap) ==> cap == b.caps[role],
        b.spent.dom().contains(role) ==> b.spent_by(role) == b.spent[role],
        !b.spent.dom().contains(role) ==> b.spent_by(role) == 0,
{
}

/// Headroom and spend make up the cap: what is left under a cap is the cap less
/// the spend, and nothing once the spend has passed it.
pub proof fn headroom_and_spend_make_up_the_cap(
    b: Budget,
    role: RoleId,
    crew_left: Option<u64>,
    role_left: Option<u64>,
)
    requires
        b.wf(),
        call_ensures(Budget::crew_remaining, (&b,), crew_left),
        call_ensures(Budget::role_remaining, (&b, &role), role_left),
    ensures
        crew_left is Some <==> b@.ceiling is Some,
        crew_left matches Some(left) ==> {
            &&& b@.crew_spent <= b@.ceiling->0 ==> left + b@.crew_spent == b@.ceiling->0
            &&& b@.crew_spent > b@.ceiling->0 ==> left == 0
        },
        role_left is Some <==> b@.caps.dom().contains(role@),
        role_left matches Some(left) ==> {
            &&& b@.spent_by(role@) <= b@.caps[role@] ==> left + b@.spent_by(role@)
                == b@.caps[role@]
            &&& b@.spent_by(role@) > b@.caps[role@] ==> left == 0
        },
{
}

/// A crew is bounded exactly where it has a budget or some role a cap.
pub proof fn a_bounded_crew_has_a_ceiling(b: Budget, r: bool)
    requires
        b.wf(),
        call_ensures(Budget::is_bounded, (&b,), r),
    ensures
        b@.ceiling is Some ==> r,
        (exists|role: Seq<char>| #[trigger] b@.caps.dom().contains(role)) ==> r,
        r ==> b@.ceiling is Some || exists|role: Seq<char>| #[trigger] b@.caps.dom().contains(role),
{
    if r && b@.ceiling is None {
        if forall|role: Seq<char>| !#[trigger] b@.caps.dom().contains(role) {
            assert(b@.caps =~= Map::<Seq<char>, u64>::empty());
        }
    }
}

/// A spend that brings a role to its cap, or past it, is answered as a breach the first
/// time; and one that leaves both the role and the crew under their limits never is.
pub proof fn recording_a_spend_reports_the_cap(b: &mut Budget, role: RoleId, tokens: u64, r: Spend)
    requires
        call_ensures(Budget::record, (b, &role, tokens), r),
        old(b)@.caps.dom().contains(role@),
    ensures
        ({
            let before: int = if old(b)@.spent.dom().contains(role@) {
                old(b)@.spent[role@] as int
            } else {
                0
            };
            let cap = old(b)@.caps[role@];
            &&& before + tokens >= cap ==> final(b)@.flagged.contains(role@)
            &&& before + tokens >= cap && !old(b)@.flagged.contains(role@) ==> r.breach is Some
            &&& before + tokens < cap && old(b)@.ceiling is None ==> r.breach is None
            &&& before + tokens <= u64::MAX ==> final(b)@.spent[role@] == before + tokens
                && r.role_spent == before + tokens
            &&& r.role@ == role@ && r.role_cap == Some(cap)
        }),
{
    let view = old(b)@;
    let before: int = if view.spent.dom().contains(role@) {
        view.spent[role@] as int
    } else {
        0
    };
    a_spend_adds_up(view, role@, tokens);
    if before + tokens >= view.caps[role@] {
        reaching_a_cap_is_reported(view, role@, tokens);
    } else {
        a_spend_under_the_cap_passes(view, role@, tokens);
    }
}

} // verus!
