//! The channel model: how a message names its audience, and who it reaches.
//!
//! Three kinds: `all-units` reaches every role, a direct `@role` channel
//! reaches one role, and a pair `a+b` reaches its two members only. A pair is
//! order-independent: its members are held and named in one canonical order.
use vstd::prelude::*;

use crate::id::{ChannelId, RoleId};
use crate::order;
use crate::text;

verus! {

/// The name of the channel that reaches every role.
pub const ALL_UNITS: &'static str = "all-units";

/// A parsed channel: the audience a message names.
#[derive(Debug, PartialEq, Eq, Hash)]
pub enum Channel {
    /// Reaches every role. Named `all-units`.
    AllUnits,
    /// A direct, point-to-point channel to one role. Named `@role`.
    Direct(RoleId),
    /// A pair channel between two distinct roles, in canonical order. Named
    /// `a+b`.
    Pair(RoleId, RoleId),
}

/// A channel by the names it holds.
pub enum ChannelView {
    AllUnits,
    Direct(Seq<char>),
    Pair(Seq<char>, Seq<char>),
}

impl View for Channel {
    type V = ChannelView;

    open spec fn view(&self) -> ChannelView {
        match self {
            Channel::AllUnits => ChannelView::AllUnits,
            Channel::Direct(role) => ChannelView::Direct(role@),
            Channel::Pair(first, second) => ChannelView::Pair(first@, second@),
        }
    }
}

/// Whether `name` is a plain role name: not blank, and free of the reserved
/// channel markers `@` and `+`.
pub open spec fn plain_role(name: Seq<char>) -> bool {
    !text::blank(name) && !name.contains('@') && !name.contains('+')
}

impl ChannelView {
    /// The channel's name on the wire.
    pub open spec fn name(self) -> Seq<char> {
        match self {
            ChannelView::AllUnits => ALL_UNITS@,
            ChannelView::Direct(role) => seq!['@'] + role,
            ChannelView::Pair(first, second) => first + seq!['+'] + second,
        }
    }

    /// Whether the channel reaches `role`.
    pub open spec fn reaches(self, role: Seq<char>) -> bool {
        match self {
            ChannelView::AllUnits => true,
            ChannelView::Direct(addressee) => addressee == role,
            ChannelView::Pair(first, second) => first == role || second == role,
        }
    }

    /// Whether the channel names plain roles, a pair's members in order.
    pub open spec fn well_formed(self) -> bool {
        match self {
            ChannelView::AllUnits => true,
            ChannelView::Direct(role) => plain_role(role),
            ChannelView::Pair(first, second) => plain_role(first) && plain_role(second) && order::before(
                first,
                second,
            ),
        }
    }

    /// The pair channel between two distinct plain roles.
    pub open spec fn pair_of(first: Seq<char>, second: Seq<char>) -> Option<ChannelView> {
        if first == second || !plain_role(first) || !plain_role(second) {
            None
        } else if order::before(first, second) {
            Some(ChannelView::Pair(first, second))
        } else {
            Some(ChannelView::Pair(second, first))
        }
    }

    /// The direct channel to a plain role.
    pub open spec fn direct_to(role: Seq<char>) -> Option<ChannelView> {
        if plain_role(role) {
            Some(ChannelView::Direct(role))
        } else {
            None
        }
    }

    /// The channel that a name means.
    pub open spec fn named(name: Seq<char>) -> Option<ChannelView> {
        if name == ALL_UNITS@ {
            Some(ChannelView::AllUnits)
        } else {
            match text::after_prefix(name, seq!['@']) {
                Some(role) => ChannelView::direct_to(role),
                None => match text::split_at_first(name, '+') {
                    Some((first, second)) => ChannelView::pair_of(first, second),
                    None => None,
                },
            }
        }
    }

    /// What is left of an optional name once blank names count as absent.
    pub open spec fn given(name: Option<Seq<char>>) -> Option<Seq<char>> {
        match name {
            Some(name) => if text::blank(name) {
                None
            } else {
                Some(text::trimmed(name))
            },
            None => None,
        }
    }

    /// The channel a message addresses: a named role first, then a named
    /// channel, then the commander.
    pub open spec fn addressed(
        to: Option<Seq<char>>,
        channel: Option<Seq<char>>,
        commander: Seq<char>,
    ) -> Option<ChannelView> {
        match ChannelView::given(to) {
            Some(role) => ChannelView::direct_to(role),
            None => match ChannelView::given(channel) {
                Some(name) => ChannelView::named(name),
                None => Some(ChannelView::Direct(commander)),
            },
        }
    }
}

/// The view of an optional channel.
pub open spec fn opt_channel(o: Option<Channel>) -> Option<ChannelView> {
    match o {
        Some(channel) => Some(channel@),
        None => None,
    }
}

/// Whether `name` is a plain role name.
pub fn is_plain_role(name: &str) -> (r: bool)
    ensures
        r == plain_role(name@),
{
    !text::is_blank(name) && !text::contains_char(name, '@') && !text::contains_char(name, '+')
}

/// `name` trimmed, or nothing where it is absent or blank.
pub(crate) fn given_name<'a>(name: Option<&'a str>) -> (r: Option<&'a str>)
    ensures
        text::opt_text(r) == ChannelView::given(text::opt_text(name)),
{
    match name {
        Some(name) => {
            let name = text::trim(name);
            if name.is_empty() {
                None
            } else {
                Some(name)
            }
        },
        None => None,
    }
}

impl Channel {
    /// The channel that `name` means, or nothing where the name is
    /// unrecognized.
    pub fn parse(name: &str) -> (r: Option<Self>)
        ensures
            opt_channel(r) == ChannelView::named(name@),
    {
        if text::same(name, ALL_UNITS) {
            return Some(Channel::AllUnits);
        }
        proof {
            reveal_strlit("@");
            assert("@"@ =~= seq!['@']);
        }
        if let Some(role) = text::strip_prefix(name, "@") {
            if is_plain_role(role) {
                return Some(Channel::Direct(RoleId::new(role)));
            }
            return None;
        }
        match text::split_once(name, '+') {
            Some((first, second)) => Channel::pair(RoleId::new(first), RoleId::new(second)),
            None => None,
        }
    }

    /// The pair channel between two distinct roles, or nothing where they are
    /// equal or either is not a plain role name.
    pub fn pair(first: RoleId, second: RoleId) -> (r: Option<Self>)
        ensures
            opt_channel(r) == ChannelView::pair_of(first@, second@),
    {
        if first.same(&second) || !is_plain_role(first.as_str()) || !is_plain_role(
            second.as_str(),
        ) {
            return None;
        }
        if order::is_before(first.as_str(), second.as_str()) {
            Some(Channel::Pair(first, second))
        } else {
            Some(Channel::Pair(second, first))
        }
    }

    /// The canonical name of this channel.
    pub fn name(&self) -> (r: ChannelId)
        ensures
            r@ == self@.name(),
    {
        ChannelId::new(self.to_string().as_str())
    }

    /// The canonical name of this channel as text.
    pub fn to_string(&self) -> (r: String)
        ensures
            r@ == self@.name(),
    {
        match self {
            Channel::AllUnits => ALL_UNITS.to_owned(),
            Channel::Direct(role) => {
                let mut out = String::new();
                out.push('@');
                out.append(role.as_str());
                assert(out@ =~= self@.name());
                out
            },
            Channel::Pair(first, second) => {
                let mut out = first.as_str().to_owned();
                out.push('+');
                out.append(second.as_str());
                assert(out@ =~= self@.name());
                out
            },
        }
    }

    /// Whether this channel reaches `role`.
    pub fn addresses(&self, role: &RoleId) -> (r: bool)
        ensures
            r == self@.reaches(role@),
    {
        match self {
            Channel::AllUnits => true,
            Channel::Direct(addressee) => addressee.same(role),
            Channel::Pair(first, second) => first.same(role) || second.same(role),
        }
    }

    /// The channel a message addresses under the hub-and-spoke default: a
    /// non-blank `to` names a role and wins, a non-blank `channel` is parsed,
    /// and with neither the message goes to the commander.
    pub fn resolve(to: Option<&str>, channel: Option<&str>, commander: &RoleId) -> (r: Option<Self>)
        ensures
            opt_channel(r) == ChannelView::addressed(text::opt_text(to), text::opt_text(channel), commander@),
    {
        match given_name(to) {
            Some(role) => {
                if is_plain_role(role) {
                    Some(Channel::Direct(RoleId::new(role)))
                } else {
                    None
                }
            },
            None => match given_name(channel) {
                Some(name) => Channel::parse(name),
                None => Some(Channel::Direct(commander.clone())),
            },
        }
    }
}

impl Clone for Channel {
    fn clone(&self) -> (r: Self)
        ensures
            r == *self,
    {
        match self {
            Channel::AllUnits => Channel::AllUnits,
            Channel::Direct(role) => Channel::Direct(role.clone()),
            Channel::Pair(first, second) => Channel::Pair(first.clone(), second.clone()),
        }
    }
}

/// A pair does not depend on the order its members are given in.
pub proof fn pair_is_order_independent(first: Seq<char>, second: Seq<char>)
    ensures
        ChannelView::pair_of(first, second) == ChannelView::pair_of(second, first),
{
    order::lemma_before_total(first, second);
}

/// What a name parses to is well formed.
pub proof fn parsed_channels_are_well_formed(name: Seq<char>)
    ensures
        ChannelView::named(name) matches Some(channel) ==> channel.well_formed(),
{
    if let Some((first, second)) = text::split_at_first(name, '+') {
        order::lemma_before_total(first, second);
    }
}

/// A well-formed channel's name parses back to the channel.
pub proof fn name_parses_back(channel: ChannelView)
    requires
        channel.well_formed(),
    ensures
        ChannelView::named(channel.name()) == Some(channel),
{
    reveal_strlit("all-units");
    let name = channel.name();
    match channel {
        ChannelView::AllUnits => {},
        ChannelView::Direct(role) => {
            assert(name[0] == '@');
            assert(seq!['@'].is_prefix_of(name)) by {
                assert(name.subrange(0, 1) =~= seq!['@']);
            }
            assert(name.skip(1) =~= role);
        },
        ChannelView::Pair(first, second) => {
            order::lemma_before_total(first, second);
            assert(first.len() > 0) by {
                if first.len() == 0 {
                    assert(text::trimmed(first) =~= Seq::<char>::empty());
                }
            }
            assert(name[first.len() as int] == '+');
            assert(!ALL_UNITS@.contains('+'));
            assert(name.contains('+'));
            assert(first.contains(first[0]));
            assert(name[0] == first[0]);
            assert(!seq!['@'].is_prefix_of(name)) by {
                if seq!['@'].is_prefix_of(name) {
                    assert(seq!['@'][0] == name.subrange(0, 1)[0]);
                }
            }
            assert forall|j: int| 0 <= j < first.len() implies text::other_than('+')(
                #[trigger] name[j],
            ) by {
                assert(name[j] == first[j]);
                assert(first.contains(first[j]));
            }
            text::lemma_run_is(name, text::other_than('+'), first.len() as int);
            assert(name.take(first.len() as int) =~= first);
            assert(name.skip(first.len() as int + 1) =~= second);
        },
    }
}

/// Two well-formed channels with the same name are the same channel.
pub proof fn names_are_unique(a: ChannelView, b: ChannelView)
    requires
        a.well_formed(),
        b.well_formed(),
        a.name() == b.name(),
    ensures
        a == b,
{
    name_parses_back(a);
    name_parses_back(b);
}

/// A message that names neither a role nor a channel goes to the commander; a
/// named role wins over a named channel.
pub proof fn the_commander_is_the_default(channel: Option<Seq<char>>, role: Seq<char>, commander: Seq<char>)
    requires
        plain_role(role),
    ensures
        ChannelView::addressed(None, None, commander) == Some(ChannelView::Direct(commander)),
        ChannelView::addressed(Some(role), channel, commander) == ChannelView::direct_to(
            text::trimmed(role),
        ),
{
}

/// A channel reaches whom it names: everyone, the one role, or the two members.
pub proof fn a_channel_reaches_whom_it_names(channel: Channel, role: RoleId, reached: bool)
    requires
        call_ensures(Channel::addresses, (&channel, &role), reached),
    ensures
        channel is AllUnits ==> reached,
        channel matches Channel::Direct(to) ==> (reached <==> role@ == to@),
        channel matches Channel::Pair(a, b) ==> (reached <==> role@ == a@ || role@ == b@),
{
}

/// Whether a text holds something other than white space, and neither of the
/// channel markers.
pub open spec fn names_a_role(name: Seq<char>) -> bool {
    &&& exists|i: int| 0 <= i < name.len() && !text::white_space(#[trigger] name[i])
    &&& forall|i: int| 0 <= i < name.len() ==> #[trigger] name[i] != '@' && name[i] != '+'
}

/// A plain role name is one that names a role.
pub proof fn lemma_names_a_role(name: Seq<char>)
    ensures
        names_a_role(name) <==> plain_role(name),
{
    text::blank_means_white_space_only(name);
    if plain_role(name) {
        assert forall|i: int| 0 <= i < name.len() implies #[trigger] name[i] != '@' && name[i]
            != '+' by {
            assert(name.contains(name[i]));
        }
    }
}

/// What a name means, by what it spells.
pub proof fn lemma_named(s: Seq<char>, a: Seq<char>, b: Seq<char>)
    ensures
        ChannelView::named(s) matches Some(ChannelView::AllUnits) <==> s == "all-units"@,
        ChannelView::named(s) matches Some(ChannelView::Direct(role)) ==> s == seq!['@'] + role
            && names_a_role(role),
        ChannelView::named(s) matches Some(ChannelView::Pair(x, y)) ==> names_a_role(x)
            && names_a_role(y) && x != y && (s == x + seq!['+'] + y || s == y + seq!['+'] + x),
        s == seq!['@'] + a && names_a_role(a) ==> ChannelView::named(s) == Some(
            ChannelView::Direct(a),
        ),
        s == a + seq!['+'] + b && names_a_role(a) && names_a_role(b) && a != b ==> (
        ChannelView::named(s) == Some(ChannelView::Pair(a, b)) || ChannelView::named(s) == Some(
            ChannelView::Pair(b, a),
        )),
{
    reveal_strlit("all-units");
    text::lemma_run(s, text::other_than('+'));
    lemma_names_a_role(a);
    lemma_names_a_role(b);
    assert(!"all-units"@.contains('+')) by {
        assert(forall|i: int| 0 <= i < "all-units"@.len() ==> "all-units"@[i] != '+');
    }
    if let Some(channel) = ChannelView::named(s) {
        match channel {
            ChannelView::AllUnits => {},
            ChannelView::Direct(role) => {
                lemma_names_a_role(role);
                if seq!['@'].is_prefix_of(s) {
                    assert(s =~= seq!['@'] + s.skip(1));
                }
            },
            ChannelView::Pair(x, y) => {
                lemma_names_a_role(x);
                lemma_names_a_role(y);
                if let Some((first, second)) = text::split_at_first(s, '+') {
                    let i = text::run(s, text::other_than('+'));
                    assert(!text::other_than('+')(s[i]));
                    assert(s =~= first + seq!['+'] + second);
                    order::lemma_before_total(first, second);
                }
            },
        }
    }
    if s == seq!['@'] + a && names_a_role(a) {
        assert(s[0] == '@' && "all-units"@[0] == 'a');
        name_parses_back(ChannelView::Direct(a));
    }
    if s == a + seq!['+'] + b && names_a_role(a) && names_a_role(b) && a != b {
        assert(s[a.len() as int] == '+');
        assert(s.contains('+'));
        assert(s[0] == a[0]);
        assert(!seq!['@'].is_prefix_of(s)) by {
            if seq!['@'].is_prefix_of(s) {
                assert(seq!['@'][0] == s.subrange(0, 1)[0]);
            }
        }
        assert forall|j: int| 0 <= j < a.len() implies text::other_than('+')(#[trigger] s[j]) by {
            assert(s[j] == a[j]);
        }
        text::lemma_run_is(s, text::other_than('+'), a.len() as int);
        assert(s.take(a.len() as int) =~= a);
        assert(s.skip(a.len() as int + 1) =~= b);
    }
}

/// A name means the channel it spells: `all-units` everyone, `@role` that role,
/// `a+b` the two roles, whichever comes first; and nothing else means a channel.
pub proof fn a_name_means_what_it_spells(name: &str, r: Option<Channel>, a: Seq<char>, b: Seq<char>)
    requires
        call_ensures(Channel::parse, (name,), r),
    ensures
        r matches Some(Channel::AllUnits) <==> name@ == "all-units"@,
        r matches Some(Channel::Direct(role)) ==> name@ == seq!['@'] + role@ && names_a_role(role@),
        r matches Some(Channel::Pair(x, y)) ==> names_a_role(x@) && names_a_role(y@) && x@ != y@ && (
        name@ == x@ + seq!['+'] + y@ || name@ == y@ + seq!['+'] + x@),
        name@ == seq!['@'] + a && names_a_role(a) ==> (r matches Some(Channel::Direct(role))
            && role@ == a),
        name@ == a + seq!['+'] + b && names_a_role(a) && names_a_role(b) && a != b ==> (r matches Some(
            Channel::Pair(x, y),
        ) && ((x@ == a && y@ == b) || (x@ == b && y@ == a))),
{
    lemma_named(name@, a, b);
}

/// A message goes where it says: to the role it names, whatever channel it names
/// besides; else to the channel it names; and with neither to the commander. A
/// blank name is none, and white space around one does not matter.
pub proof fn a_message_goes_where_it_says(
    to: Option<&str>,
    channel: Option<&str>,
    commander: RoleId,
    r: Option<Channel>,
    named: Option<Channel>,
    name: &str,
)
    requires
        call_ensures(Channel::resolve, (to, channel, &commander), r),
        call_ensures(Channel::parse, (name,), named),
    ensures
        ({
            let unaddressed = to matches Some(t) ==> forall|i: int|
                0 <= i < t@.len() ==> text::white_space(#[trigger] t@[i]);
            let uncharted = channel matches Some(t) ==> forall|i: int|
                0 <= i < t@.len() ==> text::white_space(#[trigger] t@[i]);
            &&& !unaddressed && names_a_role(text::trimmed(to->0@)) ==> (r matches Some(
                Channel::Direct(role),
            ) && role@ == text::trimmed(to->0@))
            &&& !unaddressed && !names_a_role(text::trimmed(to->0@)) ==> r is None
            &&& unaddressed && uncharted ==> (r matches Some(Channel::Direct(role)) && role@
                == commander@)
            &&& unaddressed && !uncharted && name@ == text::trimmed(channel->0@) ==> opt_channel(r)
                == opt_channel(named)
        }),
{
    if let Some(t) = to {
        text::blank_means_white_space_only(t@);
        lemma_names_a_role(text::trimmed(t@));
    }
    if let Some(t) = channel {
        text::blank_means_white_space_only(t@);
    }
}

} // verus!
