//! Model tiers: how much model muscle each role gets, and the default mapping.
//!
//! A role is assigned a tier, an intent; the crew maps each tier to a concrete
//! model alias, so retuning spend is a change to the tier map.
use vstd::prelude::*;

use crate::id::RoleId;
use crate::text;

verus! {

/// A model tier: how much model muscle a role gets, independent of the exact
/// build.
#[derive(Debug, Clone, Copy, PartialEq, Eq, Structural)]
pub enum ModelTier {
    /// The strong model: the lead and the architect.
    Strong,
    /// The standard model: the builders doing the real work.
    Standard,
    /// The cheap model: mechanical roles where a small model does.
    Cheap,
}

impl Default for ModelTier {
    fn default() -> (r: Self)
        ensures
            r == ModelTier::Standard,
    {
        ModelTier::Standard
    }
}

impl ModelTier {
    /// The tier's label.
    pub open spec fn label_text(self) -> Seq<char> {
        match self {
            ModelTier::Strong => "strong"@,
            ModelTier::Standard => "standard"@,
            ModelTier::Cheap => "cheap"@,
        }
    }

    /// The tier's label as text.
    pub fn to_string(&self) -> (r: String)
        ensures
            r@ == self.label_text(),
    {
        match self {
            ModelTier::Strong => "strong".to_owned(),
            ModelTier::Standard => "standard".to_owned(),
            ModelTier::Cheap => "cheap".to_owned(),
        }
    }
}

/// The concrete model alias each tier resolves to for a crew.
#[derive(Debug, PartialEq, Eq)]
pub struct ModelTiers {
    strong: String,
    standard: String,
    cheap: String,
}

/// The alias a tier resolves to by default.
pub open spec fn default_alias(tier: ModelTier) -> Seq<char> {
    match tier {
        ModelTier::Strong => "opus"@,
        ModelTier::Standard => "sonnet"@,
        ModelTier::Cheap => "haiku"@,
    }
}

/// An override, trimmed, or the default where it is absent or blank.
pub open spec fn alias_given(given: Option<Seq<char>>, fallback: Seq<char>) -> Seq<char> {
    match given {
        Some(alias) => if text::blank(alias) {
            fallback
        } else {
            text::trimmed(alias)
        },
        None => fallback,
    }
}

impl ModelTiers {
    /// The alias `tier` resolves to.
    pub closed spec fn alias(self, tier: ModelTier) -> Seq<char> {
        match tier {
            ModelTier::Strong => self.strong@,
            ModelTier::Standard => self.standard@,
            ModelTier::Cheap => self.cheap@,
        }
    }

    /// The concrete model alias `tier` resolves to under this map.
    pub fn resolve(&self, tier: ModelTier) -> (r: &str)
        ensures
            r@ == self.alias(tier),
    {
        match tier {
            ModelTier::Strong => self.strong.as_str(),
            ModelTier::Standard => self.standard.as_str(),
            ModelTier::Cheap => self.cheap.as_str(),
        }
    }

    /// The tier map from optional overrides, each falling back to its default
    /// alias where it is absent or blank.
    pub fn from_overrides(
        strong: Option<String>,
        standard: Option<String>,
        cheap: Option<String>,
    ) -> (r: Self)
        ensures
            r.alias(ModelTier::Strong) == alias_given(
                text::opt_string(strong),
                default_alias(ModelTier::Strong),
            ),
            r.alias(ModelTier::Standard) == alias_given(
                text::opt_string(standard),
                default_alias(ModelTier::Standard),
            ),
            r.alias(ModelTier::Cheap) == alias_given(
                text::opt_string(cheap),
                default_alias(ModelTier::Cheap),
            ),
    {
        let default = ModelTiers::default();
        assert(default.alias(ModelTier::Strong) == "opus"@);
        assert(default.alias(ModelTier::Standard) == "sonnet"@);
        assert(default.alias(ModelTier::Cheap) == "haiku"@);
        ModelTiers {
            strong: alias_or(strong, default.strong),
            standard: alias_or(standard, default.standard),
            cheap: alias_or(cheap, default.cheap),
        }
    }
}

impl Default for ModelTiers {
    fn default() -> (r: Self)
        ensures
            forall|tier: ModelTier| #[trigger] r.alias(tier) == default_alias(tier),
    {
        ModelTiers {
            strong: "opus".to_owned(),
            standard: "sonnet".to_owned(),
            cheap: "haiku".to_owned(),
        }
    }
}

impl Clone for ModelTiers {
    fn clone(&self) -> (r: Self)
        ensures
            r == *self,
    {
        ModelTiers {
            strong: self.strong.clone(),
            standard: self.standard.clone(),
            cheap: self.cheap.clone(),
        }
    }
}

/// The trimmed `given` alias, or `fallback` when it is absent or blank.
fn alias_or(given: Option<String>, fallback: String) -> (r: String)
    ensures
        r@ == alias_given(text::opt_string(given), fallback@),
{
    match given {
        Some(alias) => {
            let alias = text::trim(alias.as_str());
            if alias.is_empty() {
                fallback
            } else {
                alias.to_owned()
            }
        },
        None => fallback,
    }
}

/// The tier a role's name maps to, whatever its case and outer white space.
pub open spec fn tier_of(role: Seq<char>) -> ModelTier {
    let name = text::lower(text::trimmed(role));
    if name == "commander"@ || name == "architect"@ {
        ModelTier::Strong
    } else if name == "docs"@ || name == "ci"@ || name == "release"@ || name == "lint"@ || name
        == "test"@ || name == "sdet-unit"@ || name == "sdet-e2e"@ {
        ModelTier::Cheap
    } else {
        ModelTier::Standard
    }
}

/// The default tier for a role by its name: the lead roles run strong, the
/// mechanical roles run cheap, and every other role runs standard.
pub fn default_tier_for(role: &RoleId) -> (r: ModelTier)
    ensures
        r == tier_of(role@),
{
    let name = text::to_lower(text::trim(role.as_str()));
    let name = name.as_str();
    if text::same(name, "commander") || text::same(name, "architect") {
        ModelTier::Strong
    } else if text::same(name, "docs") || text::same(name, "ci") || text::same(name, "release")
        || text::same(name, "lint") || text::same(name, "test") || text::same(name, "sdet-unit")
        || text::same(name, "sdet-e2e") {
        ModelTier::Cheap
    } else {
        ModelTier::Standard
    }
}

/// A tier's alias is the one given for it, or else its own default; one tier's alias
/// does not touch another's.
pub proof fn an_alias_is_its_tiers_own(
    strong: Option<String>,
    standard: Option<String>,
    cheap: Option<String>,
    tiers: ModelTiers,
    tier: ModelTier,
    r: &str,
)
    requires
        call_ensures(ModelTiers::from_overrides, (strong, standard, cheap), tiers),
        call_ensures(ModelTiers::resolve, (&tiers, tier), r),
    ensures
        ({
            let given = match tier {
                ModelTier::Strong => strong,
                ModelTier::Standard => standard,
                ModelTier::Cheap => cheap,
            };
            let named = given is Some && text::trimmed(given->0@).len() > 0;
            &&& named ==> r@ == text::trimmed(given->0@)
            &&& !named && tier == ModelTier::Strong ==> r@ == "opus"@
            &&& !named && tier == ModelTier::Standard ==> r@ == "sonnet"@
            &&& !named && tier == ModelTier::Cheap ==> r@ == "haiku"@
        }),
{
}

/// A role's tier goes by its name alone, whatever its case and the white space around
/// it: the lead roles run strong, and none of them cheap.
pub proof fn a_tier_goes_by_the_name(a: RoleId, b: RoleId, tier_a: ModelTier, tier_b: ModelTier)
    requires
        call_ensures(default_tier_for, (&a,), tier_a),
        call_ensures(default_tier_for, (&b,), tier_b),
    ensures
        text::lower(text::trimmed(a@)) == text::lower(text::trimmed(b@)) ==> tier_a == tier_b,
        ({
            let name = text::lower(text::trimmed(a@));
            &&& tier_a == ModelTier::Strong <==> name == "commander"@ || name == "architect"@
            &&& tier_a == ModelTier::Cheap <==> name == "docs"@ || name == "ci"@ || name
                == "release"@ || name == "lint"@ || name == "test"@ || name == "sdet-unit"@ || name
                == "sdet-e2e"@
        }),
{
    reveal_strlit("commander");
    reveal_strlit("architect");
    reveal_strlit("docs");
    reveal_strlit("ci");
    reveal_strlit("release");
    reveal_strlit("lint");
    reveal_strlit("test");
    reveal_strlit("sdet-unit");
    reveal_strlit("sdet-e2e");
    assert("commander"@.len() == 9 && "architect"@.len() == 9 && "docs"@.len() == 4 && "ci"@.len()
        == 2 && "release"@.len() == 7 && "lint"@.len() == 4 && "test"@.len() == 4
        && "sdet-unit"@.len() == 9 && "sdet-e2e"@.len() == 8 && "commander"@[0] == 'c'
        && "architect"@[0] == 'a' && "sdet-unit"@[0] == 's');
}

} // verus!
