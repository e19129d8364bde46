//! Retention rules: an age threshold and the timestamp kinds that
//! must satisfy it.

use vstd::prelude::*;

use crate::dur::Duration;

verus! {

/// The timestamps read for one filesystem entry, in nanoseconds since
/// the epoch; `None` where the filesystem could not supply the kind.
#[derive(Clone, Copy, Debug, PartialEq, Eq)]
pub struct Timestamps {
    pub created: Option<u128>,
    pub modified: Option<u128>,
    pub accessed: Option<u128>,
}

/// A retention policy: an entry is eligible for deletion when every
/// enabled, readable timestamp is at least `age` old.
#[derive(Clone, Copy, Debug, PartialEq, Eq)]
pub struct Rule {
    pub age: Duration,
    pub modified: bool,
    pub accessed: bool,
    pub created: bool,
}

/// A rule as configuration states it: either a bare duration
/// expression (the short form), or a duration with explicit choices
/// for each timestamp kind (the detailed form), `None` where the
/// configuration left a choice out.
#[derive(Clone, Copy, Debug, PartialEq, Eq)]
pub enum RuleConfig {
    Simple(Duration),
    Detailed(DetailedRule),
}

/// The detailed rule form.  Left-out choices default asymmetrically:
/// `modified` and `accessed` default to enabled, `created` to
/// disabled.  The short form instead enables `created` and
/// `modified` and disables `accessed`; the asymmetry is deliberate
/// and preserved.
#[derive(Clone, Copy, Debug, PartialEq, Eq)]
pub struct DetailedRule {
    pub age: Duration,
    pub modified: Option<bool>,
    pub accessed: Option<bool>,
    pub created: Option<bool>,
}

/// The rule a configuration value denotes, defaults applied.
pub open spec fn rule_of(c: RuleConfig) -> Rule {
    match c {
        RuleConfig::Simple(age) => (Rule { age, created: true, modified: true, accessed: false }),
        RuleConfig::Detailed(d) => (Rule {
            age: d.age,
            modified: (match d.modified {
                Some(b) => b,
                None => true,
            }),
            accessed: (match d.accessed {
                Some(b) => b,
                None => true,
            }),
            created: (match d.created {
                Some(b) => b,
                None => false,
            }),
        }),
    }
}

impl From<RuleConfig> for Rule {
    /// Builds the rule a configuration value denotes.
    fn from(c: RuleConfig) -> (r: Rule) {
        match c {
            RuleConfig::Simple(age) => Rule { age, created: true, modified: true, accessed: false },
            RuleConfig::Detailed(d) => Rule {
                age: d.age,
                modified: (match d.modified {
                    Some(b) => b,
                    None => true,
                }),
                accessed: (match d.accessed {
                    Some(b) => b,
                    None => true,
                }),
                created: (match d.created {
                    Some(b) => b,
                    None => false,
                }),
            },
        }
    }
}

impl vstd::std_specs::convert::FromSpecImpl<RuleConfig> for Rule {
    open spec fn obeys_from_spec() -> bool {
        true
    }

    open spec fn from_spec(c: RuleConfig) -> Rule {
        rule_of(c)
    }
}

impl Rule {
    /// The instant `age` before `now`, floored at the epoch: entries
    /// whose every enabled, readable timestamp is at or before this
    /// limit are eligible.
    pub open spec fn deletion_limit(&self, now: int) -> int {
        if now >= self.age@ {
            now - self.age@
        } else {
            0
        }
    }

    /// Whether an entry with timestamps `ts`, seen at `now`, is
    /// eligible for deletion.  A rule with no enabled kind deletes
    /// nothing, an entry with no readable timestamp is never deleted,
    /// and otherwise an entry survives exactly when some enabled,
    /// readable timestamp is strictly newer than the limit: equality
    /// at the boundary is deletable.
    pub open spec fn spec_should_delete(&self, now: int, ts: Timestamps) -> bool {
        if !(self.created || self.modified || self.accessed) {
            false
        } else if ts.created is None && ts.modified is None && ts.accessed is None {
            false
        } else {
            &&& (self.created && ts.created is Some ==> ts.created->0 <= self.deletion_limit(now))
            &&& (self.modified && ts.modified is Some ==> ts.modified->0 <= self.deletion_limit(
                now,
            ))
            &&& (self.accessed && ts.accessed is Some ==> ts.accessed->0 <= self.deletion_limit(
                now,
            ))
        }
    }

    /// Decides deletion for one entry's timestamps at the instant
    /// `now` (nanoseconds since the epoch).  Disabled kinds are never
    /// consulted; unreadable kinds never count against deletion.
    pub fn should_delete(&self, now: u128, ts: &Timestamps) -> (r: bool)
        ensures
            r == self.spec_should_delete(now as int, *ts),
    {
        if !(self.created || self.modified || self.accessed) {
            return false;
        }
        if ts.created.is_none() && ts.modified.is_none() && ts.accessed.is_none() {
            return false;
        }
        let age = self.age.as_nanos();
        let limit: u128 = if now >= age {
            now - age
        } else {
            0
        };
        if let Some(tc) = ts.created {
            if self.created && tc > limit {
                return false;
            }
        }
        if let Some(tm) = ts.modified {
            if self.modified && tm > limit {
                return false;
            }
        }
        if let Some(ta) = ts.accessed {
            if self.accessed && ta > limit {
                return false;
            }
        }
        true
    }
}

/// A rule with every timestamp kind disabled matches nothing: it
/// deletes no entry, whatever the age or the timestamps.
pub proof fn lemma_disabled_rule_never_deletes(rule: Rule, now: int, ts: Timestamps)
    requires
        !rule.created,
        !rule.modified,
        !rule.accessed,
    ensures
        !rule.spec_should_delete(now, ts),
{
}

/// An entry none of whose timestamps could be read is never deleted:
/// what cannot be verified is kept.
pub proof fn lemma_unreadable_never_deleted(rule: Rule, now: int, ts: Timestamps)
    requires
        ts.created is None,
        ts.modified is None,
        ts.accessed is None,
    ensures
        !rule.spec_should_delete(now, ts),
{
}

/// The short rule form is equivalent to the detailed form that names
/// the same age and enables `created` and `modified` while disabling
/// `accessed` explicitly.
pub proof fn lemma_short_form_equivalent(age: Duration)
    ensures
        rule_of(RuleConfig::Simple(age)) == rule_of(
            RuleConfig::Detailed(
                DetailedRule {
                    age,
                    modified: Some(true),
                    accessed: Some(false),
                    created: Some(true),
                },
            ),
        ),
{
}

} // verus!
