//! Targets: one glob pattern bound to one retention rule, the
//! decisions of a clearing pass, and the recursive, flattenable
//! failure aggregate a pass produces.

use vstd::prelude::*;

use crate::rule::Rule;
use crate::rule::Timestamps;

verus! {

/// A failure while clearing a target.  An aggregate may contain
/// aggregates; `flatten` splices them out.
#[derive(Debug)]
pub enum Error {
    /// A metadata read or a deletion failed; the message describes it.
    Io(String),
    /// The walk could not evaluate one match.
    Glob(String),
    /// The pattern itself is syntactically invalid.
    Pattern(String),
    /// Every failure one clearing pass recorded, in match order.
    Many(Vec<Error>),
}

/// The flat sequence of leaf failures inside an error value, in
/// encounter order: an aggregate contributes its children, spliced
/// in place recursively, and a leaf contributes itself.
pub open spec fn flat_of(e: Error) -> Seq<Error>
    decreases e,
{
    match e {
        Error::Many(errs) => flat_of_all(errs@),
        leaf => seq![leaf],
    }
}

/// The concatenation of the flattenings of a sequence of errors.
pub open spec fn flat_of_all(s: Seq<Error>) -> Seq<Error>
    decreases s,
{
    if s.len() == 0 {
        Seq::empty()
    } else {
        flat_of(s[0]) + flat_of_all(s.drop_first())
    }
}

impl Error {
    /// Whether this is an aggregate node.
    pub fn is_many(&self) -> (r: bool)
        ensures
            r == (self matches Error::Many(_)),
    {
        matches!(self, Error::Many(_))
    }

    /// Flattens this error into the ordered sequence of its leaf
    /// failures: nested aggregates are spliced into their parent's
    /// position, so none survives.
    pub fn flatten(self) -> (out: Vec<Error>)
        ensures
            out@ == flat_of(self),
        decreases self,
    {
        let ghost whole = self;
        match self {
            Error::Many(errs) => flatten_all(errs),
            leaf => {
                let mut out: Vec<Error> = Vec::new();
                out.push(leaf);
                proof {
                    assert(out@ =~= flat_of(whole));
                }
                out
            },
        }
    }
}

/// Flattens each error in order and concatenates the results.
fn flatten_all(errs: Vec<Error>) -> (out: Vec<Error>)
    ensures
        out@ == flat_of_all(errs@),
    decreases errs@,
{
    let ghost orig = errs@;
    let mut errs = errs;
    if errs.len() == 0 {
        let out: Vec<Error> = Vec::new();
        proof {
            assert(out@ =~= flat_of_all(orig));
        }
        out
    } else {
        let e = errs.remove(0);
        proof {
            assert(e == orig[0]);
            assert(decreases_to!(orig => e));
            assert(errs@ =~= orig.drop_first());
            assert(decreases_to!(orig => orig.drop_first()));
        }
        let mut out = e.flatten();
        let mut rest = flatten_all(errs);
        out.append(&mut rest);
        proof {
            assert(out@ == flat_of(orig[0]) + flat_of_all(orig.drop_first()));
        }
        out
    }
}

/// Flattening leaves only leaves: no aggregate node survives in the
/// flat sequence.
pub proof fn lemma_flat_only_leaves(e: Error)
    ensures
        forall|k: int| 0 <= k < flat_of(e).len() ==> !(#[trigger] flat_of(e)[k] matches
            Error::Many(_)),
    decreases e,
{
    match e {
        Error::Many(errs) => {
            lemma_flat_all_only_leaves(errs@);
        },
        leaf => {
        },
    }
}

proof fn lemma_flat_all_only_leaves(s: Seq<Error>)
    ensures
        forall|k: int| 0 <= k < flat_of_all(s).len() ==> !(#[trigger] flat_of_all(s)[k] matches
            Error::Many(_)),
    decreases s,
{
    if s.len() > 0 {
        lemma_flat_only_leaves(s[0]);
        lemma_flat_all_only_leaves(s.drop_first());
    }
}

// ---------------------------------------------------------------------------
// The clearing pass.
// ---------------------------------------------------------------------------

/// What the caller observed for one glob match, its reads already
/// performed: the walk failed for the match, the metadata read
/// failed, or a readable entry with its kind and timestamps.
#[derive(Clone, Debug, PartialEq, Eq)]
pub enum Observation {
    GlobFailed(String),
    MetaFailed(String),
    Entry { is_dir: bool, times: Timestamps },
}

/// What one clearing pass does with one observed match.
#[derive(Debug)]
pub enum Decision {
    /// Record this failure and continue with the next match.
    Record(Error),
    /// The entry is not yet eligible: leave it.
    Keep,
    /// Delete the entry and its entire contents recursively.
    RemoveDir,
    /// Delete the plain file.
    RemoveFile,
}

/// The decision for one observed match: failed reads are recorded as
/// this match's failure, surviving entries are kept, and an eligible
/// entry is removed as a directory or as a plain file.
pub open spec fn spec_decide(rule: Rule, now: int, obs: Observation) -> Decision {
    match obs {
        Observation::GlobFailed(m) => Decision::Record(Error::Glob(m)),
        Observation::MetaFailed(m) => Decision::Record(Error::Io(m)),
        Observation::Entry { is_dir, times } => {
            if !rule.spec_should_delete(now, times) {
                Decision::Keep
            } else if is_dir {
                Decision::RemoveDir
            } else {
                Decision::RemoveFile
            }
        },
    }
}

/// The decisions of one pass, one per observation, each depending on
/// its own observation alone.
pub open spec fn spec_decisions(rule: Rule, now: int, obs: Seq<Observation>) -> Seq<Decision> {
    obs.map_values(|o: Observation| spec_decide(rule, now, o))
}

/// The failures one pass records for `obs`, in match order, when
/// every decided deletion succeeds.
pub open spec fn spec_pass_errors(rule: Rule, now: int, obs: Seq<Observation>) -> Seq<Error>
    decreases obs.len(),
{
    if obs.len() == 0 {
        Seq::empty()
    } else {
        (match spec_decide(rule, now, obs[0]) {
            Decision::Record(e) => seq![e],
            _ => Seq::<Error>::empty(),
        }) + spec_pass_errors(rule, now, obs.drop_first())
    }
}

/// A failure on one matched path does not prevent deletion of the
/// other matched paths: two passes whose observations differ at most
/// at one position decide every other position identically.
pub proof fn lemma_pass_isolates_failures(
    rule: Rule,
    now: int,
    obs1: Seq<Observation>,
    obs2: Seq<Observation>,
    j: int,
)
    requires
        obs1.len() == obs2.len(),
        forall|k: int| 0 <= k < obs1.len() && k != j ==> obs1[k] == obs2[k],
    ensures
        forall|k: int|
            0 <= k < obs1.len() && k != j ==> spec_decisions(rule, now, obs1)[k] == spec_decisions(
                rule,
                now,
                obs2,
            )[k],
{
}

/// Clearing is idle on a directory with nothing left to do: when no
/// observed entry is eligible and every read succeeded, a pass
/// records no failure and decides no deletion.  Running clearing
/// again right after a pass, with no new eligible entries, therefore
/// succeeds and deletes nothing further.
pub proof fn lemma_second_pass_idle(rule: Rule, now: int, obs: Seq<Observation>)
    requires
        forall|k: int|
            0 <= k < obs.len() ==> (#[trigger] obs[k] matches Observation::Entry { is_dir, times }
                && !rule.spec_should_delete(now, times)),
    ensures
        spec_pass_errors(rule, now, obs) == Seq::<Error>::empty(),
        forall|k: int| 0 <= k < obs.len() ==> spec_decisions(rule, now, obs)[k] == Decision::Keep,
    decreases obs.len(),
{
    if obs.len() > 0 {
        assert(obs[0] matches Observation::Entry { is_dir, times } && !rule.spec_should_delete(
            now,
            times,
        ));
        lemma_second_pass_idle(rule, now, obs.drop_first());
        assert(spec_pass_errors(rule, now, obs) =~= Seq::<Error>::empty());
    }
}

// ---------------------------------------------------------------------------
// The target itself.
// ---------------------------------------------------------------------------

/// The syntax check of a glob pattern, as glob::Pattern::new decides
/// it: `None` for a valid pattern, the error's message otherwise.
pub uninterp spec fn glob_pattern_check(p: Seq<char>) -> Option<Seq<char>>;

/// Relies on glob::Pattern::new: compiling a pattern is a pure
/// function of the pattern text, and it is the same syntax gate that
/// glob::glob applies before walking anything.
#[verifier::external_body]
fn compile_pattern(p: &str) -> (r: Option<String>)
    ensures
        match glob_pattern_check(p@) {
            None => r is None,
            Some(m) => r matches Some(msg) && msg@ == m,
        },
{
    match glob::Pattern::new(p) {
        Ok(_) => None,
        Err(e) => Some(format!("{}", e)),
    }
}

/// One glob pattern bound to the rule that clears it.  Both are
/// immutable for the target's lifetime.
#[derive(Clone, Debug, PartialEq, Eq)]
pub struct Target {
    pub pattern: String,
    pub rule: Rule,
}

impl Target {
    /// Binds a pattern to its rule.
    pub fn new(pattern: String, rule: Rule) -> (t: Target)
        ensures
            t.pattern == pattern,
            t.rule == rule,
    {
        Target { pattern, rule }
    }

    /// Checks the pattern's syntax, as a clearing pass does before it
    /// touches anything: an invalid pattern fails the whole target at
    /// once with a single pattern-syntax failure.
    pub fn check_pattern(&self) -> (r: Result<(), Error>)
        ensures
            match glob_pattern_check(self.pattern@) {
                None => r is Ok,
                Some(m) => r matches Err(e) && e matches Error::Pattern(msg) && msg@ == m,
            },
    {
        match compile_pattern(self.pattern.as_str()) {
            None => Ok(()),
            Some(m) => Err(Error::Pattern(m)),
        }
    }

    /// Decides one observed match of this target's pattern at the
    /// instant `now` (nanoseconds since the epoch).
    pub fn decide(&self, now: u128, obs: Observation) -> (d: Decision)
        ensures
            d == spec_decide(self.rule, now as int, obs),
    {
        match obs {
            Observation::GlobFailed(m) => Decision::Record(Error::Glob(m)),
            Observation::MetaFailed(m) => Decision::Record(Error::Io(m)),
            Observation::Entry { is_dir, times } => {
                if !self.rule.should_delete(now, &times) {
                    Decision::Keep
                } else if is_dir {
                    Decision::RemoveDir
                } else {
                    Decision::RemoveFile
                }
            },
        }
    }

    /// Wraps up one clearing pass from the failures it recorded, in
    /// match order: none means the target succeeded; otherwise the
    /// pass failed with exactly their aggregate.
    pub fn finish(&self, errs: Vec<Error>) -> (r: Result<(), Error>)
        ensures
            errs@.len() == 0 ==> r is Ok,
            errs@.len() > 0 ==> (r matches Err(e) && e matches Error::Many(v) && v@ == errs@),
    {
        if errs.len() == 0 {
            Ok(())
        } else {
            Err(Error::Many(errs))
        }
    }
}

} // verus!
