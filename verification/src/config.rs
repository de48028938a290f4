use vstd::prelude::*;

use crate::error::{Error, Ganzu};
use crate::file::{FileSnapshot, SnapshotV};
use crate::filter::{filter_matches, Filter, FilterV};
use crate::rule::{
    filters_view, lemma_first_match_from, lemma_rule_first_match, rule_first_match, rule_matches,
    Rule, RuleV,
};

verus! {

/// The mathematical model of a rule set.
pub struct ConfigV {
    pub rules: Seq<RuleV>,
}

/// An ordered rule set: rules are evaluated first-to-last, and the first
/// rule containing a matching filter wins the whole match.
#[derive(Debug, Clone, PartialEq)]
pub struct Config {
    pub rules: Vec<Rule>,
}

/// The models of a sequence of rules.
pub open spec fn rules_view(v: Seq<Rule>) -> Seq<RuleV> {
    Seq::new(v.len(), |i: int| v[i]@)
}

impl View for Config {
    type V = ConfigV;

    open spec fn view(&self) -> ConfigV {
        ConfigV { rules: rules_view(self.rules@) }
    }
}

// ---------------------------------------------------------------------------
// Matching
// ---------------------------------------------------------------------------

/// The least index `>= i` of a rule with a filter accepting `s`, if any.
pub open spec fn config_first_rule_from(c: ConfigV, s: SnapshotV, i: int) -> Option<int>
    decreases c.rules.len() - i,
    when 0 <= i <= c.rules.len()
{
    if i >= c.rules.len() {
        None
    } else if rule_matches(c.rules[i], s) {
        Some(i)
    } else {
        config_first_rule_from(c, s, i + 1)
    }
}

/// The full match result for one snapshot: the winning rule's index and the
/// winning filter, or `None` when no rule matches.
pub open spec fn config_match(c: ConfigV, s: SnapshotV) -> Option<(int, FilterV)> {
    match config_first_rule_from(c, s, 0) {
        Some(i) => match rule_first_match(c.rules[i], s) {
            Some(j) => Some((i, c.rules[i].filters[j])),
            None => None,
        },
        None => None,
    }
}

/// What `config_first_rule_from` returns is the least matching rule index at
/// or after `i`, and `None` exactly when no rule at or after `i` matches.
pub proof fn lemma_config_first_rule_from(c: ConfigV, s: SnapshotV, i: int)
    requires
        0 <= i <= c.rules.len(),
    ensures
        match config_first_rule_from(c, s, i) {
            Some(w) => i <= w < c.rules.len() && rule_matches(c.rules[w], s) && forall|k: int|
                i <= k < w ==> !rule_matches(#[trigger] c.rules[k], s),
            None => forall|k: int| i <= k < c.rules.len() ==> !rule_matches(
                #[trigger] c.rules[k],
                s,
            ),
        },
    decreases c.rules.len() - i,
{
    if i < c.rules.len() && !rule_matches(c.rules[i], s) {
        lemma_config_first_rule_from(c, s, i + 1);
    }
}

/// Rule `i`, filter `j` is *the* winner for snapshot `s`: the filter matches,
/// no earlier rule has any matching filter, and no earlier filter of rule `i`
/// matches.
pub open spec fn is_winning_match(c: ConfigV, s: SnapshotV, i: int, j: int) -> bool {
    &&& 0 <= i < c.rules.len()
    &&& 0 <= j < c.rules[i].filters.len()
    &&& filter_matches(c.rules[i].filters[j], s)
    &&& forall|i2: int| 0 <= i2 < i ==> !rule_matches(#[trigger] c.rules[i2], s)
    &&& forall|j2: int| 0 <= j2 < j ==> !filter_matches(#[trigger] c.rules[i].filters[j2], s)
}

/// The operational match result coincides with the declarative notion of a
/// winning (rule, filter) pair.
pub proof fn lemma_config_match_winning(c: ConfigV, s: SnapshotV)
    ensures
        match config_match(c, s) {
            Some(m) => exists|j: int|
                is_winning_match(c, s, m.0, j) && m.1 == c.rules[m.0].filters[j],
            None => forall|i: int| 0 <= i < c.rules.len() ==> !rule_matches(
                #[trigger] c.rules[i],
                s,
            ),
        },
{
    lemma_config_first_rule_from(c, s, 0);
    match config_first_rule_from(c, s, 0) {
        Some(w) => {
            lemma_rule_first_match(c.rules[w], s);
            match rule_first_match(c.rules[w], s) {
                Some(j) => {
                    assert(is_winning_match(c, s, w, j));
                    assert(config_match(c, s) == Some((w, c.rules[w].filters[j])));
                    let m = config_match(c, s)->Some_0;
                    assert(m.0 == w && m.1 == c.rules[w].filters[j]);
                    assert(is_winning_match(c, s, m.0, j) && m.1 == c.rules[m.0].filters[j]);
                },
                None => {
                    assert(false);
                },
            }
        },
        None => {},
    }
}

/// For every snapshot and every rule set there is at most one winning
/// (rule, filter) pair: a file receives at most one action per planning run.
pub proof fn lemma_at_most_one_action(c: ConfigV, s: SnapshotV, i1: int, j1: int, i2: int, j2: int)
    requires
        is_winning_match(c, s, i1, j1),
        is_winning_match(c, s, i2, j2),
    ensures
        i1 == i2,
        j1 == j2,
{
    assert(filter_matches(c.rules[i1].filters[j1], s));
    assert(rule_matches(c.rules[i1], s));
    assert(filter_matches(c.rules[i2].filters[j2], s));
    assert(rule_matches(c.rules[i2], s));
    if i1 < i2 {
        assert(!rule_matches(c.rules[i1], s));
    } else if i2 < i1 {
        assert(!rule_matches(c.rules[i2], s));
    }
    if j1 < j2 {
        assert(!filter_matches(c.rules[i2].filters[j1], s));
    } else if j2 < j1 {
        assert(!filter_matches(c.rules[i1].filters[j2], s));
    }
}

/// First match wins: if rule `i` matches a snapshot at all, the overall
/// match exists and its winning rule comes no later than `i`.  In
/// particular, of two rules that both match, the earlier one provides the
/// action.
pub proof fn lemma_first_match_wins(c: ConfigV, s: SnapshotV, i: int)
    requires
        0 <= i < c.rules.len(),
        rule_matches(c.rules[i], s),
    ensures
        config_match(c, s) matches Some(m) && 0 <= m.0 <= i,
{
    lemma_config_first_rule_from(c, s, 0);
    match config_first_rule_from(c, s, 0) {
        Some(w) => {
            lemma_rule_first_match(c.rules[w], s);
            if w > i {
                assert(!rule_matches(c.rules[i], s));
            }
        },
        None => {
            assert(!rule_matches(c.rules[i], s));
        },
    }
}

// ---------------------------------------------------------------------------
// Validation
// ---------------------------------------------------------------------------

/// A destination is syntactically usable as a path: nonempty and free of the
/// NUL character, which no filesystem path may contain.
pub open spec fn valid_dest(d: Seq<char>) -> bool {
    d.len() > 0 && forall|i: int| 0 <= i < d.len() ==> #[trigger] d[i] != '\0'
}

/// Every rule's destination in the set is syntactically valid.
pub open spec fn config_valid(c: ConfigV) -> bool {
    forall|i: int| 0 <= i < c.rules.len() ==> valid_dest(#[trigger] c.rules[i].action.dest())
}

/// The least index `>= i` of a rule whose destination is invalid, if any.
pub open spec fn first_invalid_from(c: ConfigV, i: int) -> Option<int>
    decreases c.rules.len() - i,
    when 0 <= i <= c.rules.len()
{
    if i >= c.rules.len() {
        None
    } else if !valid_dest(c.rules[i].action.dest()) {
        Some(i)
    } else {
        first_invalid_from(c, i + 1)
    }
}

/// Decides `valid_dest` for one destination string.
fn dest_is_valid(d: &str) -> (r: bool)
    ensures
        r == valid_dest(d@),
{
    let n = d.unicode_len();
    if n == 0 {
        return false;
    }
    let mut i: usize = 0;
    while i < n
        invariant
            i <= n,
            n == d@.len(),
            forall|k: int| 0 <= k < i ==> #[trigger] d@[k] != '\0',
        decreases n - i,
    {
        if d.get_char(i) == '\0' {
            return false;
        }
        i = i + 1;
    }
    true
}

/// Witness that a configuration passed validation.
#[derive(Debug)]
pub struct ConfigValidation {}

impl Config {
    /// Evaluates the rule set against one snapshot: rules in order, filters
    /// in order within each rule, first match wins; at most one
    /// (rule index, filter) pair comes back per snapshot.
    pub fn check(&self, file: &FileSnapshot) -> (r: Option<(usize, Filter)>)
        ensures
            (r is None) == (config_match(self@, file@) is None),
            r matches Some(p) ==> config_match(self@, file@) == Some((p.0 as int, p.1@)),
    {
        let n = self.rules.len();
        let mut i: usize = 0;
        while i < n
            invariant
                i <= n,
                n == self.rules.len(),
                config_first_rule_from(self@, file@, 0) == config_first_rule_from(
                    self@,
                    file@,
                    i as int,
                ),
            decreases n - i,
        {
            proof {
                assert(self@.rules[i as int] == self.rules@[i as int]@);
            }
            match self.rules[i].check(file) {
                Some(f) => {
                    proof {
                        lemma_rule_first_match(self@.rules[i as int], file@);
                    }
                    return Some((i, f));
                },
                None => {
                    proof {
                        lemma_rule_first_match(self@.rules[i as int], file@);
                    }
                },
            }
            i = i + 1;
        }
        None
    }

    /// Checks every rule's destination for syntactic well-formedness.  This
    /// runs once before a planning pass; a set that fails validation aborts
    /// planning before any file is probed.  The error names the destination
    /// of the earliest offending rule.
    pub fn validate(&self) -> (r: Ganzu<ConfigValidation>)
        ensures
            (r is Ok) == config_valid(self@),
            r matches Err(e) ==> first_invalid_from(self@, 0) matches Some(w) && (e matches
                Error::InvalidDestination { dest } && dest@ == self@.rules[w].action.dest()),
    {
        let n = self.rules.len();
        let mut i: usize = 0;
        while i < n
            invariant
                i <= n,
                n == self.rules.len(),
                first_invalid_from(self@, 0) == first_invalid_from(self@, i as int),
                forall|k: int| 0 <= k < i ==> valid_dest(#[trigger] self@.rules[k].action.dest()),
            decreases n - i,
        {
            proof {
                assert(self@.rules[i as int] == self.rules@[i as int]@);
            }
            let dest = self.rules[i].action.dest_ref();
            if !dest_is_valid(dest.as_str()) {
                return Err(Error::InvalidDestination { dest: dest.clone() });
            }
            i = i + 1;
        }
        proof {
            assert(config_valid(self@));
        }
        Ok(ConfigValidation {})
    }
}

} // verus!
