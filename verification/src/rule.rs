use vstd::prelude::*;

use crate::file::{FileSnapshot, SnapshotV};
use crate::filter::{clone_filter, filter_matches, Filter, FilterAction, FilterActionV, FilterV};

verus! {

/// The mathematical model of a rule.
pub struct RuleV {
    pub filters: Seq<FilterV>,
    pub action: FilterActionV,
}

/// Predicate and action: one or more filters, evaluated in order, and the
/// action to apply to a file accepted by the first matching filter.
#[derive(Debug, Clone, PartialEq)]
pub struct Rule {
    pub filters: Vec<Filter>,
    pub action: FilterAction,
}

/// The models of a sequence of filters.
pub open spec fn filters_view(v: Seq<Filter>) -> Seq<FilterV> {
    Seq::new(v.len(), |i: int| v[i]@)
}

impl View for Rule {
    type V = RuleV;

    open spec fn view(&self) -> RuleV {
        RuleV { filters: filters_view(self.filters@), action: self.action@ }
    }
}

/// The least index `>= i` of a filter accepting `s`, if any.
pub open spec fn first_match_from(filters: Seq<FilterV>, s: SnapshotV, i: int) -> Option<int>
    decreases filters.len() - i,
    when 0 <= i <= filters.len()
{
    if i >= filters.len() {
        None
    } else if filter_matches(filters[i], s) {
        Some(i)
    } else {
        first_match_from(filters, s, i + 1)
    }
}

/// The index of the first filter of `r` accepting `s`, if any.
pub open spec fn rule_first_match(r: RuleV, s: SnapshotV) -> Option<int> {
    first_match_from(r.filters, s, 0)
}

/// Some filter of `r` accepts `s`.
pub open spec fn rule_matches(r: RuleV, s: SnapshotV) -> bool {
    exists|j: int| 0 <= j < r.filters.len() && filter_matches(r.filters[j], s)
}

/// What `first_match_from` returns is the least accepting index at or after
/// `i`, and `None` exactly when no index at or after `i` accepts.
pub proof fn lemma_first_match_from(filters: Seq<FilterV>, s: SnapshotV, i: int)
    requires
        0 <= i <= filters.len(),
    ensures
        match first_match_from(filters, s, i) {
            Some(j) => i <= j < filters.len() && filter_matches(filters[j], s) && forall|k: int|
                i <= k < j ==> !filter_matches(filters[k], s),
            None => forall|k: int| i <= k < filters.len() ==> !filter_matches(filters[k], s),
        },
    decreases filters.len() - i,
{
    if i < filters.len() && !filter_matches(filters[i], s) {
        lemma_first_match_from(filters, s, i + 1);
    }
}

/// A rule's first match exists exactly when some filter of the rule matches.
pub proof fn lemma_rule_first_match(r: RuleV, s: SnapshotV)
    ensures
        rule_first_match(r, s) is Some <==> rule_matches(r, s),
        match rule_first_match(r, s) {
            Some(j) => 0 <= j < r.filters.len() && filter_matches(r.filters[j], s) && forall|
                k: int,
            | 0 <= k < j ==> !filter_matches(r.filters[k], s),
            None => forall|k: int| 0 <= k < r.filters.len() ==> !filter_matches(r.filters[k], s),
        },
{
    lemma_first_match_from(r.filters, s, 0);
}

impl Rule {
    /// Evaluates this rule's filters in order against a snapshot and returns
    /// the first filter that matches, or `None` when no filter does.
    pub fn check(&self, file: &FileSnapshot) -> (r: Option<Filter>)
        ensures
            (r is None) == (rule_first_match(self@, file@) is None),
            r matches Some(f) ==> rule_first_match(self@, file@) matches Some(j) && f@
                == self@.filters[j],
    {
        let n = self.filters.len();
        let mut i: usize = 0;
        while i < n
            invariant
                i <= n,
                n == self.filters.len(),
                first_match_from(self@.filters, file@, 0) == first_match_from(
                    self@.filters,
                    file@,
                    i as int,
                ),
            decreases n - i,
        {
            if self.filters[i].check(file) {
                return Some(clone_filter(&self.filters[i]));
            }
            i = i + 1;
        }
        None
    }
}

} // verus!
