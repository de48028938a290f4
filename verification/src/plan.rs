use vstd::prelude::*;

use crate::config::{config_match, config_valid, first_invalid_from, Config, ConfigV};
use crate::error::{Error, Ganzu};
use crate::file::{FileSnapshot, SnapshotV};
use crate::manifest::{files_view, Doc, DocV, FileMatch, FileMatchV, Matches, MatchesV, Meta, MetaV};

verus! {

/// The mathematical model of one probe outcome.
pub enum ProbeV {
    Probed(SnapshotV),
    ProbeFailed(Seq<char>),
}

/// One probe outcome, as handed in by the capture front end: either a
/// complete snapshot, or the input name that failed together with the
/// failure.
#[derive(Debug, Clone, PartialEq)]
pub enum Probe {
    /// The path resolved and its identity was captured.
    Probed(FileSnapshot),
    /// The probe failed; the error is kept for reporting and the path is
    /// excluded from the manifest.
    ProbeFailed { input_name: String, error: Error },
}

impl View for Probe {
    type V = ProbeV;

    open spec fn view(&self) -> ProbeV {
        match self {
            Probe::Probed(s) => ProbeV::Probed(s@),
            Probe::ProbeFailed { input_name, error } => ProbeV::ProbeFailed(input_name@),
        }
    }
}

/// The models of a sequence of probes.
pub open spec fn probes_view(v: Seq<Probe>) -> Seq<ProbeV> {
    Seq::new(v.len(), |i: int| v[i]@)
}

/// The manifest entries a plan derives from a sequence of probe outcomes:
/// one entry per successfully probed snapshot that some rule matches, in
/// input order, pairing the snapshot with the winning rule's action.
pub open spec fn spec_plan_entries(probes: Seq<ProbeV>, c: ConfigV) -> Seq<FileMatchV>
    decreases probes.len(),
{
    if probes.len() == 0 {
        Seq::empty()
    } else {
        let rest = spec_plan_entries(probes.drop_last(), c);
        match probes.last() {
            ProbeV::Probed(s) => match config_match(c, s) {
                Some(m) => rest.push(FileMatchV { snapshot: s, action: c.rules[m.0].action }),
                None => rest,
            },
            ProbeV::ProbeFailed(_) => rest,
        }
    }
}

/// How many probes in the sequence succeeded.
pub open spec fn count_probed(probes: Seq<ProbeV>) -> int
    decreases probes.len(),
{
    if probes.len() == 0 {
        0
    } else {
        count_probed(probes.drop_last()) + match probes.last() {
            ProbeV::Probed(_) => 1int,
            ProbeV::ProbeFailed(_) => 0int,
        }
    }
}

pub proof fn lemma_count_probed_bounds(probes: Seq<ProbeV>)
    ensures
        0 <= count_probed(probes) <= probes.len(),
    decreases probes.len(),
{
    if probes.len() > 0 {
        lemma_count_probed_bounds(probes.drop_last());
    }
}

/// The document one planning run produces from given probe outcomes, rule
/// set, format version and creation time.
pub open spec fn spec_plan_doc(probes: Seq<ProbeV>, c: ConfigV, version: Seq<char>, created: int)
    -> DocV {
    DocV {
        meta: MetaV { version, created },
        matches: MatchesV { files: spec_plan_entries(probes, c) },
    }
}

/// Planning is deterministic up to the creation timestamp: two runs over
/// the same probe outcomes, rule set and format version produce documents
/// that are identical except for `meta.created`.
pub proof fn lemma_plan_idempotent(
    probes: Seq<ProbeV>,
    c: ConfigV,
    version: Seq<char>,
    t1: int,
    t2: int,
)
    ensures
        spec_plan_doc(probes, c, version, t1).matches == spec_plan_doc(
            probes,
            c,
            version,
            t2,
        ).matches,
        spec_plan_doc(probes, c, version, t1).meta.version == spec_plan_doc(
            probes,
            c,
            version,
            t2,
        ).meta.version,
{
}

/// The summary of one planning run.
#[derive(Debug, Clone, PartialEq)]
pub struct PlanReport {
    /// How many candidate paths were probed successfully.
    pub probed_ok: usize,
    /// How many probes failed (these paths are absent from the manifest).
    pub probe_failed: usize,
    /// How many probed files matched a rule (one manifest entry each).
    pub matched: usize,
    /// How many probed files matched no rule.
    pub unmatched: usize,
}

/// One planning run: validates the rule set (fail-fast: an invalid
/// destination aborts the run before any matching), then matches every
/// successfully probed snapshot against the rules and assembles the manifest
/// document and the summary.  Probe failures never abort the run: the
/// manifest derives from the successful probes alone.
pub fn plan(probes: &Vec<Probe>, config: &Config, version: String, created: u64) -> (r: Ganzu<
    (Doc, PlanReport),
>)
    ensures
        (r is Ok) == config_valid(config@),
        r matches Ok(p) ==> p.0@ == spec_plan_doc(
            probes_view(probes@),
            config@,
            version@,
            created as int,
        ),
        r matches Ok(p) ==> p.1.probed_ok == count_probed(probes_view(probes@))
            && p.1.probe_failed == probes@.len() - count_probed(probes_view(probes@))
            && p.1.matched == spec_plan_entries(probes_view(probes@), config@).len()
            && p.1.unmatched == count_probed(probes_view(probes@)) - spec_plan_entries(
            probes_view(probes@),
            config@,
        ).len(),
        r matches Err(e) ==> !config_valid(config@) && (first_invalid_from(config@, 0) matches Some(
            w,
        ) && (e matches Error::InvalidDestination { dest } && dest@
            == config@.rules[w].action.dest())),
{
    match config.validate() {
        Err(e) => {
            return Err(e);
        },
        Ok(_) => {},
    }
    let ghost pv = probes_view(probes@);
    let n = probes.len();
    let mut entries: Vec<FileMatch> = Vec::new();
    let mut probed_ok: usize = 0;
    let mut i: usize = 0;
    while i < n
        invariant
            i <= n,
            n == probes@.len(),
            pv == probes_view(probes@),
            config_valid(config@),
            files_view(entries@) == spec_plan_entries(pv.take(i as int), config@),
            entries@.len() <= probed_ok,
            probed_ok == count_probed(pv.take(i as int)),
            probed_ok <= i,
        decreases n - i,
    {
        proof {
            lemma_count_probed_bounds(pv.take(i as int));
            assert(pv.take(i as int + 1).drop_last() =~= pv.take(i as int));
            assert(pv.take(i as int + 1).last() == pv[i as int]);
            assert(pv[i as int] == probes@[i as int]@);
        }
        match &probes[i] {
            Probe::Probed(s) => {
                probed_ok = probed_ok + 1;
                match config.check(s) {
                    Some((w, _f)) => {
                        proof {
                            crate::config::lemma_config_first_rule_from(config@, s@, 0);
                        }
                        let entry = FileMatch {
                            snapshot: s.duplicate(),
                            action: config.rules[w].action.clone_action(),
                        };
                        entries.push(entry);
                        proof {
                            assert(files_view(entries@) =~= spec_plan_entries(
                                pv.take(i as int + 1),
                                config@,
                            ));
                        }
                    },
                    None => {
                        proof {
                            assert(files_view(entries@) =~= spec_plan_entries(
                                pv.take(i as int + 1),
                                config@,
                            ));
                        }
                    },
                }
            },
            Probe::ProbeFailed { .. } => {
                proof {
                    assert(files_view(entries@) =~= spec_plan_entries(
                        pv.take(i as int + 1),
                        config@,
                    ));
                }
            },
        }
        i = i + 1;
    }
    proof {
        assert(pv.take(n as int) =~= pv);
        lemma_count_probed_bounds(pv);
    }
    let matched = entries.len();
    let report = PlanReport {
        probed_ok,
        probe_failed: n - probed_ok,
        matched,
        unmatched: probed_ok - matched,
    };
    let doc = Doc { meta: Meta { version, created }, matches: Matches { files: entries } };
    Ok((doc, report))
}

} // verus!
