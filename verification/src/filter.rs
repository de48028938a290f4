use vstd::prelude::*;

use crate::file::{FileSnapshot, SnapshotV};
use crate::text;

verus! {

/// The mathematical model of a filter.
pub enum FilterV {
    Regex(Seq<char>),
    Mimetype(Seq<char>),
}

/// A predicate over file snapshots.
///
/// Filters are pure: checking one has no side effect and is total over any
/// snapshot.
#[derive(Debug, Clone, PartialEq)]
pub enum Filter {
    /// Match the canonical absolute path against a pattern.  The pattern is
    /// interpreted literally (no metacharacters) and unanchored: it matches
    /// when it occurs anywhere in the path as a contiguous substring, so the
    /// empty pattern matches every path.
    Regex(String),
    /// Match the content-sniffed mimetype by exact string equality.
    Mimetype(String),
}

impl View for Filter {
    type V = FilterV;

    open spec fn view(&self) -> FilterV {
        match self {
            Filter::Regex(p) => FilterV::Regex(p@),
            Filter::Mimetype(m) => FilterV::Mimetype(m@),
        }
    }
}

/// Whether a filter accepts a snapshot.
pub open spec fn filter_matches(f: FilterV, s: SnapshotV) -> bool {
    match f {
        FilterV::Regex(p) => text::contains_seq(s.absolute_path, p),
        FilterV::Mimetype(m) => s.mimetype == m,
    }
}

impl Filter {
    /// Evaluates this filter against a snapshot.
    pub fn check(&self, file: &FileSnapshot) -> (r: bool)
        ensures
            r == filter_matches(self@, file@),
    {
        match self {
            Filter::Regex(p) => text::str_contains(file.absolute_path.as_str(), p.as_str()),
            Filter::Mimetype(m) => text::str_eq(m.as_str(), file.mimetype.as_str()),
        }
    }
}

/// An explicit copy with a known relation to the source, since the derived
/// `Clone` carries no specification.
pub fn clone_filter(f: &Filter) -> (r: Filter)
    ensures
        r@ == f@,
{
    match f {
        Filter::Regex(p) => Filter::Regex(p.clone()),
        Filter::Mimetype(m) => Filter::Mimetype(m.clone()),
    }
}

/// The mathematical model of an action.
pub enum FilterActionV {
    Move { dest: Seq<char> },
    Copy { dest: Seq<char> },
}

impl FilterActionV {
    /// The destination directory of either variant.
    pub open spec fn dest(self) -> Seq<char> {
        match self {
            FilterActionV::Move { dest } => dest,
            FilterActionV::Copy { dest } => dest,
        }
    }
}

/// The action a rule takes on a matched file: move or copy it into a
/// destination directory.  The destination must be a syntactically valid
/// path; whether the directory exists is checked at apply time.
#[derive(Debug, Clone, PartialEq)]
pub enum FilterAction {
    /// Move a matched file into a destination directory.
    Move { dest: String },
    /// Copy a matched file into a destination directory.
    Copy { dest: String },
}

impl View for FilterAction {
    type V = FilterActionV;

    open spec fn view(&self) -> FilterActionV {
        match self {
            FilterAction::Move { dest } => FilterActionV::Move { dest: dest@ },
            FilterAction::Copy { dest } => FilterActionV::Copy { dest: dest@ },
        }
    }
}

/// The mathematical model of a concrete filesystem instruction.
pub enum ApplyOpV {
    MoveFile { source: Seq<char>, dest_dir: Seq<char> },
    CopyFile { source: Seq<char>, dest_dir: Seq<char> },
}

/// The concrete filesystem instruction that applying an action to a
/// snapshotted file comes to.  The library only decides the instruction;
/// carrying it out is the unverified front end's job.
#[derive(Debug, Clone, PartialEq)]
pub enum ApplyOp {
    /// Move `source` into the directory `dest_dir` (rename where possible,
    /// copy-then-delete across filesystems).
    MoveFile { source: String, dest_dir: String },
    /// Copy `source` into the directory `dest_dir`, leaving the original
    /// untouched.
    CopyFile { source: String, dest_dir: String },
}

impl View for ApplyOp {
    type V = ApplyOpV;

    open spec fn view(&self) -> ApplyOpV {
        match self {
            ApplyOp::MoveFile { source, dest_dir } => ApplyOpV::MoveFile {
                source: source@,
                dest_dir: dest_dir@,
            },
            ApplyOp::CopyFile { source, dest_dir } => ApplyOpV::CopyFile {
                source: source@,
                dest_dir: dest_dir@,
            },
        }
    }
}

/// The instruction an action prescribes for a target snapshot.
pub open spec fn spec_apply(action: FilterActionV, target: SnapshotV) -> ApplyOpV {
    match action {
        FilterActionV::Move { dest } => ApplyOpV::MoveFile {
            source: target.absolute_path,
            dest_dir: dest,
        },
        FilterActionV::Copy { dest } => ApplyOpV::CopyFile {
            source: target.absolute_path,
            dest_dir: dest,
        },
    }
}

impl FilterAction {
    /// The destination directory of either variant.
    pub fn dest_ref(&self) -> (d: &String)
        ensures
            d@ == self@.dest(),
    {
        match self {
            FilterAction::Move { dest } => dest,
            FilterAction::Copy { dest } => dest,
        }
    }

    /// An explicit copy with a known relation to the source.
    pub fn clone_action(&self) -> (r: FilterAction)
        ensures
            r@ == self@,
    {
        match self {
            FilterAction::Move { dest } => FilterAction::Move { dest: dest.clone() },
            FilterAction::Copy { dest } => FilterAction::Copy { dest: dest.clone() },
        }
    }

    /// Turns this action and a target snapshot into the filesystem
    /// instruction to carry out: the source is the snapshot's canonical
    /// absolute path, the destination directory is the action's.
    pub fn apply(&self, target: FileSnapshot) -> (op: ApplyOp)
        ensures
            op@ == spec_apply(self@, target@),
    {
        match self {
            FilterAction::Move { dest } => ApplyOp::MoveFile {
                source: target.absolute_path,
                dest_dir: dest.clone(),
            },
            FilterAction::Copy { dest } => ApplyOp::CopyFile {
                source: target.absolute_path,
                dest_dir: dest.clone(),
            },
        }
    }
}

} // verus!
