use vstd::prelude::*;

use crate::file::{FileSnapshot, SnapshotV};
use crate::filter::{FilterAction, FilterActionV};

verus! {

// ---------------------------------------------------------------------------
// Document model
// ---------------------------------------------------------------------------

/// The mathematical model of a manifest's metadata.
#[verifier::ext_equal]
pub struct MetaV {
    pub version: Seq<char>,
    pub created: int,
}

/// Manifest metadata: the format version and the creation time of the
/// planning run that produced the document.
#[derive(Debug, Clone, PartialEq)]
pub struct Meta {
    /// Format version string.
    pub version: String,
    /// Creation time as an integer timestamp (seconds).
    pub created: u64,
}

impl View for Meta {
    type V = MetaV;

    open spec fn view(&self) -> MetaV {
        MetaV { version: self.version@, created: self.created as int }
    }
}

/// The mathematical model of one matched file.
#[verifier::ext_equal]
pub struct FileMatchV {
    pub snapshot: SnapshotV,
    pub action: FilterActionV,
}

/// One matched file: the snapshot taken at planning time and the action to
/// apply to it.
#[derive(Debug, Clone, PartialEq)]
pub struct FileMatch {
    pub snapshot: FileSnapshot,
    pub action: FilterAction,
}

impl View for FileMatch {
    type V = FileMatchV;

    open spec fn view(&self) -> FileMatchV {
        FileMatchV { snapshot: self.snapshot@, action: self.action@ }
    }
}

/// The mathematical model of the `matches` section.
#[verifier::ext_equal]
pub struct MatchesV {
    pub files: Seq<FileMatchV>,
}

/// The `matches` section of a manifest: one block per matched file, in
/// planning order.
#[derive(Debug, Clone, PartialEq)]
pub struct Matches {
    pub files: Vec<FileMatch>,
}

/// The models of a sequence of file matches.
pub open spec fn files_view(v: Seq<FileMatch>) -> Seq<FileMatchV> {
    Seq::new(v.len(), |i: int| v[i]@)
}

impl View for Matches {
    type V = MatchesV;

    open spec fn view(&self) -> MatchesV {
        MatchesV { files: files_view(self.files@) }
    }
}

/// The mathematical model of a whole manifest document.
#[verifier::ext_equal]
pub struct DocV {
    pub meta: MetaV,
    pub matches: MatchesV,
}

/// A whole manifest document: the persisted artifact of one planning run,
/// consumed by one execution run.  A manifest is never mutated in place; a
/// stale one is superseded by a newer planning run.
#[derive(Debug, Clone, PartialEq)]
pub struct Doc {
    pub meta: Meta,
    pub matches: Matches,
}

impl View for Doc {
    type V = DocV;

    open spec fn view(&self) -> DocV {
        DocV { meta: self.meta@, matches: self.matches@ }
    }
}

// ---------------------------------------------------------------------------
// Serializability
// ---------------------------------------------------------------------------

/// `s` is free of the double-quote character, the one delimiter the text
/// format reserves inside quoted values.
pub open spec fn no_quote(s: Seq<char>) -> bool {
    forall|i: int| 0 <= i < s.len() ==> #[trigger] s[i] != '"'
}

impl FileMatchV {
    /// The entry can be written to the text format and read back unchanged:
    /// its strings carry no double quote and its timestamp fits an `i64`.
    pub open spec fn serializable(self) -> bool {
        &&& no_quote(self.snapshot.input_name)
        &&& no_quote(self.snapshot.absolute_path)
        &&& no_quote(self.snapshot.mimetype)
        &&& no_quote(self.action.dest())
        &&& i64::MIN <= self.snapshot.last_mtime <= i64::MAX
    }
}

impl DocV {
    /// The document can be written to the text format and read back
    /// unchanged.
    pub open spec fn serializable(self) -> bool {
        &&& no_quote(self.meta.version)
        &&& 0 <= self.meta.created <= u64::MAX
        &&& forall|i: int|
            0 <= i < self.matches.files.len() ==> (#[trigger] self.matches.files[i]).serializable()
    }
}

/// Decides `no_quote` for one string.
fn str_no_quote(s: &str) -> (r: bool)
    ensures
        r == no_quote(s@),
{
    let n = s.unicode_len();
    let mut i: usize = 0;
    while i < n
        invariant
            i <= n,
            n == s@.len(),
            forall|k: int| 0 <= k < i ==> #[trigger] s@[k] != '"',
        decreases n - i,
    {
        if s.get_char(i) == '"' {
            return false;
        }
        i = i + 1;
    }
    true
}

impl FileMatch {
    /// Decides whether this entry survives the text format unchanged.
    pub fn check_serializable(&self) -> (r: bool)
        ensures
            r == self@.serializable(),
    {
        str_no_quote(self.snapshot.input_name.as_str()) && str_no_quote(
            self.snapshot.absolute_path.as_str(),
        ) && str_no_quote(self.snapshot.mimetype.as_str()) && str_no_quote(
            self.action.dest_ref().as_str(),
        )
    }
}

impl Doc {
    /// Decides whether this document survives the text format unchanged:
    /// exactly then does parsing what `serialize` writes give back a
    /// document with the same fields.
    pub fn check_serializable(&self) -> (r: bool)
        ensures
            r == self@.serializable(),
    {
        if !str_no_quote(self.meta.version.as_str()) {
            return false;
        }
        let n = self.matches.files.len();
        let mut i: usize = 0;
        while i < n
            invariant
                i <= n,
                n == self.matches.files.len(),
                no_quote(self@.meta.version),
                forall|k: int| 0 <= k < i ==> (#[trigger] self@.matches.files[k]).serializable(),
            decreases n - i,
        {
            proof {
                assert(self@.matches.files[i as int] == self.matches.files@[i as int]@);
            }
            if !self.matches.files[i].check_serializable() {
                return false;
            }
            i = i + 1;
        }
        true
    }
}

} // verus!
