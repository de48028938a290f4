use vstd::prelude::*;

verus! {

/// The mathematical model of a snapshot: the four identity fields as plain
/// sequences and integers.
#[verifier::ext_equal]
pub struct SnapshotV {
    pub input_name: Seq<char>,
    pub absolute_path: Seq<char>,
    pub last_mtime: int,
    pub mimetype: Seq<char>,
}

impl SnapshotV {
    /// Two snapshots describe the same file state: equal canonical path,
    /// modification time and sniffed mimetype.  The original input name is
    /// presentation only and takes no part in identity.
    pub open spec fn same_identity(self, other: SnapshotV) -> bool {
        &&& self.absolute_path == other.absolute_path
        &&& self.last_mtime == other.last_mtime
        &&& self.mimetype == other.mimetype
    }
}

/// Snapshot of one file's identity at one instant.
///
/// The fields are captured together by the probing front end (path
/// resolution, a file-status query for the modification time, and a
/// content-based mimetype sniff) and are never mutated afterwards:
/// re-verifying identity means capturing a new snapshot and comparing it
/// against the stored one.
#[derive(Debug, Clone, PartialEq)]
pub struct FileSnapshot {
    /// The original string the user supplied (may be relative).
    pub input_name: String,
    /// Canonical absolute path: all symlinks and `.`/`..` segments resolved
    /// at capture time.
    pub absolute_path: String,
    /// Last modification time, in whole seconds.
    pub last_mtime: i64,
    /// Content-sniffed MIME type, determined from the file bytes, not from
    /// the file name extension.
    pub mimetype: String,
}

impl View for FileSnapshot {
    type V = SnapshotV;

    open spec fn view(&self) -> SnapshotV {
        SnapshotV {
            input_name: self.input_name@,
            absolute_path: self.absolute_path@,
            last_mtime: self.last_mtime as int,
            mimetype: self.mimetype@,
        }
    }
}

impl FileSnapshot {
    /// Assembles a snapshot from already-captured identity data.
    pub fn new(input_name: String, absolute_path: String, last_mtime: i64, mimetype: String) -> (
        s: FileSnapshot)
        ensures
            s@ == (SnapshotV {
                input_name: input_name@,
                absolute_path: absolute_path@,
                last_mtime: last_mtime as int,
                mimetype: mimetype@,
            }),
    {
        FileSnapshot { input_name, absolute_path, last_mtime, mimetype }
    }

    /// An explicit copy with a known relation to the source, since the
    /// derived `Clone` carries no specification.
    pub fn duplicate(&self) -> (r: FileSnapshot)
        ensures
            r@ == self@,
    {
        FileSnapshot {
            input_name: self.input_name.clone(),
            absolute_path: self.absolute_path.clone(),
            last_mtime: self.last_mtime,
            mimetype: self.mimetype.clone(),
        }
    }

    /// Field-by-field identity comparison, the staleness test of the
    /// execution engine.
    pub fn same_identity(&self, other: &FileSnapshot) -> (r: bool)
        ensures
            r == self@.same_identity(other@),
    {
        self.absolute_path == other.absolute_path && self.last_mtime == other.last_mtime
            && self.mimetype == other.mimetype
    }
}

} // verus!
