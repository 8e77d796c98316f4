//! Replacing a file so that a crash never loses it.
//!
//! New content is written to a file beside it first (`history.jsonl.tmp`). Where a
//! rename replaces its target, one rename puts it in place. Elsewhere the old file
//! steps aside to another (`history.jsonl.bak`) for the moment. Whatever a crash
//! leaves behind, the next start finds the old content or the new one.

use crate::path::{set_extension, with_extension};
use vstd::prelude::*;

verus! {

/// One step on the file, its backup and its replacement.
#[derive(Debug, Clone, Copy, PartialEq, Eq, Structural)]
pub enum FileOp {
    /// Remove the backup, if there is one.
    DropBackup,
    /// Rename the file to the backup.
    FileToBackup,
    /// Rename the replacement to the file.
    TmpToFile,
    /// Rename the backup to the file.
    BackupToFile,
}

/// The content of the file, its backup and its replacement, as far as they exist.
#[verifier::ext_equal]
pub struct FileTriple {
    pub file: Option<Seq<u8>>,
    pub backup: Option<Seq<u8>>,
    pub tmp: Option<Seq<u8>>,
}

impl FileTriple {
    /// What a step leaves behind. A rename of what does not exist does nothing.
    pub open spec fn after(self, op: FileOp) -> FileTriple {
        match op {
            FileOp::DropBackup => FileTriple { backup: None, ..self },
            FileOp::FileToBackup => if self.file is Some {
                FileTriple { file: None, backup: self.file, ..self }
            } else {
                self
            },
            FileOp::TmpToFile => if self.tmp is Some {
                FileTriple { file: self.tmp, tmp: None, ..self }
            } else {
                self
            },
            FileOp::BackupToFile => if self.backup is Some {
                FileTriple { file: self.backup, backup: None, ..self }
            } else {
                self
            },
        }
    }

    /// What a run of steps leaves behind.
    pub open spec fn after_all(self, ops: Seq<FileOp>) -> FileTriple
        decreases ops.len(),
    {
        if ops.len() == 0 {
            self
        } else {
            self.after_all(ops.drop_last()).after(ops.last())
        }
    }

    /// What the next start makes of what it finds.
    pub open spec fn recovered(self) -> FileTriple {
        match recovery_step(self.file is Some, self.backup is Some, self.tmp is Some) {
            Some(op) => self.after(op),
            None => self,
        }
    }
}

/// The step by which a start recovers from an interrupted replacement: a missing
/// file comes back from the backup, else from the replacement.
pub open spec fn recovery_step(file: bool, backup: bool, tmp: bool) -> Option<FileOp> {
    if file {
        None
    } else if backup {
        Some(FileOp::BackupToFile)
    } else if tmp {
        Some(FileOp::TmpToFile)
    } else {
        None
    }
}

/// The steps that put a replacement in place.
pub open spec fn replacement_steps(rename_replaces: bool, file: bool) -> Seq<FileOp> {
    if rename_replaces {
        seq![FileOp::TmpToFile]
    } else if file {
        seq![FileOp::DropBackup, FileOp::FileToBackup, FileOp::TmpToFile, FileOp::DropBackup]
    } else {
        seq![FileOp::DropBackup, FileOp::TmpToFile, FileOp::DropBackup]
    }
}

/// How to recover from an interrupted replacement, given which files exist.
pub fn recovery(file: bool, backup: bool, tmp: bool) -> (op: Option<FileOp>)
    ensures
        op == recovery_step(file, backup, tmp),
{
    if file {
        None
    } else if backup {
        Some(FileOp::BackupToFile)
    } else if tmp {
        Some(FileOp::TmpToFile)
    } else {
        None
    }
}

/// How to put a replacement in place, given whether a rename replaces its target
/// and whether the file exists.
pub fn replacement(rename_replaces: bool, file: bool) -> (ops: Vec<FileOp>)
    ensures
        ops@ == replacement_steps(rename_replaces, file),
{
    let mut ops: Vec<FileOp> = Vec::new();
    if !rename_replaces {
        ops.push(FileOp::DropBackup);
        if file {
            ops.push(FileOp::FileToBackup);
        }
    }
    ops.push(FileOp::TmpToFile);
    if !rename_replaces {
        ops.push(FileOp::DropBackup);
    }
    assert(ops@ =~= replacement_steps(rename_replaces, file));
    ops
}

/// What to undo where the replacement could not be put in place.
pub fn undo(rename_replaces: bool, backup: bool) -> (op: Option<FileOp>)
    ensures
        op == if !rename_replaces && backup {
            Some(FileOp::BackupToFile)
        } else {
            None
        },
{
    if !rename_replaces && backup {
        Some(FileOp::BackupToFile)
    } else {
        None
    }
}

proof fn after_first(s: FileTriple, ops: Seq<FileOp>, n: nat)
    requires
        0 < n <= ops.len(),
    ensures
        s.after_all(ops.take(n as int)) == s.after_all(ops.take(n - 1)).after(ops[n - 1]),
{
    assert(ops.take(n as int).drop_last() =~= ops.take(n - 1));
}

/// A replacement that runs to its end leaves the new content, and neither backup
/// nor replacement that a rename could not have left before.
pub proof fn replaced(s: FileTriple, rename_replaces: bool)
    requires
        s.tmp is Some,
    ensures
        ({
            let done = s.after_all(replacement_steps(rename_replaces, s.file is Some));
            &&& done.file == s.tmp
            &&& done.tmp is None
            &&& done.backup == if rename_replaces {
                s.backup
            } else {
                None
            }
        }),
{
    crash_points(s, rename_replaces);
    let ops = replacement_steps(rename_replaces, s.file is Some);
    assert(ops.take(ops.len() as int) =~= ops);
}

proof fn crash_points(s: FileTriple, rename_replaces: bool)
    ensures
        ({
            let ops = replacement_steps(rename_replaces, s.file is Some);
            &&& s.after_all(ops.take(0)) == s
            &&& s.after_all(ops.take(1)) == s.after(ops[0])
            &&& ops.len() > 1 ==> s.after_all(ops.take(2)) == s.after(ops[0]).after(ops[1])
            &&& ops.len() > 2 ==> s.after_all(ops.take(3)) == s.after(ops[0]).after(ops[1]).after(
                ops[2],
            )
            &&& ops.len() > 3 ==> s.after_all(ops.take(4)) == s.after(ops[0]).after(ops[1]).after(
                ops[2],
            ).after(ops[3])
        }),
{
    let ops = replacement_steps(rename_replaces, s.file is Some);
    assert(ops.take(0) =~= Seq::<FileOp>::empty());
    after_first(s, ops, 1);
    if ops.len() > 1 {
        after_first(s, ops, 2);
    }
    if ops.len() > 2 {
        after_first(s, ops, 3);
    }
    if ops.len() > 3 {
        after_first(s, ops, 4);
    }
}

/// A crash between any two steps of a replacement loses nothing: after recovery
/// the file holds its old content or the new one. (A file that does not exist
/// has no backup either, since recovery would have brought it back.)
pub proof fn crash_is_recovered(s: FileTriple, rename_replaces: bool, done: nat)
    requires
        s.tmp is Some,
        s.file is None ==> s.backup is None,
        done <= replacement_steps(rename_replaces, s.file is Some).len(),
    ensures
        ({
            let ops = replacement_steps(rename_replaces, s.file is Some);
            let found = s.after_all(ops.take(done as int)).recovered();
            found.file == s.file && s.file is Some || found.file == s.tmp
        }),
{
    crash_points(s, rename_replaces);
}

/// Where the replacement cannot be put in place, undoing brings the old content
/// back.
pub proof fn undone(s: FileTriple)
    requires
        s.file is Some,
    ensures
        s.after(FileOp::DropBackup).after(FileOp::FileToBackup).after(FileOp::BackupToFile).file
            == s.file,
{
}

/// Recovery twice over is recovery once.
pub proof fn recovery_is_settled(s: FileTriple)
    ensures
        s.recovered().recovered() == s.recovered(),
{
}

/// The files that stand beside a file while it is replaced.
#[derive(Debug, PartialEq, Eq)]
pub struct SideFiles {
    /// Where the replacement is written.
    pub tmp: String,
    /// Where the file steps aside to.
    pub backup: String,
}

/// The path of the backup of a file, which has a given extension.
pub fn backup_path(path: &str, extension: &str) -> (out: String)
    ensures
        out@ == with_extension(path@, extension@ + ".bak"@),
{
    set_extension(path, extension.to_owned().concat(".bak").as_str())
}

/// The path of the replacement of a file, which has a given extension.
pub fn tmp_path(path: &str, extension: &str) -> (out: String)
    ensures
        out@ == with_extension(path@, extension@ + ".tmp"@),
{
    set_extension(path, extension.to_owned().concat(".tmp").as_str())
}

/// The files that stand beside a file, which has a given extension.
pub fn side_files(path: &str, extension: &str) -> (out: SideFiles)
    ensures
        out.tmp@ == with_extension(path@, extension@ + ".tmp"@),
        out.backup@ == with_extension(path@, extension@ + ".bak"@),
{
    SideFiles { tmp: tmp_path(path, extension), backup: backup_path(path, extension) }
}

} // verus!
