//! The archive transitions: patch (stock to modified), unpatch (modified to
//! stock), and the check that tells the two shapes apart.
//!
//! A transition alternates filesystem operations with decisions on their
//! outcomes. The decisions are the functions [`patch_next`] and
//! [`unpatch_next`]: a caller performs the operation of the stage it is in,
//! reports the outcome, and is told the next stage or the result.
//! [`patch_asar`] and [`unpatch_asar`] do so against an
//! [`InstallationTarget`], which fixes what the transitions do to an
//! installation.

use vstd::prelude::*;
use vstd::string::*;
use crate::error::{Error, IoFailure, outcome_of};
use crate::stub::{
    StubFile,
    entry_point_content,
    main_js,
    manifest_content,
    package_json,
};
use crate::target::{
    EntryKind,
    EntryView,
    InstallationTarget,
    Slot,
    TargetView,
    written,
};

verus! {

/// A filesystem operation on the resources directory.
#[derive(Clone, Debug, PartialEq, Eq)]
pub enum ArchiveOp {
    /// Rename the entry at `from` to `to`.
    Rename { from: Slot, to: Slot },
    /// Create an empty directory.
    CreateDir { slot: Slot },
    /// Write `content` to a file inside the directory at `app.asar`, in
    /// place of what the file held.
    WriteFile { file: StubFile, content: Vec<u8> },
    /// Remove a directory with all it holds.
    RemoveTree { slot: Slot },
}

/// An [`ArchiveOp`] as a mathematical value.
pub enum ArchiveOpView {
    Rename { from: Slot, to: Slot },
    CreateDir { slot: Slot },
    WriteFile { file: StubFile, content: Seq<u8> },
    RemoveTree { slot: Slot },
}

impl View for ArchiveOp {
    type V = ArchiveOpView;

    open spec fn view(&self) -> ArchiveOpView {
        match self {
            ArchiveOp::Rename { from, to } => ArchiveOpView::Rename { from: *from, to: *to },
            ArchiveOp::CreateDir { slot } => ArchiveOpView::CreateDir { slot: *slot },
            ArchiveOp::WriteFile { file, content } => ArchiveOpView::WriteFile {
                file: *file,
                content: content@,
            },
            ArchiveOp::RemoveTree { slot } => ArchiveOpView::RemoveTree { slot: *slot },
        }
    }
}

impl TargetView {
    /// Why `op` fails on this directory, if it does.
    pub open spec fn op_error(self, op: ArchiveOpView) -> Option<Error> {
        match op {
            ArchiveOpView::Rename { from, to } => self.rename_error(from, to),
            ArchiveOpView::CreateDir { slot } => self.create_dir_error(slot),
            ArchiveOpView::WriteFile { file, content } => self.write_error(Slot::Archive),
            ArchiveOpView::RemoveTree { slot } => self.remove_error(slot),
        }
    }

    /// The directory after an attempt at `op`: unchanged where `op` fails.
    pub open spec fn after(self, op: ArchiveOpView) -> TargetView {
        match op {
            ArchiveOpView::Rename { from, to } => self.renamed(from, to),
            ArchiveOpView::CreateDir { slot } => self.dir_created(slot),
            ArchiveOpView::WriteFile { file, content } => self.file_written(
                Slot::Archive,
                file.name(),
                content,
            ),
            ArchiveOpView::RemoveTree { slot } => self.tree_removed(slot),
        }
    }

    /// The directory after the operations `ops` were attempted in order up
    /// to the first that failed, and that failure if there was one.
    pub open spec fn after_all(self, ops: Seq<ArchiveOpView>) -> (TargetView, Result<(), Error>)
        decreases ops.len(),
    {
        if ops.len() == 0 {
            (self, Ok(()))
        } else {
            match self.op_error(ops[0]) {
                Some(e) => (self, Err(e)),
                None => self.after(ops[0]).after_all(ops.skip(1)),
            }
        }
    }
}

impl InstallationTarget {
    /// Attempts `op` on the directory.
    pub fn perform(&mut self, op: ArchiveOp) -> (done: Result<(), Error>)
        ensures
            done == outcome_of(old(self)@.op_error(op@)),
            final(self)@ == old(self)@.after(op@),
    {
        match op {
            ArchiveOp::Rename { from, to } => self.rename(from, to),
            ArchiveOp::CreateDir { slot } => self.create_dir(slot),
            ArchiveOp::WriteFile { file, content } => self.write_file(
                Slot::Archive,
                file.file_name(),
                content,
            ),
            ArchiveOp::RemoveTree { slot } => self.remove_tree(slot),
        }
    }
}

/// What a transition asks of its caller next.
#[derive(Debug, PartialEq, Eq)]
pub enum Step<S> {
    /// Perform the operation of this stage and report its outcome.
    Perform(S),
    /// The transition is over, with this result.
    Done(Result<(), Error>),
}

/// Whether an installation with an entry of this kind at `app.asar` reads
/// as modified: it does exactly when the entry is a directory. Nothing else
/// is looked at, neither what the directory holds nor whether a backup
/// stands beside it.
pub fn is_modified(archive: EntryKind) -> (modified: bool)
    ensures
        modified == (archive == EntryKind::Directory),
{
    match archive {
        EntryKind::Directory => true,
        _ => false,
    }
}

/// Whether the installation reads as modified: true exactly when a
/// directory stands at `app.asar`, whatever it holds and whatever stands
/// beside it. So an installation in the stock shape never reads as modified
/// and one in the modified shape always does.
pub fn check_patched(target: &InstallationTarget) -> (patched: bool)
    ensures
        patched == (target@.archive is Directory),
        target@.is_stock() ==> !patched,
        target@.is_modified() ==> patched,
{
    is_modified(target.archive.kind())
}

/// The operation of a patch that is in flight.
#[derive(Clone, Copy, Debug, PartialEq, Eq, Structural)]
pub enum PatchStage {
    /// Moving the archive to the backup name.
    Backup,
    /// Creating the stub directory in the archive's place.
    MakeDir,
    /// Writing the manifest into the stub.
    Manifest,
    /// Writing the entry point into the stub.
    EntryPoint,
}

impl PatchStage {
    /// The operation of this stage, for the loader at `loader`.
    pub open spec fn op(self, loader: Seq<u8>) -> ArchiveOpView {
        match self {
            PatchStage::Backup => ArchiveOpView::Rename { from: Slot::Archive, to: Slot::Backup },
            PatchStage::MakeDir => ArchiveOpView::CreateDir { slot: Slot::Archive },
            PatchStage::Manifest => ArchiveOpView::WriteFile {
                file: StubFile::PackageJson,
                content: manifest_content(),
            },
            PatchStage::EntryPoint => ArchiveOpView::WriteFile {
                file: StubFile::MainJs,
                content: entry_point_content(loader),
            },
        }
    }

    /// The stage that follows this one, if any.
    pub open spec fn following(self) -> Option<PatchStage> {
        match self {
            PatchStage::Backup => Some(PatchStage::MakeDir),
            PatchStage::MakeDir => Some(PatchStage::Manifest),
            PatchStage::Manifest => Some(PatchStage::EntryPoint),
            PatchStage::EntryPoint => None,
        }
    }

    /// How many stages follow this one.
    pub open spec fn remaining(self) -> nat {
        match self {
            PatchStage::Backup => 3,
            PatchStage::MakeDir => 2,
            PatchStage::Manifest => 1,
            PatchStage::EntryPoint => 0,
        }
    }

    /// The operation to perform in this stage, for the loader at `loader`.
    pub fn operation(self, loader: &str) -> (op: ArchiveOp)
        ensures
            op@ == self.op(loader.spec_bytes()),
    {
        match self {
            PatchStage::Backup => ArchiveOp::Rename { from: Slot::Archive, to: Slot::Backup },
            PatchStage::MakeDir => ArchiveOp::CreateDir { slot: Slot::Archive },
            PatchStage::Manifest => ArchiveOp::WriteFile {
                file: StubFile::PackageJson,
                content: package_json(),
            },
            PatchStage::EntryPoint => ArchiveOp::WriteFile {
                file: StubFile::MainJs,
                content: main_js(loader),
            },
        }
    }
}

/// What follows the stage `stage` of a patch whose operation ended as
/// `outcome`: a failure ends the patch with that failure and nothing is
/// undone; a success leads to the following stage, or ends the patch after
/// the last.
pub open spec fn patch_after(stage: PatchStage, outcome: Result<(), Error>) -> Step<PatchStage> {
    match outcome {
        Err(e) => Step::Done(Err(e)),
        Ok(_) => match stage.following() {
            Some(next) => Step::Perform(next),
            None => Step::Done(Ok(())),
        },
    }
}

/// The four operations of a patch, in order.
pub open spec fn patch_ops(loader: Seq<u8>) -> Seq<ArchiveOpView> {
    seq![
        PatchStage::Backup.op(loader),
        PatchStage::MakeDir.op(loader),
        PatchStage::Manifest.op(loader),
        PatchStage::EntryPoint.op(loader),
    ]
}

/// What a patch for the loader at `loader` makes of the directory `t`, and
/// its result: the four operations are attempted in order, the first failure
/// is the result, and what was done before it stays done.
pub open spec fn patched(t: TargetView, loader: Seq<u8>) -> (TargetView, Result<(), Error>) {
    t.after_all(patch_ops(loader))
}

/// The stub directory for the loader at `loader`: the manifest and the
/// entry point, and nothing else.
pub open spec fn stub_directory(loader: Seq<u8>) -> EntryView {
    EntryView::Directory(
        seq![
            (StubFile::PackageJson.name(), manifest_content()),
            (StubFile::MainJs.name(), entry_point_content(loader)),
        ],
    )
}

/// The first stage of a patch.
pub fn patch_begin() -> (stage: PatchStage)
    ensures
        stage == PatchStage::Backup,
{
    PatchStage::Backup
}

/// Decides how a patch goes on after the operation of `stage` ended as
/// `outcome`.
pub fn patch_next(stage: PatchStage, outcome: Result<(), Error>) -> (step: Step<PatchStage>)
    ensures
        step == patch_after(stage, outcome),
{
    match outcome {
        Err(e) => Step::Done(Err(e)),
        Ok(_) => match stage {
            PatchStage::Backup => Step::Perform(PatchStage::MakeDir),
            PatchStage::MakeDir => Step::Perform(PatchStage::Manifest),
            PatchStage::Manifest => Step::Perform(PatchStage::EntryPoint),
            PatchStage::EntryPoint => Step::Done(Ok(())),
        },
    }
}

/// What is left of a patch that is about to perform `stage` on `t`.
spec fn patch_from(t: TargetView, stage: PatchStage, loader: Seq<u8>) -> (
    TargetView,
    Result<(), Error>,
)
    decreases stage.remaining(),
{
    let op = stage.op(loader);
    match patch_after(stage, outcome_of(t.op_error(op))) {
        Step::Perform(next) => if next.remaining() < stage.remaining() {
            patch_from(t.after(op), next, loader)
        } else {
            (t, Ok(()))
        },
        Step::Done(result) => (t.after(op), result),
    }
}

/// No operation changes the rights of the process.
proof fn lemma_after_all_keeps_rights(t: TargetView, ops: Seq<ArchiveOpView>)
    ensures
        t.after_all(ops).0.writable == t.writable,
    decreases ops.len(),
{
    if ops.len() > 0 && t.op_error(ops[0]) is None {
        lemma_after_all_keeps_rights(t.after(ops[0]), ops.skip(1));
    }
}

/// An operation that fails leaves the directory as it was.
proof fn lemma_after_failure(t: TargetView, op: ArchiveOpView)
    requires
        t.op_error(op) is Some,
    ensures
        t.after(op) == t,
{
}

/// A patch taken stage by stage from the first is the four operations in
/// order up to the first failure.
proof fn lemma_patch_from_start(t: TargetView, loader: Seq<u8>)
    ensures
        patch_from(t, PatchStage::Backup, loader) == patched(t, loader),
{
    let ops = patch_ops(loader);
    let o0 = ops[0];
    let o1 = ops[1];
    let o2 = ops[2];
    let o3 = ops[3];
    let ops1 = ops.skip(1);
    let ops2 = ops1.skip(1);
    let ops3 = ops2.skip(1);
    let ops4 = ops3.skip(1);
    assert(ops1[0] == o1 && ops2[0] == o2 && ops3[0] == o3 && ops4.len() == 0);
    reveal_with_fuel(patch_from, 5);
    reveal_with_fuel(TargetView::after_all, 6);
    if t.op_error(o0) is Some {
        lemma_after_failure(t, o0);
    } else {
        let t1 = t.after(o0);
        if t1.op_error(o1) is Some {
            lemma_after_failure(t1, o1);
        } else {
            let t2 = t1.after(o1);
            if t2.op_error(o2) is Some {
                lemma_after_failure(t2, o2);
            } else {
                let t3 = t2.after(o2);
                if t3.op_error(o3) is Some {
                    lemma_after_failure(t3, o3);
                }
            }
        }
    }
}

/// Patches the installation: moves the archive to the backup name, creates
/// the stub directory in its place, and writes the manifest and the entry
/// point for the loader at `loader` into it. Each step is taken only after
/// the one before it succeeded; the first failure is returned and what was
/// done before it is left as it is.
///
/// From a writable directory in the stock shape the patch succeeds, and
/// leaves the modified shape: the stub directory with exactly its two
/// files, and the original archive as the backup.
pub fn patch_asar(target: &mut InstallationTarget, loader: &str) -> (done: Result<(), Error>)
    ensures
        (final(target)@, done) == patched(old(target)@, loader.spec_bytes()),
        final(target)@.writable == old(target)@.writable,
        old(target)@.is_stock() && old(target)@.writable ==> {
            &&& done is Ok
            &&& final(target)@.is_modified()
            &&& final(target)@.archive == stub_directory(loader.spec_bytes())
            &&& final(target)@.backup == old(target)@.archive
        },
{
    let mut stage = patch_begin();
    proof {
        lemma_patch_from_start(target@, loader.spec_bytes());
        lemma_after_all_keeps_rights(target@, patch_ops(loader.spec_bytes()));
        if target@.is_stock() && target@.writable {
            lemma_patch_stock(target@, loader.spec_bytes());
        }
    }
    loop
        invariant
            patch_from(target@, stage, loader.spec_bytes()) == patched(
                old(target)@,
                loader.spec_bytes(),
            ),
            patched(old(target)@, loader.spec_bytes()).0.writable == old(target)@.writable,
            old(target)@.is_stock() && old(target)@.writable ==> patched(
                old(target)@,
                loader.spec_bytes(),
            ) == (
                TargetView {
                    writable: true,
                    archive: stub_directory(loader.spec_bytes()),
                    backup: old(target)@.archive,
                    retired: EntryView::Absent,
                },
                Ok::<(), Error>(()),
            ),
        decreases stage.remaining(),
    {
        let outcome = target.perform(stage.operation(loader));
        match patch_next(stage, outcome) {
            Step::Perform(next) => {
                stage = next;
            },
            Step::Done(result) => {
                return result;
            },
        }
    }
}

/// A patch of a writable directory in the stock shape succeeds. It leaves
/// the stub directory, which holds the manifest and the entry point for the
/// loader and nothing else, at `app.asar`, and the original archive at
/// `_app.asar`.
pub proof fn lemma_patch_stock(t: TargetView, loader: Seq<u8>)
    requires
        t.is_stock(),
        t.writable,
    ensures
        patched(t, loader) == (
            TargetView {
                writable: true,
                archive: stub_directory(loader),
                backup: t.archive,
                retired: EntryView::Absent,
            },
            Ok::<(), Error>(()),
        ),
        patched(t, loader).0.is_modified(),
{
    let ops = patch_ops(loader);
    let ops1 = ops.skip(1);
    let ops2 = ops1.skip(1);
    let ops3 = ops2.skip(1);
    let ops4 = ops3.skip(1);
    assert(ops1[0] == ops[1] && ops2[0] == ops[2] && ops3[0] == ops[3] && ops4.len() == 0);
    reveal_with_fuel(TargetView::after_all, 6);
    let t1 = t.after(ops[0]);
    let t2 = t1.after(ops[1]);
    let t3 = t2.after(ops[2]);
    let t4 = t3.after(ops[3]);
    let manifest = (StubFile::PackageJson.name(), manifest_content());
    let entry = (StubFile::MainJs.name(), entry_point_content(loader));
    let none = Seq::<(Seq<char>, Seq<u8>)>::empty();
    assert(t2.archive == EntryView::Directory(none));
    assert(!crate::target::holds(none, manifest.0));
    assert(written(none, manifest.0, manifest.1) =~= seq![manifest]);
    assert(t3.archive == EntryView::Directory(seq![manifest]));
    lemma_stub_names_differ();
    assert(!crate::target::holds(seq![manifest], entry.0)) by {
        if crate::target::holds(seq![manifest], entry.0) {
            let k = choose|k: int| crate::target::is_place_of(seq![manifest], entry.0, k);
            assert(seq![manifest][k].0 == entry.0);
        }
    }
    assert(written(seq![manifest], entry.0, entry.1) =~= seq![manifest, entry]);
    assert(t4.archive == stub_directory(loader));
}

/// The two files of the stub have different names.
proof fn lemma_stub_names_differ()
    ensures
        StubFile::PackageJson.name() != StubFile::MainJs.name(),
{
    reveal_strlit("package.json");
    reveal_strlit("main.js");
    assert("package.json"@.len() != "main.js"@.len());
}

/// The operation of an unpatch that is in flight.
#[derive(Clone, Copy, Debug, PartialEq, Eq, Structural)]
pub enum UnpatchStage {
    /// Moving the stub directory out of the archive's place.
    MoveAside,
    /// Moving the backup into the archive's place.
    Restore,
    /// Removing the stub that was moved aside.
    Cleanup,
    /// Moving the stub back after restoring failed with this error.
    Rollback(Error),
}

impl UnpatchStage {
    /// The operation of this stage.
    pub open spec fn op(self) -> ArchiveOpView {
        match self {
            UnpatchStage::MoveAside => ArchiveOpView::Rename {
                from: Slot::Archive,
                to: Slot::Retired,
            },
            UnpatchStage::Restore => ArchiveOpView::Rename { from: Slot::Backup, to: Slot::Archive },
            UnpatchStage::Cleanup => ArchiveOpView::RemoveTree { slot: Slot::Retired },
            UnpatchStage::Rollback(_) => ArchiveOpView::Rename {
                from: Slot::Retired,
                to: Slot::Archive,
            },
        }
    }

    /// An upper bound on the stages that can follow this one.
    pub open spec fn remaining(self) -> nat {
        match self {
            UnpatchStage::MoveAside => 2,
            UnpatchStage::Restore => 1,
            UnpatchStage::Cleanup => 0,
            UnpatchStage::Rollback(_) => 0,
        }
    }

    /// The operation to perform in this stage.
    pub fn operation(self) -> (op: ArchiveOp)
        ensures
            op@ == self.op(),
    {
        match self {
            UnpatchStage::MoveAside => ArchiveOp::Rename { from: Slot::Archive, to: Slot::Retired },
            UnpatchStage::Restore => ArchiveOp::Rename { from: Slot::Backup, to: Slot::Archive },
            UnpatchStage::Cleanup => ArchiveOp::RemoveTree { slot: Slot::Retired },
            UnpatchStage::Rollback(_) => ArchiveOp::Rename {
                from: Slot::Retired,
                to: Slot::Archive,
            },
        }
    }
}

/// What follows the stage `stage` of an unpatch whose operation ended as
/// `outcome`.
///
/// - The stub could not be moved aside: the unpatch ends with that failure.
/// - The stub is aside: the backup is restored next.
/// - The backup is restored: the stub is removed next, and the outcome of
///   that is the result.
/// - The backup could not be restored: the stub is moved back next. If that
///   succeeds the result is the failure to restore, else the failure to
///   move back.
pub open spec fn unpatch_after(stage: UnpatchStage, outcome: Result<(), Error>) -> Step<
    UnpatchStage,
> {
    match (stage, outcome) {
        (UnpatchStage::MoveAside, Ok(_)) => Step::Perform(UnpatchStage::Restore),
        (UnpatchStage::MoveAside, Err(e)) => Step::Done(Err(e)),
        (UnpatchStage::Restore, Ok(_)) => Step::Perform(UnpatchStage::Cleanup),
        (UnpatchStage::Restore, Err(e)) => Step::Perform(UnpatchStage::Rollback(e)),
        (UnpatchStage::Cleanup, result) => Step::Done(result),
        (UnpatchStage::Rollback(e), Ok(_)) => Step::Done(Err(e)),
        (UnpatchStage::Rollback(_), Err(again)) => Step::Done(Err(again)),
    }
}

/// What an unpatch makes of the directory `t`, and its result.
pub open spec fn unpatched(t: TargetView) -> (TargetView, Result<(), Error>) {
    let aside = t.after(UnpatchStage::MoveAside.op());
    let restored = aside.after(UnpatchStage::Restore.op());
    match t.op_error(UnpatchStage::MoveAside.op()) {
        Some(e) => (t, Err(e)),
        None => match aside.op_error(UnpatchStage::Restore.op()) {
            None => (
                restored.after(UnpatchStage::Cleanup.op()),
                outcome_of(restored.op_error(UnpatchStage::Cleanup.op())),
            ),
            Some(e) => (
                aside.after(UnpatchStage::Rollback(e).op()),
                match aside.op_error(UnpatchStage::Rollback(e).op()) {
                    None => Err(e),
                    Some(again) => Err(again),
                },
            ),
        },
    }
}

/// The first stage of an unpatch.
pub fn unpatch_begin() -> (stage: UnpatchStage)
    ensures
        stage == UnpatchStage::MoveAside,
{
    UnpatchStage::MoveAside
}

/// Decides how an unpatch goes on after the operation of `stage` ended as
/// `outcome`.
pub fn unpatch_next(stage: UnpatchStage, outcome: Result<(), Error>) -> (step: Step<UnpatchStage>)
    ensures
        step == unpatch_after(stage, outcome),
{
    match stage {
        UnpatchStage::MoveAside => match outcome {
            Ok(_) => Step::Perform(UnpatchStage::Restore),
            Err(e) => Step::Done(Err(e)),
        },
        UnpatchStage::Restore => match outcome {
            Ok(_) => Step::Perform(UnpatchStage::Cleanup),
            Err(e) => Step::Perform(UnpatchStage::Rollback(e)),
        },
        UnpatchStage::Cleanup => Step::Done(outcome),
        UnpatchStage::Rollback(e) => match outcome {
            Ok(_) => Step::Done(Err(e)),
            Err(again) => Step::Done(Err(again)),
        },
    }
}

/// What is left of an unpatch that is about to perform `stage` on `t`.
spec fn unpatch_from(t: TargetView, stage: UnpatchStage) -> (TargetView, Result<(), Error>)
    decreases stage.remaining(),
{
    let op = stage.op();
    match unpatch_after(stage, outcome_of(t.op_error(op))) {
        Step::Perform(next) => if next.remaining() < stage.remaining() {
            unpatch_from(t.after(op), next)
        } else {
            (t, Ok(()))
        },
        Step::Done(result) => (t.after(op), result),
    }
}

/// An unpatch taken stage by stage from the first is what [`unpatched`]
/// says.
proof fn lemma_unpatch_from_start(t: TargetView)
    ensures
        unpatch_from(t, UnpatchStage::MoveAside) == unpatched(t),
{
    reveal_with_fuel(unpatch_from, 4);
}

/// Unpatches the installation: moves the stub directory aside, moves the
/// backup into the archive's place and removes the stub. If the backup
/// cannot be restored the stub is moved back, so that the installation is
/// as it was, and the failure to restore is returned.
///
/// From a writable directory in the modified shape the unpatch succeeds and
/// leaves the stock shape with the backup's content as the archive. Where
/// a directory stands at `app.asar` and no backup beside it, the unpatch
/// fails and leaves the installation unchanged.
pub fn unpatch_asar(target: &mut InstallationTarget) -> (done: Result<(), Error>)
    ensures
        (final(target)@, done) == unpatched(old(target)@),
        final(target)@.writable == old(target)@.writable,
        old(target)@.is_modified() && old(target)@.writable ==> {
            &&& done is Ok
            &&& final(target)@.is_stock()
            &&& final(target)@.archive == old(target)@.backup
        },
        old(target)@.lacks_backup() ==> {
            &&& done is Err
            &&& final(target)@ == old(target)@
        },
{
    let mut stage = unpatch_begin();
    proof {
        lemma_unpatch_from_start(target@);
        lemma_unpatch_modified(target@);
        lemma_unpatch_without_backup(target@);
    }
    loop
        invariant
            unpatch_from(target@, stage) == unpatched(old(target)@),
        decreases stage.remaining(),
    {
        let outcome = target.perform(stage.operation());
        match unpatch_next(stage, outcome) {
            Step::Perform(next) => {
                stage = next;
            },
            Step::Done(result) => {
                return result;
            },
        }
    }
}

/// An unpatch of a writable directory in the modified shape succeeds. It
/// leaves the content of the backup at `app.asar`, as a file, and nothing at
/// `_app.asar` or `app.asar~`, whatever the stub directory held.
pub proof fn lemma_unpatch_modified(t: TargetView)
    ensures
        t.is_modified() && t.writable ==> unpatched(t) == (
            TargetView {
                writable: true,
                archive: t.backup,
                backup: EntryView::Absent,
                retired: EntryView::Absent,
            },
            Ok::<(), Error>(()),
        ),
        t.is_modified() && t.writable ==> unpatched(t).0.is_stock(),
{
}

/// Where a directory stands at `app.asar` and there is no backup to restore,
/// an unpatch fails and the installation is afterwards as it was before:
/// the directory is moved back. The failure is that of the rename that found
/// no backup, or the lack of rights that kept the stub from being moved at
/// all.
pub proof fn lemma_unpatch_without_backup(t: TargetView)
    ensures
        t.lacks_backup() ==> {
            &&& unpatched(t).0 == t
            &&& unpatched(t).1 == if t.writable {
                Err::<(), Error>(Error::IoFailure(IoFailure::NotFound))
            } else {
                Err::<(), Error>(Error::PermissionDenied)
            }
        },
{
}

/// Patching and then unpatching an installation in the stock shape gives
/// the installation back as it was: the archive is a file with the content
/// it had, byte for byte, and nothing stands at `_app.asar` or `app.asar~`.
/// Where the process may change the directory both transitions succeed.
pub proof fn lemma_patch_unpatch_round_trip(t: TargetView, loader: Seq<u8>)
    requires
        t.is_stock(),
    ensures
        unpatched(patched(t, loader).0).0 == t,
        t.writable ==> patched(t, loader).1 is Ok && unpatched(patched(t, loader).0).1 is Ok,
{
    if t.writable {
        lemma_patch_stock(t, loader);
        lemma_unpatch_modified(patched(t, loader).0);
    } else {
        reveal_with_fuel(TargetView::after_all, 2);
    }
}

/// An unpatch never takes the archive's name away: if something stood at
/// `app.asar` before, something stands there after, whether the unpatch
/// succeeded or failed. It is what stood there before, or else what stood at
/// `_app.asar`.
pub proof fn lemma_unpatch_keeps_archive(t: TargetView)
    requires
        !(t.archive is Absent),
    ensures
        !(unpatched(t).0.archive is Absent),
        unpatched(t).0.archive == t.archive || unpatched(t).0.archive == t.backup,
{
}

/// After an unpatch that succeeded nothing stands at `app.asar~`.
pub proof fn lemma_unpatch_leaves_no_debris(t: TargetView)
    requires
        unpatched(t).1 is Ok,
    ensures
        unpatched(t).0.retired is Absent,
        unpatched(t).0.backup is Absent,
{
}

/// What becomes of `op` on `t` where the filesystem may fail for reasons
/// of its own: with `fault` it reports that failure and changes nothing,
/// without one it does what it does to a directory in memory.
pub open spec fn attempted(t: TargetView, op: ArchiveOpView, fault: Option<Error>) -> (
    TargetView,
    Result<(), Error>,
) {
    match fault {
        Some(e) => (t, Err(e)),
        None => (t.after(op), outcome_of(t.op_error(op))),
    }
}

/// What is left of a patch that is about to perform `stage` on `t`, where
/// `faults` tells of each stage whether the filesystem fails in it.
pub open spec fn patched_with(
    t: TargetView,
    stage: PatchStage,
    loader: Seq<u8>,
    faults: spec_fn(PatchStage) -> Option<Error>,
) -> (TargetView, Result<(), Error>)
    decreases stage.remaining(),
{
    let (after, outcome) = attempted(t, stage.op(loader), faults(stage));
    match patch_after(stage, outcome) {
        Step::Perform(next) => if next.remaining() < stage.remaining() {
            patched_with(after, next, loader, faults)
        } else {
            (after, outcome)
        },
        Step::Done(result) => (after, result),
    }
}

/// What is left of an unpatch that is about to perform `stage` on `t`,
/// where `faults` tells of each stage whether the filesystem fails in it.
pub open spec fn unpatched_with(
    t: TargetView,
    stage: UnpatchStage,
    faults: spec_fn(UnpatchStage) -> Option<Error>,
) -> (TargetView, Result<(), Error>)
    decreases stage.remaining(),
{
    let (after, outcome) = attempted(t, stage.op(), faults(stage));
    match unpatch_after(stage, outcome) {
        Step::Perform(next) => if next.remaining() < stage.remaining() {
            unpatched_with(after, next, faults)
        } else {
            (after, outcome)
        },
        Step::Done(result) => (after, result),
    }
}

/// A patch never loses the archive, whichever of its operations the
/// filesystem fails: from the stock shape the archive ends up at
/// `_app.asar`, or else the patch failed at once and the installation is as
/// it was. Where the patch succeeds the installation is modified. A patch
/// that fails after the archive was moved leaves `app.asar` missing or
/// incomplete; nothing undoes that.
pub proof fn lemma_patch_keeps_archive(
    t: TargetView,
    loader: Seq<u8>,
    faults: spec_fn(PatchStage) -> Option<Error>,
)
    requires
        t.is_stock(),
    ensures
        ({
            let (after, result) = patched_with(t, PatchStage::Backup, loader, faults);
            &&& after == t || after.backup == t.archive
            &&& result is Ok ==> after.is_modified() && after.archive == stub_directory(loader)
            &&& after == t ==> result is Err
        }),
{
    reveal_with_fuel(patched_with, 5);
    if t.writable && faults(PatchStage::Backup) is None && faults(PatchStage::MakeDir) is None
        && faults(PatchStage::Manifest) is None && faults(PatchStage::EntryPoint) is None {
        lemma_patch_stock(t, loader);
        lemma_patch_from_start(t, loader);
        reveal_with_fuel(patch_from, 5);
    }
}

/// An unpatch of an installation in the modified shape ends in one of four
/// ways, whichever of its operations the filesystem fails.
///
/// - It succeeds, and the installation is stock with the backup as its
///   archive.
/// - It fails and the installation is as it was: the stub could not be
///   moved aside, or the backup could not be restored and the stub was
///   moved back.
/// - It fails with the archive restored and the stub left at `app.asar~`:
///   only the removal of the stub failed.
/// - It fails with nothing at `app.asar`: restoring failed and moving the
///   stub back failed too. This is the only way for the name to stay empty,
///   and the backup is then still in its place.
pub proof fn lemma_unpatch_failure_atomic(
    t: TargetView,
    faults: spec_fn(UnpatchStage) -> Option<Error>,
)
    requires
        t.is_modified(),
    ensures
        ({
            let (after, result) = unpatched_with(t, UnpatchStage::MoveAside, faults);
            let restored = TargetView { archive: t.backup, backup: EntryView::Absent, ..t };
            let aside = TargetView { archive: EntryView::Absent, retired: t.archive, ..t };
            &&& result is Ok ==> after == restored && after.is_stock()
            &&& result is Err ==> {
                ||| after == t
                ||| after == (TargetView { retired: t.archive, ..restored })
                ||| after == aside
            }
            &&& after == aside ==> exists|e: Error| faults(UnpatchStage::Rollback(e)) is Some
        }),
{
    reveal_with_fuel(unpatched_with, 4);
    let (moved, first) = attempted(t, UnpatchStage::MoveAside.op(), faults(UnpatchStage::MoveAside));
    if first is Ok {
        let (back, second) = attempted(
            moved,
            UnpatchStage::Restore.op(),
            faults(UnpatchStage::Restore),
        );
        if second is Err {
            let e = second->Err_0;
            assert(back == moved);
            if faults(UnpatchStage::Rollback(e)) is None {
                assert(moved.after(UnpatchStage::Rollback(e).op()) == t);
            }
        }
    }
}

} // verus!
