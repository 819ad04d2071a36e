//! The resources directory of an installation, reduced to the three entries
//! that the archive transitions touch, and what each filesystem operation
//! does to them.
//!
//! [`InstallationTarget`] holds such a directory in memory. Its operations
//! follow the rules of a POSIX filesystem; the transitions are run against
//! it to state, and to check, what they do to an installation.

use vstd::prelude::*;
use crate::error::{Error, IoFailure, outcome_of};

verus! {

/// The names in the resources directory that the transitions act on.
#[derive(Clone, Copy, Debug, PartialEq, Eq, Structural)]
pub enum Slot {
    /// `app.asar`: the archive that the application loads.
    Archive,
    /// `_app.asar`: the original archive, kept while the stub is in place.
    Backup,
    /// `app.asar~`: the stub on its way out, during an unpatch only.
    Retired,
}

impl Slot {
    /// The name of the entry in the resources directory.
    pub open spec fn name(self) -> Seq<char> {
        match self {
            Slot::Archive => "app.asar"@,
            Slot::Backup => "_app.asar"@,
            Slot::Retired => "app.asar~"@,
        }
    }

    /// The name of the entry in the resources directory.
    pub fn file_name(self) -> (name: &'static str)
        ensures
            name@ == self.name(),
    {
        match self {
            Slot::Archive => "app.asar",
            Slot::Backup => "_app.asar",
            Slot::Retired => "app.asar~",
        }
    }
}

/// A file of a directory: its name and its content.
#[derive(Clone, Debug, PartialEq, Eq)]
pub struct NamedFile {
    pub name: String,
    pub content: Vec<u8>,
}

impl View for NamedFile {
    type V = (Seq<char>, Seq<u8>);

    open spec fn view(&self) -> (Seq<char>, Seq<u8>) {
        (self.name@, self.content@)
    }
}

/// The files of a directory as names and contents, in the order in which
/// they were created.
pub open spec fn listing(files: Seq<NamedFile>) -> Seq<(Seq<char>, Seq<u8>)> {
    files.map_values(|f: NamedFile| f@)
}

/// Whether `i` is the place of the file called `name` in `files`.
pub open spec fn is_place_of(files: Seq<(Seq<char>, Seq<u8>)>, name: Seq<char>, i: int) -> bool {
    &&& 0 <= i < files.len()
    &&& files[i].0 == name
    &&& forall|j: int| 0 <= j < i ==> (#[trigger] files[j]).0 != name
}

/// Whether `files` holds a file called `name`.
pub open spec fn holds(files: Seq<(Seq<char>, Seq<u8>)>, name: Seq<char>) -> bool {
    exists|i: int| is_place_of(files, name, i)
}

/// `files` after `content` was written to the file called `name`: the
/// content of that file replaced where there is one, a new file behind the
/// others where there is none. Nothing is appended to old content.
pub open spec fn written(
    files: Seq<(Seq<char>, Seq<u8>)>,
    name: Seq<char>,
    content: Seq<u8>,
) -> Seq<(Seq<char>, Seq<u8>)> {
    if holds(files, name) {
        files.update(choose|i: int| is_place_of(files, name, i), (name, content))
    } else {
        files.push((name, content))
    }
}

/// The kind of what stands under a name: all that a look at the name
/// tells without reading anything.
#[derive(Clone, Copy, Debug, PartialEq, Eq, Structural)]
pub enum EntryKind {
    Absent,
    File,
    Directory,
}

/// What stands under one name of the resources directory.
#[derive(Clone, Debug, PartialEq, Eq)]
pub enum Entry {
    /// Nothing.
    Absent,
    /// A file with this content.
    File(Vec<u8>),
    /// A directory with these files.
    Directory(Vec<NamedFile>),
}

/// An [`Entry`] as a mathematical value.
pub enum EntryView {
    Absent,
    File(Seq<u8>),
    Directory(Seq<(Seq<char>, Seq<u8>)>),
}

impl EntryView {
    /// The kind of the entry.
    pub open spec fn kind(self) -> EntryKind {
        match self {
            EntryView::Absent => EntryKind::Absent,
            EntryView::File(_) => EntryKind::File,
            EntryView::Directory(_) => EntryKind::Directory,
        }
    }
}

impl Entry {
    /// The kind of the entry.
    pub fn kind(&self) -> (kind: EntryKind)
        ensures
            kind == self@.kind(),
    {
        match self {
            Entry::Absent => EntryKind::Absent,
            Entry::File(_) => EntryKind::File,
            Entry::Directory(_) => EntryKind::Directory,
        }
    }
}

impl View for Entry {
    type V = EntryView;

    open spec fn view(&self) -> EntryView {
        match self {
            Entry::Absent => EntryView::Absent,
            Entry::File(content) => EntryView::File(content@),
            Entry::Directory(files) => EntryView::Directory(listing(files@)),
        }
    }
}

/// The three archive entries of a resources directory, and whether the
/// process may change the directory.
#[derive(Clone, Debug, PartialEq, Eq)]
pub struct InstallationTarget {
    /// Whether the process has the right to change the directory.
    pub writable: bool,
    /// What stands at `app.asar`.
    pub archive: Entry,
    /// What stands at `_app.asar`.
    pub backup: Entry,
    /// What stands at `app.asar~`.
    pub retired: Entry,
}

/// An [`InstallationTarget`] as a mathematical value.
pub struct TargetView {
    pub writable: bool,
    pub archive: EntryView,
    pub backup: EntryView,
    pub retired: EntryView,
}

impl View for InstallationTarget {
    type V = TargetView;

    open spec fn view(&self) -> TargetView {
        TargetView {
            writable: self.writable,
            archive: self.archive@,
            backup: self.backup@,
            retired: self.retired@,
        }
    }
}

impl TargetView {
    /// What stands at `slot`.
    pub open spec fn at(self, slot: Slot) -> EntryView {
        match slot {
            Slot::Archive => self.archive,
            Slot::Backup => self.backup,
            Slot::Retired => self.retired,
        }
    }

    /// The directory with `entry` at `slot` and the rest as it is.
    pub open spec fn with(self, slot: Slot, entry: EntryView) -> TargetView {
        match slot {
            Slot::Archive => TargetView { archive: entry, ..self },
            Slot::Backup => TargetView { backup: entry, ..self },
            Slot::Retired => TargetView { retired: entry, ..self },
        }
    }

    /// The stock shape: the archive is a file and nothing stands beside it.
    pub open spec fn is_stock(self) -> bool {
        &&& self.archive is File
        &&& self.backup is Absent
        &&& self.retired is Absent
    }

    /// The modified shape: a directory stands in the archive's place, the
    /// original archive is kept beside it, and nothing else is there.
    pub open spec fn is_modified(self) -> bool {
        &&& self.archive is Directory
        &&& self.backup is File
        &&& self.retired is Absent
    }

    /// A directory stands in the archive's place and there is no backup to
    /// restore, nor anything else beside it.
    pub open spec fn lacks_backup(self) -> bool {
        &&& self.archive is Directory
        &&& self.backup is Absent
        &&& self.retired is Absent
    }

    /// Why renaming `from` to `to` fails, if it does. A missing source is
    /// reported first, then a lack of rights. A file replaces a file and a
    /// directory replaces an empty directory; any other occupied destination
    /// refuses the rename.
    pub open spec fn rename_error(self, from: Slot, to: Slot) -> Option<Error> {
        if self.at(from) is Absent {
            Some(Error::IoFailure(IoFailure::NotFound))
        } else if from == to {
            None
        } else if !self.writable {
            Some(Error::PermissionDenied)
        } else {
            match (self.at(from), self.at(to)) {
                (EntryView::File(_), EntryView::Directory(_)) => Some(
                    Error::IoFailure(IoFailure::IsADirectory),
                ),
                (EntryView::Directory(_), EntryView::File(_)) => Some(
                    Error::IoFailure(IoFailure::NotADirectory),
                ),
                (EntryView::Directory(_), EntryView::Directory(files)) => if files.len() == 0 {
                    None
                } else {
                    Some(Error::IoFailure(IoFailure::DirectoryNotEmpty))
                },
                _ => None,
            }
        }
    }

    /// The directory after an attempt to rename `from` to `to`: unchanged
    /// where the rename fails, else with `from` gone and its entry at `to`.
    pub open spec fn renamed(self, from: Slot, to: Slot) -> TargetView {
        if self.rename_error(from, to) is Some || from == to {
            self
        } else {
            self.with(from, EntryView::Absent).with(to, self.at(from))
        }
    }

    /// Why creating a directory at `slot` fails, if it does.
    pub open spec fn create_dir_error(self, slot: Slot) -> Option<Error> {
        if !(self.at(slot) is Absent) {
            Some(Error::IoFailure(IoFailure::AlreadyExists))
        } else if !self.writable {
            Some(Error::PermissionDenied)
        } else {
            None
        }
    }

    /// The directory after an attempt to create a directory at `slot`.
    pub open spec fn dir_created(self, slot: Slot) -> TargetView {
        if self.create_dir_error(slot) is Some {
            self
        } else {
            self.with(slot, EntryView::Directory(Seq::empty()))
        }
    }

    /// Why writing a file into the directory at `slot` fails, if it does.
    pub open spec fn write_error(self, slot: Slot) -> Option<Error> {
        match self.at(slot) {
            EntryView::Absent => Some(Error::IoFailure(IoFailure::NotFound)),
            EntryView::File(_) => Some(Error::IoFailure(IoFailure::NotADirectory)),
            EntryView::Directory(_) => if self.writable {
                None
            } else {
                Some(Error::PermissionDenied)
            },
        }
    }

    /// The directory after an attempt to write `content` to the file `name`
    /// of the directory at `slot`.
    pub open spec fn file_written(self, slot: Slot, name: Seq<char>, content: Seq<u8>) -> TargetView {
        match self.at(slot) {
            EntryView::Directory(files) => if self.writable {
                self.with(slot, EntryView::Directory(written(files, name, content)))
            } else {
                self
            },
            _ => self,
        }
    }

    /// Why removing the directory at `slot` with all it holds fails, if it
    /// does.
    pub open spec fn remove_error(self, slot: Slot) -> Option<Error> {
        match self.at(slot) {
            EntryView::Absent => Some(Error::IoFailure(IoFailure::NotFound)),
            EntryView::File(_) => Some(Error::IoFailure(IoFailure::NotADirectory)),
            EntryView::Directory(_) => if self.writable {
                None
            } else {
                Some(Error::PermissionDenied)
            },
        }
    }

    /// The directory after an attempt to remove the directory at `slot`.
    pub open spec fn tree_removed(self, slot: Slot) -> TargetView {
        if self.remove_error(slot) is Some {
            self
        } else {
            self.with(slot, EntryView::Absent)
        }
    }
}

/// Where a file called `name` has a place in `files`, that place is the
/// only one.
pub proof fn lemma_place_unique(files: Seq<(Seq<char>, Seq<u8>)>, name: Seq<char>, i: int)
    requires
        is_place_of(files, name, i),
    ensures
        holds(files, name),
        (choose|k: int| is_place_of(files, name, k)) == i,
{
    let k = choose|k: int| is_place_of(files, name, k);
    assert(is_place_of(files, name, k));
    if k < i {
        assert(files[k].0 != name);
    }
    if i < k {
        assert(files[i].0 != name);
    }
}

/// Writes `content` to the file called `name` among `files`.
fn write_into(files: &mut Vec<NamedFile>, name: &str, content: Vec<u8>)
    ensures
        listing(final(files)@) == written(listing(old(files)@), name@, content@),
{
    let wanted: String = name.to_owned();
    let mut i: usize = 0;
    while i < files.len()
        invariant
            i <= files@.len(),
            files@ == old(files)@,
            wanted@ == name@,
            forall|j: int| 0 <= j < i ==> (#[trigger] listing(files@)[j]).0 != name@,
        decreases files@.len() - i,
    {
        if files[i].name == wanted {
            proof {
                assert(listing(files@)[i as int].0 == name@);
                lemma_place_unique(listing(files@), name@, i as int);
            }
            files[i].content = content;
            assert(listing(files@) =~= listing(old(files)@).update(i as int, (name@, content@)));
            return ;
        }
        assert(listing(files@)[i as int].0 != name@);
        i += 1;
    }
    proof {
        if holds(listing(files@), name@) {
            let k = choose|k: int| is_place_of(listing(files@), name@, k);
            assert(listing(files@)[k].0 != name@);
        }
    }
    files.push(NamedFile { name: wanted, content });
    assert(listing(files@) =~= listing(old(files)@).push((name@, content@)));
}

impl InstallationTarget {
    /// A writable directory in the stock shape, with `content` as the
    /// archive.
    pub fn stock(content: Vec<u8>) -> (target: InstallationTarget)
        ensures
            target@.is_stock(),
            target@.writable,
            target@.archive == EntryView::File(content@),
    {
        InstallationTarget {
            writable: true,
            archive: Entry::File(content),
            backup: Entry::Absent,
            retired: Entry::Absent,
        }
    }

    /// What stands at `slot`.
    pub fn entry(&self, slot: Slot) -> (entry: &Entry)
        ensures
            entry@ == self@.at(slot),
    {
        match slot {
            Slot::Archive => &self.archive,
            Slot::Backup => &self.backup,
            Slot::Retired => &self.retired,
        }
    }

    /// Puts `entry` at `slot` and hands back what stood there.
    fn exchange(&mut self, slot: Slot, entry: Entry) -> (previous: Entry)
        ensures
            previous@ == old(self)@.at(slot),
            final(self)@ == old(self)@.with(slot, entry@),
    {
        let mut held = entry;
        match slot {
            Slot::Archive => core::mem::swap(&mut self.archive, &mut held),
            Slot::Backup => core::mem::swap(&mut self.backup, &mut held),
            Slot::Retired => core::mem::swap(&mut self.retired, &mut held),
        }
        held
    }

    /// Renames the entry at `from` to `to`.
    pub fn rename(&mut self, from: Slot, to: Slot) -> (done: Result<(), Error>)
        ensures
            done == outcome_of(old(self)@.rename_error(from, to)),
            final(self)@ == old(self)@.renamed(from, to),
    {
        if let Entry::Absent = self.entry(from) {
            return Err(Error::IoFailure(IoFailure::NotFound));
        }
        if from == to {
            return Ok(());
        }
        if !self.writable {
            return Err(Error::PermissionDenied);
        }
        match (self.entry(from), self.entry(to)) {
            (Entry::File(_), Entry::Directory(_)) => {
                return Err(Error::IoFailure(IoFailure::IsADirectory));
            },
            (Entry::Directory(_), Entry::File(_)) => {
                return Err(Error::IoFailure(IoFailure::NotADirectory));
            },
            (Entry::Directory(_), Entry::Directory(files)) => {
                if files.len() != 0 {
                    return Err(Error::IoFailure(IoFailure::DirectoryNotEmpty));
                }
            },
            _ => {},
        }
        let moved = self.exchange(from, Entry::Absent);
        let _ = self.exchange(to, moved);
        Ok(())
    }

    /// Creates an empty directory at `slot`.
    pub fn create_dir(&mut self, slot: Slot) -> (done: Result<(), Error>)
        ensures
            done == outcome_of(old(self)@.create_dir_error(slot)),
            final(self)@ == old(self)@.dir_created(slot),
    {
        match self.entry(slot) {
            Entry::Absent => {},
            _ => {
                return Err(Error::IoFailure(IoFailure::AlreadyExists));
            },
        }
        if !self.writable {
            return Err(Error::PermissionDenied);
        }
        let _ = self.exchange(slot, Entry::Directory(Vec::new()));
        assert(listing(Seq::<NamedFile>::empty()) =~= Seq::empty());
        Ok(())
    }

    /// Writes `content` to the file `name` of the directory at `slot`,
    /// in place of what the file held.
    pub fn write_file(&mut self, slot: Slot, name: &str, content: Vec<u8>) -> (done: Result<
        (),
        Error,
    >)
        ensures
            done == outcome_of(old(self)@.write_error(slot)),
            final(self)@ == old(self)@.file_written(slot, name@, content@),
    {
        match self.entry(slot) {
            Entry::Absent => {
                return Err(Error::IoFailure(IoFailure::NotFound));
            },
            Entry::File(_) => {
                return Err(Error::IoFailure(IoFailure::NotADirectory));
            },
            Entry::Directory(_) => {},
        }
        if !self.writable {
            return Err(Error::PermissionDenied);
        }
        let taken = self.exchange(slot, Entry::Absent);
        match taken {
            Entry::Directory(mut files) => {
                write_into(&mut files, name, content);
                let _ = self.exchange(slot, Entry::Directory(files));
            },
            other => {
                let _ = self.exchange(slot, other);
            },
        }
        Ok(())
    }

    /// Removes the directory at `slot` with all it holds.
    pub fn remove_tree(&mut self, slot: Slot) -> (done: Result<(), Error>)
        ensures
            done == outcome_of(old(self)@.remove_error(slot)),
            final(self)@ == old(self)@.tree_removed(slot),
    {
        match self.entry(slot) {
            Entry::Absent => {
                return Err(Error::IoFailure(IoFailure::NotFound));
            },
            Entry::File(_) => {
                return Err(Error::IoFailure(IoFailure::NotADirectory));
            },
            Entry::Directory(_) => {},
        }
        if !self.writable {
            return Err(Error::PermissionDenied);
        }
        let _ = self.exchange(slot, Entry::Absent);
        Ok(())
    }
}

} // verus!
