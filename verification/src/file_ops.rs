//! The file operations of the bridge: what each one may do to the path it is
//! given, and how the items of a directory become a listing.

use vstd::prelude::*;
use crate::decimal::{decimal, to_decimal};
use crate::error::{FsError, FsErrorView, FsStep};
use crate::path_guard::{child_text, GuardedPath};

verus! {

/// What kind of thing a path names.
#[derive(Clone, Copy, Debug, PartialEq, Eq, Structural)]
pub enum EntryKind {
    File,
    Directory,
    /// Neither a regular file nor a directory.
    Other,
}

/// What the file system told of the path of an operation.
#[derive(Debug)]
pub enum Probe {
    /// Nothing exists at the path.
    Missing,
    /// Something of the given kind exists at the path.
    Found(EntryKind),
    /// The file system could not tell, for the given reason.
    Failed { reason: String },
}

/// The mathematical value of a [`Probe`].
pub enum ProbeView {
    Missing,
    Found(EntryKind),
    Failed { reason: Seq<char> },
}

impl View for Probe {
    type V = ProbeView;

    open spec fn view(&self) -> ProbeView {
        match *self {
            Probe::Missing => ProbeView::Missing,
            Probe::Found(kind) => ProbeView::Found(kind),
            Probe::Failed { reason } => ProbeView::Failed { reason: reason@ },
        }
    }
}

/// What reading one item of a directory gave.
#[derive(Debug)]
pub enum DirItem {
    /// The item itself could not be read.
    Unreadable { reason: String },
    /// The item was read, its type was not.
    TypeUnknown { reason: String },
    /// The item and its type were read, its metadata was not.
    MetadataUnknown { reason: String },
    /// The item was read in full. `modified_secs` counts the seconds from the
    /// Unix epoch to the last change, where the platform tells.
    Found { name: String, kind: EntryKind, len: u64, modified_secs: Option<u64> },
}

/// The mathematical value of a [`DirItem`].
pub enum DirItemView {
    Unreadable { reason: Seq<char> },
    TypeUnknown { reason: Seq<char> },
    MetadataUnknown { reason: Seq<char> },
    Found { name: Seq<char>, kind: EntryKind, len: u64, modified_secs: Option<u64> },
}

impl View for DirItem {
    type V = DirItemView;

    open spec fn view(&self) -> DirItemView {
        match *self {
            DirItem::Unreadable { reason } => DirItemView::Unreadable { reason: reason@ },
            DirItem::TypeUnknown { reason } => DirItemView::TypeUnknown { reason: reason@ },
            DirItem::MetadataUnknown { reason } => DirItemView::MetadataUnknown { reason: reason@ },
            DirItem::Found { name, kind, len, modified_secs } => DirItemView::Found {
                name: name@,
                kind,
                len,
                modified_secs,
            },
        }
    }
}

impl DeepView for DirItem {
    type V = DirItemView;

    open spec fn deep_view(&self) -> DirItemView {
        self@
    }
}

/// One line of a directory listing.
#[derive(Debug)]
pub struct FileEntry {
    pub name: String,
    /// The absolute path of the entry.
    pub path: String,
    pub is_directory: bool,
    /// The length in bytes; present for regular files only.
    pub size: Option<u64>,
    /// The time of the last change, in seconds since the Unix epoch and in
    /// decimal notation; absent where the platform does not tell.
    pub modified: Option<String>,
}

/// The mathematical value of a [`FileEntry`].
pub struct FileEntryView {
    pub name: Seq<char>,
    pub path: Seq<char>,
    pub is_directory: bool,
    pub size: Option<u64>,
    pub modified: Option<Seq<char>>,
}

impl View for FileEntry {
    type V = FileEntryView;

    open spec fn view(&self) -> FileEntryView {
        FileEntryView {
            name: self.name@,
            path: self.path@,
            is_directory: self.is_directory,
            size: self.size,
            modified: match self.modified {
                Some(m) => Some(m@),
                None => None,
            },
        }
    }
}

impl DeepView for FileEntry {
    type V = FileEntryView;

    open spec fn deep_view(&self) -> FileEntryView {
        self@
    }
}

/// The listing line of an item with the given properties: a size for regular
/// files only, the directory flag for directories only, and the time of the
/// last change in decimal notation.
pub open spec fn entry_of(
    name: Seq<char>,
    path: Seq<char>,
    kind: EntryKind,
    len: u64,
    modified_secs: Option<u64>,
) -> FileEntryView {
    FileEntryView {
        name,
        path,
        is_directory: kind == EntryKind::Directory,
        size: if kind == EntryKind::File {
            Some(len)
        } else {
            None
        },
        modified: match modified_secs {
            Some(secs) => Some(decimal(secs as nat)),
            None => None,
        },
    }
}

/// True for an item that makes a listing fail: every item but one that was
/// read in full.
pub open spec fn is_failure(item: DirItemView) -> bool {
    !(item is Found)
}

/// The error that a failing item gives: the file system's own account, at
/// the step that failed.
pub open spec fn failure_of(item: DirItemView) -> FsErrorView {
    match item {
        DirItemView::Unreadable { reason } => FsErrorView::IoError {
            step: FsStep::ReadDirectory,
            reason,
        },
        DirItemView::TypeUnknown { reason } => FsErrorView::IoError { step: FsStep::FileType, reason },
        DirItemView::MetadataUnknown { reason } => FsErrorView::IoError {
            step: FsStep::Metadata,
            reason,
        },
        DirItemView::Found { .. } => arbitrary(),
    }
}

/// True when `i` is the place of the first failing item of `items`.
pub open spec fn is_first_failure(items: Seq<DirItemView>, i: int) -> bool {
    &&& 0 <= i < items.len()
    &&& is_failure(items[i])
    &&& forall|j: int| 0 <= j < i ==> !is_failure(#[trigger] items[j])
}

/// The line that an item of the directory `dir` gives where it was read in
/// full: its path is that of the directory followed by its name.
pub open spec fn line_of(dir: Seq<Seq<char>>, item: DirItemView) -> FileEntryView {
    match item {
        DirItemView::Found { name, kind, len, modified_secs } => entry_of(
            name,
            child_text(dir, name),
            kind,
            len,
            modified_secs,
        ),
        _ => arbitrary(),
    }
}

/// The listing of the directory `dir` whose items are `items`: one line for
/// each item, in the same place.
pub open spec fn lines_of(dir: Seq<Seq<char>>, items: Seq<DirItemView>) -> Seq<FileEntryView> {
    Seq::new(items.len(), |i: int| line_of(dir, items[i]))
}

/// The listing line of one item that was read in full.
pub fn file_entry(
    name: &String,
    path: String,
    kind: EntryKind,
    len: u64,
    modified_secs: Option<u64>,
) -> (entry: FileEntry)
    ensures
        entry@ == entry_of(name@, path@, kind, len, modified_secs),
{
    let size = match kind {
        EntryKind::File => Some(len),
        _ => None,
    };
    let is_directory = match kind {
        EntryKind::Directory => true,
        _ => false,
    };
    let modified = match modified_secs {
        Some(secs) => Some(to_decimal(secs)),
        None => None,
    };
    FileEntry { name: name.clone(), path, is_directory, size, modified }
}

/// Turns the items of the admitted directory `dir` into its listing.
///
/// Every failure is reported: the first item that could not be read, or
/// whose type or metadata could not be read, makes the whole listing fail
/// with that item's error. Otherwise every item gives one line, in the
/// order in which the items came, with the path that it has in `dir`.
pub fn list_files(dir: &GuardedPath, items: &Vec<DirItem>) -> (result: Result<
    Vec<FileEntry>,
    FsError,
>)
    ensures
        match result {
            Ok(entries) => {
                &&& forall|i: int| 0 <= i < items.len() ==> !is_failure(#[trigger] items[i]@)
                &&& entries.deep_view() == lines_of(dir@, items.deep_view())
            },
            Err(e) => exists|i: int| #[trigger]
                is_first_failure(items.deep_view(), i) && e@ == failure_of(items[i]@),
        },
{
    let mut entries: Vec<FileEntry> = Vec::new();
    let mut i: usize = 0;
    while i < items.len()
        invariant
            i <= items.len(),
            forall|j: int| 0 <= j < i ==> !is_failure(#[trigger] items[j]@),
            entries.len() == i,
            forall|j: int| 0 <= j < i ==> (#[trigger] entries[j])@ == line_of(dir@, items[j]@),
        decreases items.len() - i,
    {
        match &items[i] {
            DirItem::Unreadable { reason } => {
                proof {
                    assert(is_first_failure(items.deep_view(), i as int));
                }
                return Err(
                    FsError::IoError { step: FsStep::ReadDirectory, reason: reason.clone() },
                );
            },
            DirItem::TypeUnknown { reason } => {
                proof {
                    assert(is_first_failure(items.deep_view(), i as int));
                }
                return Err(FsError::IoError { step: FsStep::FileType, reason: reason.clone() });
            },
            DirItem::MetadataUnknown { reason } => {
                proof {
                    assert(is_first_failure(items.deep_view(), i as int));
                }
                return Err(FsError::IoError { step: FsStep::Metadata, reason: reason.clone() });
            },
            DirItem::Found { name, kind, len, modified_secs } => {
                let path = dir.child_text(name.as_str());
                let entry = file_entry(name, path, *kind, *len, *modified_secs);
                entries.push(entry);
            },
        }
        i += 1;
    }
    proof {
        assert(entries.deep_view() =~= lines_of(dir@, items.deep_view()));
    }
    Ok(entries)
}

/// The operations of the bridge.
#[derive(Clone, Copy, Debug, PartialEq, Eq, Structural)]
pub enum Operation {
    /// Enumerate the direct children of a directory.
    List,
    /// Return the whole content of a file.
    Read,
    /// Create a file or replace its content; parents are not created.
    Write,
    /// Create a directory and every missing ancestor.
    Mkdir,
    /// Remove a file, or a directory with all that it holds.
    Delete,
}

/// What the file system is asked to do for an operation.
#[derive(Clone, Copy, Debug, PartialEq, Eq, Structural)]
pub enum FsAction {
    ReadDirectory,
    ReadFile,
    WriteFile,
    CreateDirectories,
    RemoveTree,
    RemoveFile,
}

/// What an operation does where something of kind `found` exists at its
/// path, or nothing (`None`).
///
/// Listing needs a directory and reading needs something that is none;
/// deleting needs anything at all and removes a directory as a tree.
/// Writing and making a directory go ahead whatever was found, so that
/// making a directory that exists succeeds.
pub open spec fn planned_for(op: Operation, found: Option<EntryKind>) -> Result<
    FsAction,
    FsErrorView,
> {
    match op {
        Operation::List => match found {
            None => Err(FsErrorView::NotFound),
            Some(EntryKind::Directory) => Ok(FsAction::ReadDirectory),
            Some(_) => Err(FsErrorView::NotADirectory),
        },
        Operation::Read => match found {
            None => Err(FsErrorView::NotFound),
            Some(EntryKind::Directory) => Err(FsErrorView::IsADirectory),
            Some(_) => Ok(FsAction::ReadFile),
        },
        Operation::Write => Ok(FsAction::WriteFile),
        Operation::Mkdir => Ok(FsAction::CreateDirectories),
        Operation::Delete => match found {
            None => Err(FsErrorView::NotFound),
            Some(EntryKind::Directory) => Ok(FsAction::RemoveTree),
            Some(_) => Ok(FsAction::RemoveFile),
        },
    }
}

/// What an operation does, given what the file system told of its path.
///
/// Where the file system could not tell, no operation goes ahead: the
/// failure is reported with the file system's own account. Otherwise see
/// [`planned_for`].
pub open spec fn planned(op: Operation, probe: ProbeView) -> Result<FsAction, FsErrorView> {
    match probe {
        ProbeView::Failed { reason } => Err(FsErrorView::IoError { step: FsStep::Metadata, reason }),
        ProbeView::Missing => planned_for(op, None),
        ProbeView::Found(kind) => planned_for(op, Some(kind)),
    }
}

/// The step at which an action fails when the file system refuses it.
pub open spec fn step_of(action: FsAction) -> FsStep {
    match action {
        FsAction::ReadDirectory => FsStep::ReadDirectory,
        FsAction::ReadFile => FsStep::ReadFile,
        FsAction::WriteFile => FsStep::WriteFile,
        FsAction::CreateDirectories => FsStep::CreateDirectory,
        FsAction::RemoveTree => FsStep::DeleteDirectory,
        FsAction::RemoveFile => FsStep::DeleteFile,
    }
}

/// An action on a path that the guard has admitted.
#[derive(Debug)]
pub struct FsTask {
    pub action: FsAction,
    pub target: GuardedPath,
}

/// Decides what `op` does to the admitted path `target`, of which the file
/// system told `probe`.
pub fn plan(op: Operation, target: GuardedPath, probe: Probe) -> (result: Result<FsTask, FsError>)
    ensures
        match result {
            Ok(task) => {
                &&& planned(op, probe@) matches Ok(action)
                &&& task.action == action
                &&& task.target == target
            },
            Err(e) => planned(op, probe@) matches Err(error) && e@ == error,
        },
{
    let found = match probe {
        Probe::Failed { reason } => {
            return Err(FsError::IoError { step: FsStep::Metadata, reason });
        },
        Probe::Missing => None,
        Probe::Found(kind) => Some(kind),
    };
    match op {
        Operation::List => match found {
            None => Err(FsError::NotFound),
            Some(EntryKind::Directory) => Ok(FsTask { action: FsAction::ReadDirectory, target }),
            Some(_) => Err(FsError::NotADirectory),
        },
        Operation::Read => match found {
            None => Err(FsError::NotFound),
            Some(EntryKind::Directory) => Err(FsError::IsADirectory),
            Some(_) => Ok(FsTask { action: FsAction::ReadFile, target }),
        },
        Operation::Write => Ok(FsTask { action: FsAction::WriteFile, target }),
        Operation::Mkdir => Ok(FsTask { action: FsAction::CreateDirectories, target }),
        Operation::Delete => match found {
            None => Err(FsError::NotFound),
            Some(EntryKind::Directory) => Ok(FsTask { action: FsAction::RemoveTree, target }),
            Some(_) => Ok(FsTask { action: FsAction::RemoveFile, target }),
        },
    }
}

/// The error for an action that the file system refused, with the file
/// system's own account of it.
pub fn io_failure(action: FsAction, reason: String) -> (e: FsError)
    ensures
        e@ == (FsErrorView::IoError { step: step_of(action), reason: reason@ }),
{
    let step = match action {
        FsAction::ReadDirectory => FsStep::ReadDirectory,
        FsAction::ReadFile => FsStep::ReadFile,
        FsAction::WriteFile => FsStep::WriteFile,
        FsAction::CreateDirectories => FsStep::CreateDirectory,
        FsAction::RemoveTree => FsStep::DeleteDirectory,
        FsAction::RemoveFile => FsStep::DeleteFile,
    };
    FsError::IoError { step, reason }
}

} // verus!
