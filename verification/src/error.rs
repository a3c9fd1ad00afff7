//! The errors of the file operations, and what the user is told of them.

use vstd::prelude::*;

verus! {

/// The step of an operation at which the file system failed.
#[derive(Clone, Copy, Debug, PartialEq, Eq, Structural)]
pub enum FsStep {
    /// Asking the file system where a path really leads.
    ResolvePath,
    ReadDirectory,
    FileType,
    Metadata,
    ReadFile,
    WriteFile,
    CreateDirectory,
    DeleteDirectory,
    DeleteFile,
}

/// Why a file operation was refused or failed.
#[derive(Debug)]
pub enum FsError {
    /// The path leads out of the shared folder.
    PathEscape,
    /// Nothing exists at the path.
    NotFound,
    /// A directory was asked for and the path names something else.
    NotADirectory,
    /// A file was asked for and the path names a directory.
    IsADirectory,
    /// The file system failed at `step`; `reason` is its own account of it.
    IoError { step: FsStep, reason: String },
}

/// The mathematical value of an [`FsError`].
pub enum FsErrorView {
    PathEscape,
    NotFound,
    NotADirectory,
    IsADirectory,
    IoError { step: FsStep, reason: Seq<char> },
}

impl View for FsError {
    type V = FsErrorView;

    open spec fn view(&self) -> FsErrorView {
        match *self {
            FsError::PathEscape => FsErrorView::PathEscape,
            FsError::NotFound => FsErrorView::NotFound,
            FsError::NotADirectory => FsErrorView::NotADirectory,
            FsError::IsADirectory => FsErrorView::IsADirectory,
            FsError::IoError { step, reason } => FsErrorView::IoError { step, reason: reason@ },
        }
    }
}

/// The words that introduce a failure at `step`.
pub open spec fn step_prefix(step: FsStep) -> Seq<char> {
    match step {
        FsStep::ResolvePath => "Failed to resolve path: "@,
        FsStep::ReadDirectory => "Failed to read directory: "@,
        FsStep::FileType => "Failed to get file type: "@,
        FsStep::Metadata => "Failed to get metadata: "@,
        FsStep::ReadFile => "Failed to read file: "@,
        FsStep::WriteFile => "Failed to write file: "@,
        FsStep::CreateDirectory => "Failed to create directory: "@,
        FsStep::DeleteDirectory => "Failed to delete directory: "@,
        FsStep::DeleteFile => "Failed to delete file: "@,
    }
}

/// What the user is told of an error.
pub open spec fn message_of(e: FsErrorView) -> Seq<char> {
    match e {
        FsErrorView::PathEscape => "Path is outside the shared folder"@,
        FsErrorView::NotFound => "Path does not exist"@,
        FsErrorView::NotADirectory => "Path is not a directory"@,
        FsErrorView::IsADirectory => "Path is a directory"@,
        FsErrorView::IoError { step, reason } => step_prefix(step) + reason,
    }
}

impl FsError {
    /// What the user is told of the error: for a failure of the file system
    /// the step's words followed by the file system's account, unchanged.
    pub fn message(&self) -> (text: String)
        ensures
            text@ == message_of(self@),
    {
        match self {
            FsError::PathEscape => String::from_str("Path is outside the shared folder"),
            FsError::NotFound => String::from_str("Path does not exist"),
            FsError::NotADirectory => String::from_str("Path is not a directory"),
            FsError::IsADirectory => String::from_str("Path is a directory"),
            FsError::IoError { step, reason } => {
                let prefix = match step {
                    FsStep::ResolvePath => "Failed to resolve path: ",
                    FsStep::ReadDirectory => "Failed to read directory: ",
                    FsStep::FileType => "Failed to get file type: ",
                    FsStep::Metadata => "Failed to get metadata: ",
                    FsStep::ReadFile => "Failed to read file: ",
                    FsStep::WriteFile => "Failed to write file: ",
                    FsStep::CreateDirectory => "Failed to create directory: ",
                    FsStep::DeleteDirectory => "Failed to delete directory: ",
                    FsStep::DeleteFile => "Failed to delete file: ",
                };
                let mut text = String::from_str(prefix);
                text.append(reason.as_str());
                text
            },
        }
    }
}

} // verus!
