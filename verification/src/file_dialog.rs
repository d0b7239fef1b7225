//! State of the dialogs that name, rename and confirm.

use vstd::prelude::*;

verus! {

/// An open naming dialog: what it is for, the folder or entry it acts on, and the name
/// typed so far.
#[derive(Debug)]
pub struct FileDialogState {
    pub kind: FileDialogKind,
    pub target: String,
    pub value: String,
}

/// What a naming dialog is for.
#[derive(Debug, Clone, Copy, PartialEq, Eq, Structural)]
pub enum FileDialogKind {
    NewFile,
    NewFolder,
    Rename,
}

/// How a dialog was closed.
#[derive(Debug, Clone, Copy, PartialEq, Eq, Structural)]
pub enum DialogResponse {
    Apply,
    Cancel,
}

/// The answer to the question whether unsaved changes are saved first.
#[derive(Debug, Clone, Copy, PartialEq, Eq, Structural)]
pub enum UnsavedResponse {
    Save,
    Discard,
    Cancel,
}

/// The title of a naming dialog.
pub fn dialog_title(kind: FileDialogKind) -> (res: &'static str)
    ensures
        res@ == match kind {
            FileDialogKind::NewFile => "New File"@,
            FileDialogKind::NewFolder => "New Folder"@,
            FileDialogKind::Rename => "Rename"@,
        },
{
    match kind {
        FileDialogKind::NewFile => "New File",
        FileDialogKind::NewFolder => "New Folder",
        FileDialogKind::Rename => "Rename",
    }
}

} // verus!
