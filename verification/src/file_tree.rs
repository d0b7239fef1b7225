//! What the project tree's context menus offer.

use vstd::prelude::*;

verus! {

/// An action chosen in the project tree.
#[derive(Debug)]
pub enum FileTreeAction {
    Open(String),
    Reveal(String),
    CopyPath(String),
    NewFile(String),
    NewFolder(String),
    Rename(String),
    Delete(String),
    Refresh,
}

/// The kinds of action a context menu entry stands for.
#[derive(Debug, Clone, Copy, PartialEq, Eq, Structural)]
pub enum MenuCommand {
    Open,
    Reveal,
    CopyPath,
    NewFile,
    NewFolder,
    Refresh,
    Rename,
    Delete,
}

/// The label a menu entry shows.
pub fn menu_label(command: MenuCommand) -> (res: &'static str)
    ensures
        res@ == match command {
            MenuCommand::Open => "Open"@,
            MenuCommand::Reveal => "Reveal in Finder"@,
            MenuCommand::CopyPath => "Copy Path"@,
            MenuCommand::NewFile => "New File"@,
            MenuCommand::NewFolder => "New Folder"@,
            MenuCommand::Refresh => "Refresh"@,
            MenuCommand::Rename => "Rename"@,
            MenuCommand::Delete => "Delete"@,
        },
{
    match command {
        MenuCommand::Open => "Open",
        MenuCommand::Reveal => "Reveal in Finder",
        MenuCommand::CopyPath => "Copy Path",
        MenuCommand::NewFile => "New File",
        MenuCommand::NewFolder => "New Folder",
        MenuCommand::Refresh => "Refresh",
        MenuCommand::Rename => "Rename",
        MenuCommand::Delete => "Delete",
    }
}

/// The action a menu entry triggers for the entry at `path`.
pub fn menu_action(command: MenuCommand, path: String) -> (res: FileTreeAction)
    ensures
        match command {
            MenuCommand::Open => res matches FileTreeAction::Open(p) && p == path,
            MenuCommand::Reveal => res matches FileTreeAction::Reveal(p) && p == path,
            MenuCommand::CopyPath => res matches FileTreeAction::CopyPath(p) && p == path,
            MenuCommand::NewFile => res matches FileTreeAction::NewFile(p) && p == path,
            MenuCommand::NewFolder => res matches FileTreeAction::NewFolder(p) && p == path,
            MenuCommand::Refresh => res matches FileTreeAction::Refresh,
            MenuCommand::Rename => res matches FileTreeAction::Rename(p) && p == path,
            MenuCommand::Delete => res matches FileTreeAction::Delete(p) && p == path,
        },
{
    match command {
        MenuCommand::Open => FileTreeAction::Open(path),
        MenuCommand::Reveal => FileTreeAction::Reveal(path),
        MenuCommand::CopyPath => FileTreeAction::CopyPath(path),
        MenuCommand::NewFile => FileTreeAction::NewFile(path),
        MenuCommand::NewFolder => FileTreeAction::NewFolder(path),
        MenuCommand::Refresh => FileTreeAction::Refresh,
        MenuCommand::Rename => FileTreeAction::Rename(path),
        MenuCommand::Delete => FileTreeAction::Delete(path),
    }
}

/// The context menu of a file, in groups shown between separators.
pub open spec fn spec_file_menu() -> Seq<Seq<MenuCommand>> {
    seq![
        seq![MenuCommand::Open],
        seq![MenuCommand::Reveal, MenuCommand::CopyPath],
        seq![MenuCommand::Rename, MenuCommand::Delete],
    ]
}

/// The context menu of a folder, in groups shown between separators; the project's own
/// folder cannot be renamed or deleted from it.
pub open spec fn spec_folder_menu(is_project_root: bool) -> Seq<Seq<MenuCommand>> {
    let common = seq![
        seq![MenuCommand::Reveal, MenuCommand::CopyPath],
        seq![MenuCommand::NewFile, MenuCommand::NewFolder],
        seq![MenuCommand::Refresh],
    ];
    if is_project_root {
        common
    } else {
        common.push(seq![MenuCommand::Rename, MenuCommand::Delete])
    }
}

pub open spec fn menu_view(menu: Seq<Vec<MenuCommand>>) -> Seq<Seq<MenuCommand>> {
    menu.map_values(|g: Vec<MenuCommand>| g@)
}

fn group1(a: MenuCommand) -> (res: Vec<MenuCommand>)
    ensures
        res@ == seq![a],
{
    let mut g = Vec::new();
    g.push(a);
    g
}

fn group2(a: MenuCommand, b: MenuCommand) -> (res: Vec<MenuCommand>)
    ensures
        res@ == seq![a, b],
{
    let mut g = Vec::new();
    g.push(a);
    g.push(b);
    g
}

/// The entries of a file's context menu.
pub fn file_menu() -> (res: Vec<Vec<MenuCommand>>)
    ensures
        menu_view(res@) == spec_file_menu(),
{
    let mut menu: Vec<Vec<MenuCommand>> = Vec::new();
    menu.push(group1(MenuCommand::Open));
    menu.push(group2(MenuCommand::Reveal, MenuCommand::CopyPath));
    menu.push(group2(MenuCommand::Rename, MenuCommand::Delete));
    assert(menu_view(menu@) =~= spec_file_menu());
    menu
}

/// The entries of a folder's context menu.
pub fn folder_menu(is_project_root: bool) -> (res: Vec<Vec<MenuCommand>>)
    ensures
        menu_view(res@) == spec_folder_menu(is_project_root),
{
    let mut menu: Vec<Vec<MenuCommand>> = Vec::new();
    menu.push(group2(MenuCommand::Reveal, MenuCommand::CopyPath));
    menu.push(group2(MenuCommand::NewFile, MenuCommand::NewFolder));
    menu.push(group1(MenuCommand::Refresh));
    if !is_project_root {
        menu.push(group2(MenuCommand::Rename, MenuCommand::Delete));
    }
    assert(menu_view(menu@) =~= spec_folder_menu(is_project_root));
    menu
}

} // verus!
