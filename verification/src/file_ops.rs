//! Naming and locating entries of the project folder.

use vstd::prelude::*;
use crate::compiler::{apple_script_string, spec_apple_script_string};
use crate::file_dialog::FileDialogKind;
use crate::paths::{
    is_bare_name, name_extension, name_stem, path_eq, path_exists, path_extension,
    path_file_stem, path_join, path_parent, path_starts_with, spec_extension, spec_file_stem,
    spec_join, spec_parent, spec_path_eq, spec_starts_with,
};
use vstd::string::StringExecFns;
use crate::text::{
    chars_of, concat2, concat4, decimal, i32_to_string, push_decimal, signed_decimal,
    string_from_chars,
};

verus! {

/// The name offered for the `index`-th alternative to `preferred`: its stem, a space,
/// the index, and its extension when it has one (`untitled 2.cpp`, `New Folder 3`).
pub open spec fn spec_candidate_name(preferred: Seq<char>, index: nat) -> Seq<char> {
    let stem = match spec_file_stem(preferred) {
        Some(s) => s,
        None => Seq::empty(),
    };
    match spec_extension(preferred) {
        Some(ext) => stem + seq![' '] + decimal(index) + seq!['.'] + ext,
        None => stem + seq![' '] + decimal(index),
    }
}

/// The `index`-th alternative to a bare name, worked out from the name itself.
pub open spec fn bare_candidate_name(preferred: Seq<char>, index: nat) -> Seq<char> {
    match name_extension(preferred) {
        Some(ext) => name_stem(preferred) + seq![' '] + decimal(index) + seq!['.'] + ext,
        None => name_stem(preferred) + seq![' '] + decimal(index),
    }
}

/// The `index`-th name tried for a new entry named after a bare name.
pub open spec fn bare_tried_name(preferred: Seq<char>, index: nat) -> Seq<char> {
    if index <= 1 {
        preferred
    } else {
        bare_candidate_name(preferred, index)
    }
}

/// The `index`-th alternative name to `preferred`.
pub fn candidate_name(preferred: &str, index: usize) -> (res: String)
    ensures
        res@ == spec_candidate_name(preferred@, index as nat),
        is_bare_name(preferred@) ==> res@ == bare_candidate_name(preferred@, index as nat),
{
    let stem = match path_file_stem(preferred) {
        Some(s) => s,
        None => String::new(),
    };
    let extension = path_extension(preferred);
    let mut out = chars_of(stem.as_str());
    out.push(' ');
    push_decimal(index, &mut out);
    match extension {
        Some(ext) => {
            out.push('.');
            let e = chars_of(ext.as_str());
            let mut i: usize = 0;
            let ghost base = out@;
            while i < e.len()
                invariant
                    out@ == base + e@.take(i as int),
                    i <= e.len(),
                decreases e.len() - i,
            {
                out.push(e[i]);
                i += 1;
                assert(out@ =~= base + e@.take(i as int));
            }
            assert(e@.take(e.len() as int) =~= e@);
        },
        None => {},
    }
    string_from_chars(out.as_slice())
}

/// The `index`-th name tried for a new entry: `preferred` itself first (index 1), then
/// its numbered alternatives.
pub open spec fn spec_tried_name(preferred: Seq<char>, index: nat) -> Seq<char> {
    if index <= 1 {
        preferred
    } else {
        spec_candidate_name(preferred, index)
    }
}

/// The `index`-th name tried for a new entry.
fn tried_name(preferred: &str, index: usize) -> (res: String)
    ensures
        res@ == spec_tried_name(preferred@, index as nat),
        is_bare_name(preferred@) ==> res@ == bare_tried_name(preferred@, index as nat),
{
    if index <= 1 {
        preferred.to_owned()
    } else {
        candidate_name(preferred, index)
    }
}

/// The name chosen once the names tried in turn were found taken or free (`taken[i]`
/// for the `i + 1`-th name): the first free one, or `preferred` when none was.
pub fn choose_child_name(preferred: &str, taken: &[bool]) -> (res: String)
    requires
        taken.len() < 1000,
    ensures
        (forall|j: int| 0 <= j < taken.len() ==> taken[j]) ==> res@ == preferred@,
        forall|i: int|
            0 <= i < taken.len() && !taken[i] && (forall|j: int| 0 <= j < i ==> taken[j])
                ==> res@ == spec_tried_name(preferred@, (i + 1) as nat),
        is_bare_name(preferred@) ==> forall|i: int|
            0 <= i < taken.len() && !taken[i] && (forall|j: int| 0 <= j < i ==> taken[j])
                ==> res@ == bare_tried_name(preferred@, (i + 1) as nat),
{
    let mut i: usize = 0;
    while i < taken.len()
        invariant
            i <= taken.len() < 1000,
            forall|j: int| 0 <= j < i ==> taken[j],
        decreases taken.len() - i,
    {
        if !taken[i] {
            return tried_name(preferred, i + 1);
        }
        i += 1;
    }
    preferred.to_owned()
}

/// When some name was free, there is a first free one.
proof fn lemma_first_free(taken: Seq<bool>) -> (k: int)
    requires
        exists|j: int| 0 <= j < taken.len() && !taken[j],
    ensures
        0 <= k < taken.len(),
        !taken[k],
        forall|j: int| 0 <= j < k ==> taken[j],
    decreases taken.len(),
{
    if !taken[0] {
        0
    } else {
        let j = choose|j: int| 0 <= j < taken.len() && !taken[j];
        assert(taken.drop_first()[j - 1] == taken[j]);
        let k = lemma_first_free(taken.drop_first());
        assert forall|i: int| 0 <= i < k + 1 implies taken[i] by {
            if i > 0 {
                assert(taken[i] == taken.drop_first()[i - 1]);
            }
        }
        k + 1
    }
}

/// A name for a new entry of folder `dir`: `preferred` when no entry of that name exists,
/// else the first of its alternatives numbered 2 to 999 that is free; `preferred` again
/// when all are taken. Which names are free depends on the disk: the names are tried in
/// turn until one is free, and `choose_child_name` picks from the answers.
pub fn unique_child_name(dir: &str, preferred: &str) -> (res: String)
    ensures
        res@ == preferred@ || exists|i: nat| 2 <= i < 1000 && res@ == spec_candidate_name(preferred@, i),
        is_bare_name(preferred@) ==> (res@ == preferred@ || exists|i: nat|
            2 <= i < 1000 && res@ == bare_candidate_name(preferred@, i)),
{
    let mut taken: Vec<bool> = Vec::new();
    let mut index: usize = 1;
    while index < 1000
        invariant_except_break
            1 <= index <= 1000,
            taken.len() == index - 1,
        ensures
            taken.len() < 1000,
        decreases 1000 - index,
    {
        let name = tried_name(preferred, index);
        let exists = path_exists(path_join(dir, name.as_str()).as_str());
        taken.push(exists);
        if !exists {
            break;
        }
        index += 1;
    }
    let res = choose_child_name(preferred, taken.as_slice());
    proof {
        if res@ != preferred@ {
            let k = lemma_first_free(taken@);
            assert(res@ == spec_tried_name(preferred@, (k + 1) as nat));
            assert(2 <= k + 1 < 1000);
            assert(res@ == spec_candidate_name(preferred@, (k + 1) as nat));
            if is_bare_name(preferred@) {
                assert(res@ == bare_candidate_name(preferred@, (k + 1) as nat));
            }
        }
    }
    res
}

/// Where a naming dialog of `kind` on `target` puts the entry named `name`: inside the
/// folder `target` for a new file or folder, beside `target` for a rename; `None` for a
/// rename of a path without a parent folder.
pub open spec fn spec_destination(kind: FileDialogKind, target: Seq<char>, name: Seq<char>) -> Option<Seq<char>> {
    match kind {
        FileDialogKind::Rename => match spec_parent(target) {
            Some(dir) => Some(spec_join(dir, name)),
            None => None,
        },
        _ => Some(spec_join(target, name)),
    }
}

/// The refusal of a rename of a path without a parent folder.
pub open spec fn no_parent_message() -> Seq<char> {
    "Cannot rename a path without a parent folder."@
}

/// The refusal reported when an entry already lies at `path`, where a naming dialog of
/// `kind` would put its entry.
pub open spec fn spec_existing_message(kind: FileDialogKind, path: Seq<char>) -> Seq<char> {
    match kind {
        FileDialogKind::NewFile => "File already exists: "@ + path,
        FileDialogKind::NewFolder => "Folder already exists: "@ + path,
        FileDialogKind::Rename => "Target already exists: "@ + path,
    }
}

/// Where a naming dialog of `kind` on `target` puts the entry named `name`, or the
/// refusal of a rename of a path without a parent folder.
pub fn dialog_destination(kind: FileDialogKind, target: &str, name: &str) -> (res: Result<String, String>)
    ensures
        match spec_destination(kind, target@, name@) {
            Some(d) => res matches Ok(p) && p@ == d,
            None => res matches Err(e) && e@ == no_parent_message(),
        },
{
    match kind {
        FileDialogKind::Rename => match path_parent(target) {
            Some(dir) => Ok(path_join(dir.as_str(), name)),
            None => Err("Cannot rename a path without a parent folder.".to_owned()),
        },
        _ => Ok(path_join(target, name)),
    }
}

/// The refusal reported when an entry already lies at `path`.
pub fn existing_message(kind: FileDialogKind, path: &str) -> (res: String)
    ensures
        res@ == spec_existing_message(kind, path@),
{
    match kind {
        FileDialogKind::NewFile => concat2("File already exists: ", path),
        FileDialogKind::NewFolder => concat2("Folder already exists: ", path),
        FileDialogKind::Rename => concat2("Target already exists: ", path),
    }
}

/// The destination of a naming dialog once the disk told whether an entry already lies
/// there (`taken`): the destination when it is free, else the refusal.
pub fn check_destination(kind: FileDialogKind, destination: String, taken: bool) -> (res: Result<String, String>)
    ensures
        taken ==> (res matches Err(e) && e@ == spec_existing_message(kind, destination@)),
        !taken ==> res == Ok::<String, String>(destination),
{
    if taken {
        Err(existing_message(kind, destination.as_str()))
    } else {
        Ok(destination)
    }
}

/// Where a naming dialog of `kind` on `target` puts the entry named `name`, provided no
/// entry lies there yet. Whether one does depends on the disk, so an `Err` is either
/// the refusal of a rename without a parent folder or that of a taken destination.
pub fn free_destination(kind: FileDialogKind, target: &str, name: &str) -> (res: Result<String, String>)
    ensures
        match spec_destination(kind, target@, name@) {
            Some(d) => match res {
                Ok(p) => p@ == d,
                Err(e) => e@ == spec_existing_message(kind, d),
            },
            None => res matches Err(e) && e@ == no_parent_message(),
        },
{
    let destination = dialog_destination(kind, target, name)?;
    let taken = path_exists(destination.as_str());
    check_destination(kind, destination, taken)
}

/// The message that reports that the file system failed, with error `err`, to make the
/// entry of a naming dialog of `kind` on `target` at `destination`.
pub fn failure_message(kind: FileDialogKind, target: &str, destination: &str, err: &str) -> (res: String)
    ensures
        res@ == match kind {
            FileDialogKind::NewFile => "Could not create file "@ + destination@ + ": "@ + err@,
            FileDialogKind::NewFolder => "Could not create folder "@ + destination@ + ": "@ + err@,
            FileDialogKind::Rename => "Could not rename "@ + target@ + " to "@ + destination@
                + ": "@ + err@,
        },
{
    match kind {
        FileDialogKind::NewFile => concat4("Could not create file ", destination, ": ", err),
        FileDialogKind::NewFolder => concat4("Could not create folder ", destination, ": ", err),
        FileDialogKind::Rename => {
            let mut message = concat4("Could not rename ", target, " to ", destination);
            message.append(": ");
            message.append(err);
            message
        },
    }
}

/// How a request to Finder to move an entry to the Trash went, from the script's exit
/// status: success, or an error naming the exit code (-1 when there was none).
pub fn trash_outcome(success: bool, code: Option<i32>) -> (res: Result<(), String>)
    ensures
        success ==> res is Ok,
        !success ==> (res matches Err(e) && e@ == "Finder returned exit code "@ + signed_decimal(
            match code {
                Some(c) => c as int,
                None => -1,
            },
        )),
{
    if success {
        Ok(())
    } else {
        let c: i32 = match code {
            Some(c) => c,
            None => -1,
        };
        Err(concat2("Finder returned exit code ", i32_to_string(c).as_str()))
    }
}

/// Whether the path `child` is the path `container` itself or lies inside it
/// (component-wise).
pub open spec fn spec_path_contains(container: Seq<char>, child: Seq<char>) -> bool {
    spec_path_eq(child, container) || spec_starts_with(child, container)
}

/// Whether `child` is `container` itself or lies inside it (component-wise); a path
/// always contains itself, and what lies in `child` lies in `container` too when `child`
/// does.
pub fn path_contains(container: &str, child: &str) -> (res: bool)
    ensures
        res == spec_path_contains(container@, child@),
        container@ == child@ ==> res,
        res ==> forall|x: Seq<char>|
            #[trigger] spec_path_contains(child@, x) ==> spec_path_contains(container@, x),
{
    path_eq(child, container) || path_starts_with(child, container)
}

/// The AppleScript that asks Finder to move `path` to the Trash.
pub fn trash_script(path: &str) -> (res: String)
    ensures
        res@ == "tell application \"Finder\" to delete POSIX file "@ + spec_apple_script_string(path@),
{
    let mut script = "tell application \"Finder\" to delete POSIX file ".to_owned();
    script.append(apple_script_string(path).as_str());
    script
}

} // verus!
