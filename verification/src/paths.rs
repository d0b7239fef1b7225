//! Paths are held as strings; the components-aware operations of `std::path::Path`
//! are called through the items below, and the classification of C and C++ sources
//! by extension is this library's own.

use vstd::prelude::*;
use crate::text::{ascii_lower_seq, str_eq, to_ascii_lowercase};

verus! {

/// The final component of a path, as `Path::file_name` computes it (`None` when the
/// path ends in `..` or has no component).
pub uninterp spec fn spec_file_name(path: Seq<char>) -> Option<Seq<char>>;

/// The parent of a path, as `Path::parent` computes it.
pub uninterp spec fn spec_parent(path: Seq<char>) -> Option<Seq<char>>;

/// The path `base` extended by `rel`, as `Path::join` computes it.
pub uninterp spec fn spec_join(base: Seq<char>, rel: Seq<char>) -> Seq<char>;

/// Whether the components of `base` are a prefix of the components of `path`, as
/// `Path::starts_with` decides it.
pub uninterp spec fn spec_starts_with(path: Seq<char>, base: Seq<char>) -> bool;

/// Whether two paths have equal components, as `<Path as PartialEq>::eq` decides it.
pub uninterp spec fn spec_path_eq(a: Seq<char>, b: Seq<char>) -> bool;

/// What remains of `path` once the components of `base` are taken off its front, as
/// `Path::strip_prefix` computes it.
pub uninterp spec fn spec_strip_prefix(path: Seq<char>, base: Seq<char>) -> Option<Seq<char>>;

/// Index of the last `.` in a file name, or -1 when it holds none.
pub open spec fn last_dot(name: Seq<char>) -> int
    decreases name.len(),
{
    if name.len() == 0 {
        -1
    } else if name.last() == '.' {
        name.len() - 1
    } else {
        last_dot(name.drop_last())
    }
}

/// The extension of a file name: what follows its last `.`, unless it has no `.` or
/// its only `.` is its first character.
pub open spec fn name_extension(name: Seq<char>) -> Option<Seq<char>> {
    if last_dot(name) <= 0 {
        None
    } else {
        Some(name.skip(last_dot(name) + 1))
    }
}

/// The stem of a file name: what precedes its last `.`, or the whole name when it has no
/// `.` or its only `.` is its first character.
pub open spec fn name_stem(name: Seq<char>) -> Seq<char> {
    if last_dot(name) <= 0 {
        name
    } else {
        name.take(last_dot(name))
    }
}

pub open spec fn spec_extension(path: Seq<char>) -> Option<Seq<char>> {
    match spec_file_name(path) {
        Some(name) => name_extension(name),
        None => None,
    }
}

pub open spec fn spec_file_stem(path: Seq<char>) -> Option<Seq<char>> {
    match spec_file_name(path) {
        Some(name) => Some(name_stem(name)),
        None => None,
    }
}

/// A path made of one plain name: not empty, without separator or drive colon, and
/// neither `.` nor `..`; such a path is its own file name.
pub open spec fn is_bare_name(path: Seq<char>) -> bool {
    &&& path.len() > 0
    &&& !path.contains('/')
    &&& !path.contains('\\')
    &&& !path.contains(':')
    &&& path != "."@
    &&& path != ".."@
}

/// `Path::file_name`, the name as a string; its result is named by `spec_file_name`. A
/// bare name is its own file name.
#[verifier::external_body]
pub(crate) fn path_file_name(path: &str) -> (res: Option<String>)
    ensures
        match res {
            Some(n) => spec_file_name(path@) == Some(n@),
            None => spec_file_name(path@) is None,
        },
        is_bare_name(path@) ==> (res is Some && res->0@ == path@),
{
    std::path::Path::new(path).file_name().map(|n| n.to_string_lossy().into_owned())
}

/// `Path::extension`: as its documentation states, `None` without a file name, without a
/// `.` in it, or when its only `.` leads it; otherwise what follows the last `.`. A bare
/// name is its own file name, so its extension is taken from it directly.
#[verifier::external_body]
pub(crate) fn path_extension(path: &str) -> (res: Option<String>)
    ensures
        match res {
            Some(e) => spec_extension(path@) == Some(e@),
            None => spec_extension(path@) is None,
        },
        is_bare_name(path@) ==> match res {
            Some(e) => name_extension(path@) == Some(e@),
            None => name_extension(path@) is None,
        },
{
    std::path::Path::new(path).extension().map(|e| e.to_string_lossy().into_owned())
}

/// `Path::file_stem`: as its documentation states, `None` without a file name, the whole
/// name without a `.` or when its only `.` leads it, otherwise what precedes the last `.`.
/// A bare name is its own file name, so its stem is taken from it directly.
#[verifier::external_body]
pub(crate) fn path_file_stem(path: &str) -> (res: Option<String>)
    ensures
        match res {
            Some(s) => spec_file_stem(path@) == Some(s@),
            None => spec_file_stem(path@) is None,
        },
        is_bare_name(path@) ==> (res is Some && res->0@ == name_stem(path@)),
{
    std::path::Path::new(path).file_stem().map(|s| s.to_string_lossy().into_owned())
}

/// `Path::parent`; its result is named by `spec_parent`.
#[verifier::external_body]
pub(crate) fn path_parent(path: &str) -> (res: Option<String>)
    ensures
        match res {
            Some(p) => spec_parent(path@) == Some(p@),
            None => spec_parent(path@) is None,
        },
{
    std::path::Path::new(path).parent().map(|p| p.to_string_lossy().into_owned())
}

/// `Path::join`; its result is named by `spec_join`.
#[verifier::external_body]
pub(crate) fn path_join(base: &str, rel: &str) -> (res: String)
    ensures
        res@ == spec_join(base@, rel@),
{
    std::path::Path::new(base).join(rel).to_string_lossy().into_owned()
}

/// `Path::starts_with`; its result is named by `spec_starts_with`. As its documentation
/// states, it tells whether the components of `base` are a prefix of those of `path`, so
/// whatever starts with `path`, or equals it, starts with `base` too.
#[verifier::external_body]
pub(crate) fn path_starts_with(path: &str, base: &str) -> (res: bool)
    ensures
        res == spec_starts_with(path@, base@),
        res ==> forall|x: Seq<char>| #[trigger] spec_starts_with(x, path@) ==> spec_starts_with(x, base@),
        res ==> forall|x: Seq<char>| #[trigger] spec_path_eq(x, path@) ==> spec_starts_with(x, base@),
{
    std::path::Path::new(path).starts_with(base)
}

/// `<Path as PartialEq>::eq`; its result is named by `spec_path_eq`. `Path` implements
/// `Eq` by comparing components, so a path is equal to itself, and two equal paths are
/// equal to, and start, the same paths.
#[verifier::external_body]
pub(crate) fn path_eq(a: &str, b: &str) -> (res: bool)
    ensures
        res == spec_path_eq(a@, b@),
        a@ == b@ ==> res,
        res ==> forall|x: Seq<char>| #[trigger] spec_path_eq(x, a@) == spec_path_eq(x, b@),
        res ==> forall|x: Seq<char>| #[trigger] spec_starts_with(x, a@) == spec_starts_with(x, b@),
{
    std::path::Path::new(a) == std::path::Path::new(b)
}

/// `Path::strip_prefix`; its result is named by `spec_strip_prefix`, and, as its
/// documentation states, it fails exactly when `base` is not a prefix of `path`.
#[verifier::external_body]
pub(crate) fn path_strip_prefix(path: &str, base: &str) -> (res: Option<String>)
    ensures
        match res {
            Some(r) => spec_strip_prefix(path@, base@) == Some(r@),
            None => spec_strip_prefix(path@, base@) is None,
        },
        res is None <==> !spec_starts_with(path@, base@),
{
    std::path::Path::new(path).strip_prefix(base).ok().map(|r| r.to_string_lossy().into_owned())
}

/// `Path::exists`: whether the file system holds an entry at the path. The answer
/// depends on the disk, so nothing is stated of it.
#[verifier::external_body]
pub(crate) fn path_exists(path: &str) -> (res: bool) {
    std::path::Path::new(path).exists()
}

/// The lowercase extension of a path, when it has one.
pub open spec fn spec_extension_lower(path: Seq<char>) -> Option<Seq<char>> {
    match spec_extension(path) {
        Some(e) => Some(ascii_lower_seq(e)),
        None => None,
    }
}

pub open spec fn spec_is_c_source(path: Seq<char>) -> bool {
    spec_extension_lower(path) == Some("c"@)
}

pub open spec fn spec_is_cpp_source(path: Seq<char>) -> bool {
    spec_extension_lower(path) == Some("cpp"@)
        || spec_extension_lower(path) == Some("cc"@)
        || spec_extension_lower(path) == Some("cxx"@)
}

pub open spec fn spec_is_supported_source(path: Seq<char>) -> bool {
    spec_is_c_source(path) || spec_is_cpp_source(path)
}

/// Whether an extension marks a C source: it is `c`, in any case.
pub fn is_c_extension(ext: &str) -> (res: bool)
    ensures
        res == (ascii_lower_seq(ext@) == "c"@),
{
    let lower = to_ascii_lowercase(ext);
    str_eq(lower.as_str(), "c")
}

/// Whether an extension marks a C++ source: it is `cpp`, `cc` or `cxx`, in any case.
pub fn is_cpp_extension(ext: &str) -> (res: bool)
    ensures
        res == (ascii_lower_seq(ext@) == "cpp"@ || ascii_lower_seq(ext@) == "cc"@
            || ascii_lower_seq(ext@) == "cxx"@),
{
    let lower = to_ascii_lowercase(ext);
    str_eq(lower.as_str(), "cpp") || str_eq(lower.as_str(), "cc") || str_eq(lower.as_str(), "cxx")
}

/// Whether the path names a C source file: its extension is `c`, in any case.
pub fn is_c_source(path: &str) -> (res: bool)
    ensures
        res == spec_is_c_source(path@),
        is_bare_name(path@) ==> res == (name_extension(path@) matches Some(e) && ascii_lower_seq(e)
            == "c"@),
{
    match path_extension(path) {
        Some(ext) => is_c_extension(ext.as_str()),
        None => false,
    }
}

/// Whether the path names a C++ source file: its extension is `cpp`, `cc` or `cxx`, in
/// any case.
pub fn is_cpp_source(path: &str) -> (res: bool)
    ensures
        res == spec_is_cpp_source(path@),
        is_bare_name(path@) ==> res == (name_extension(path@) matches Some(e) && (ascii_lower_seq(e)
            == "cpp"@ || ascii_lower_seq(e) == "cc"@ || ascii_lower_seq(e) == "cxx"@)),
{
    match path_extension(path) {
        Some(ext) => is_cpp_extension(ext.as_str()),
        None => false,
    }
}

/// Whether the path names a C or C++ source file that can be built.
pub fn is_supported_source(path: &str) -> (res: bool)
    ensures
        res == spec_is_supported_source(path@),
        is_bare_name(path@) ==> res == (name_extension(path@) matches Some(e) && (ascii_lower_seq(e)
            == "c"@ || ascii_lower_seq(e) == "cpp"@ || ascii_lower_seq(e) == "cc"@
            || ascii_lower_seq(e) == "cxx"@)),
{
    is_c_source(path) || is_cpp_source(path)
}

} // verus!
