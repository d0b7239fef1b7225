//! The project's file tree: entries filtered and ordered the way the tree shows them.

use vstd::prelude::*;
use crate::paths::{path_join, spec_join};
use crate::text::{chars_of, str_eq, str_to_lowercase, spec_to_lowercase};

verus! {

/// One entry of the project tree, with the entries below it when it is a folder.
#[derive(Debug)]
pub struct FileNode {
    pub name: String,
    pub path: String,
    pub is_dir: bool,
    pub children: Vec<FileNode>,
}

/// An opened folder and the ordered tree of what it holds.
#[derive(Debug)]
pub struct Project {
    root: String,
    nodes: Vec<FileNode>,
}

/// Whether an entry name is one the tree leaves out.
pub open spec fn spec_should_skip(name: Seq<char>) -> bool {
    name == ".git"@ || name == "target"@ || name == ".DS_Store"@
}

/// Names the project tree leaves out: version control data, build output and Finder
/// metadata.
pub fn should_skip(name: &str) -> (res: bool)
    ensures
        res == spec_should_skip(name@),
{
    str_eq(name, ".git") || str_eq(name, "target") || str_eq(name, ".DS_Store")
}

/// Strict lexicographic order of character sequences, by code point.
pub open spec fn seq_lt(a: Seq<char>, b: Seq<char>) -> bool
    decreases a.len(),
{
    if a.len() == 0 {
        b.len() > 0
    } else if b.len() == 0 {
        false
    } else if a[0] != b[0] {
        a[0] < b[0]
    } else {
        seq_lt(a.drop_first(), b.drop_first())
    }
}

/// No sequence precedes itself.
pub proof fn lemma_seq_lt_irreflexive(a: Seq<char>)
    ensures
        !seq_lt(a, a),
    decreases a.len(),
{
    if a.len() > 0 {
        lemma_seq_lt_irreflexive(a.drop_first());
    }
}

/// Of two different sequences, one precedes the other.
pub proof fn lemma_seq_lt_total(a: Seq<char>, b: Seq<char>)
    ensures
        seq_lt(a, b) || seq_lt(b, a) || a == b,
        !(seq_lt(a, b) && seq_lt(b, a)),
    decreases a.len(),
{
    if a.len() > 0 && b.len() > 0 && a[0] == b[0] {
        lemma_seq_lt_total(a.drop_first(), b.drop_first());
        if a.drop_first() == b.drop_first() {
            assert(a =~= b.drop_first().insert(0, b[0]));
            assert(b =~= b.drop_first().insert(0, b[0]));
        }
    } else if a.len() == 0 && b.len() == 0 {
        assert(a =~= b);
    }
}

/// The order of sequences is transitive.
pub proof fn lemma_seq_lt_transitive(a: Seq<char>, b: Seq<char>, c: Seq<char>)
    requires
        seq_lt(a, b),
        seq_lt(b, c),
    ensures
        seq_lt(a, c),
    decreases a.len(),
{
    if a.len() > 0 && b.len() > 0 && c.len() > 0 && a[0] == b[0] && b[0] == c[0] {
        lemma_seq_lt_transitive(a.drop_first(), b.drop_first(), c.drop_first());
    }
}

/// The lowercase form of an entry's name, by which entries of one kind are ordered.
pub open spec fn sort_name(n: FileNode) -> Seq<char> {
    spec_to_lowercase(n.name@)
}

/// Whether entry `a` is shown strictly before entry `b`: folders before files, then by
/// lowercase name.
pub open spec fn precedes(a: FileNode, b: FileNode) -> bool {
    (a.is_dir && !b.is_dir) || (a.is_dir == b.is_dir && seq_lt(sort_name(a), sort_name(b)))
}

/// Whether two entries have the same sort key (kind and lowercase name).
pub open spec fn same_key(a: FileNode, b: FileNode) -> bool {
    a.is_dir == b.is_dir && sort_name(a) == sort_name(b)
}

/// The tree order is a strict weak order whose ties are the entries of equal key.
pub proof fn lemma_precedes_order(a: FileNode, b: FileNode, c: FileNode)
    ensures
        precedes(a, b) || precedes(b, a) || same_key(a, b),
        !(precedes(a, b) && precedes(b, a)),
        !(precedes(a, b) && same_key(a, b)),
        precedes(a, b) && precedes(b, c) ==> precedes(a, c),
        precedes(a, b) && same_key(b, c) ==> precedes(a, c),
        same_key(a, b) && precedes(b, c) ==> precedes(a, c),
{
    lemma_seq_lt_total(sort_name(a), sort_name(b));
    lemma_seq_lt_irreflexive(sort_name(a));
    if precedes(a, b) && precedes(b, c) && a.is_dir == b.is_dir && b.is_dir == c.is_dir {
        lemma_seq_lt_transitive(sort_name(a), sort_name(b), sort_name(c));
    }
}

/// Entries in the order the tree shows them: no entry is preceded by a later one.
pub open spec fn is_ordered(s: Seq<FileNode>) -> bool {
    forall|i: int, j: int| 0 <= i < j < s.len() ==> !precedes(#[trigger] s[j], #[trigger] s[i])
}

/// `perm` is a bijection from the positions of `output` onto the positions of `input`
/// whose entries are kept.
pub open spec fn matches_kept(input: Seq<FileNode>, output: Seq<FileNode>, perm: Seq<int>) -> bool {
    &&& perm.len() == output.len()
    &&& forall|k: int| 0 <= k < perm.len() ==> 0 <= #[trigger] perm[k] < input.len()
    &&& forall|k: int| 0 <= k < perm.len() ==> !spec_should_skip(input[#[trigger] perm[k]].name@)
    &&& forall|k1: int, k2: int|
        0 <= k1 < perm.len() && 0 <= k2 < perm.len() && k1 != k2 ==> #[trigger] perm[k1]
            != #[trigger] perm[k2]
    &&& forall|j: int|
        0 <= j < input.len() && !spec_should_skip(#[trigger] input[j].name@) ==> exists|k: int|
            0 <= k < perm.len() && perm[k] == j
}

/// Entries with the same sort key keep the order they had in `input`.
pub open spec fn is_stable(output: Seq<FileNode>, perm: Seq<int>) -> bool {
    forall|k1: int, k2: int|
        0 <= k1 < k2 < output.len() && same_key(#[trigger] output[k1], #[trigger] output[k2])
            ==> perm[k1] < perm[k2]
}

/// `output` is `input` as the tree shows it: the skipped names left out, the rest in
/// tree order (stable among equal keys), each folder's own entries arranged likewise.
pub open spec fn arranged(input: Seq<FileNode>, output: Seq<FileNode>) -> bool
    decreases input,
{
    &&& is_ordered(output)
    &&& exists|perm: Seq<int>|
        {
            &&& #[trigger] matches_kept(input, output, perm)
            &&& is_stable(output, perm)
            &&& forall|k: int|
                #![trigger output[k]]
                0 <= k < output.len() ==> {
                    &&& output[k].name == input[perm[k]].name
                    &&& output[k].path == input[perm[k]].path
                    &&& output[k].is_dir == input[perm[k]].is_dir
                    &&& (0 <= perm[k] < input.len() ==> arranged(
                        input[perm[k]].children@,
                        output[k].children@,
                    ))
                }
        }
}


proof fn lemma_insert_ordered(s: Seq<FileNode>, x: FileNode, pos: int)
    requires
        0 <= pos <= s.len(),
        is_ordered(s),
        forall|k: int| 0 <= k < pos ==> precedes(#[trigger] s[k], x),
        forall|k: int| pos <= k < s.len() ==> !precedes(#[trigger] s[k], x),
    ensures
        is_ordered(s.insert(pos, x)),
{
    let t = s.insert(pos, x);
    assert forall|i: int, j: int| 0 <= i < j < t.len() implies !precedes(
        #[trigger] t[j],
        #[trigger] t[i],
    ) by {
        if i < pos && j == pos {
            lemma_precedes_order(s[i], x, x);
        } else if i == pos && j > pos {
            assert(t[j] == s[j - 1]);
        } else if i < pos && j > pos {
            assert(t[j] == s[j - 1]);
            assert(!precedes(s[j - 1], s[i]));
        } else if j < pos {
            assert(!precedes(s[j], s[i]));
        } else {
            assert(t[j] == s[j - 1]);
            assert(t[i] == s[i - 1]);
            assert(!precedes(s[j - 1], s[i - 1]));
        }
    }
}

proof fn lemma_insert_stable(s: Seq<FileNode>, perm: Seq<int>, x: FileNode, pos: int, idx: int)
    requires
        0 <= pos <= s.len(),
        perm.len() == s.len(),
        is_stable(s, perm),
        forall|k: int| 0 <= k < pos ==> precedes(#[trigger] s[k], x),
        forall|k: int| 0 <= k < perm.len() ==> idx < #[trigger] perm[k],
    ensures
        is_stable(s.insert(pos, x), perm.insert(pos, idx)),
{
    let t = s.insert(pos, x);
    let p = perm.insert(pos, idx);
    assert forall|k1: int, k2: int|
        0 <= k1 < k2 < t.len() && same_key(#[trigger] t[k1], #[trigger] t[k2]) implies p[k1]
        < p[k2] by {
        if k1 < pos && k2 == pos {
            lemma_precedes_order(s[k1], x, x);
        } else if k1 == pos && k2 > pos {
            assert(p[k2] == perm[k2 - 1]);
        } else if k1 < pos && k2 > pos {
            assert(t[k2] == s[k2 - 1]);
            assert(perm[k1] < perm[k2 - 1]);
        } else if k2 < pos {
            assert(perm[k1] < perm[k2]);
        } else {
            assert(t[k2] == s[k2 - 1]);
            assert(t[k1] == s[k1 - 1]);
            assert(perm[k1 - 1] < perm[k2 - 1]);
        }
    }
}

/// The lowercase name of an entry, as characters.
fn sort_key(node: &FileNode) -> (res: Vec<char>)
    ensures
        res@ == sort_name(*node),
{
    let lower = str_to_lowercase(node.name.as_str());
    chars_of(lower.as_str())
}

/// Lexicographic comparison of two character sequences.
fn chars_lt(a: &Vec<char>, b: &Vec<char>) -> (res: bool)
    ensures
        res == seq_lt(a@, b@),
{
    let mut i: usize = 0;
    assert(a@.skip(0) =~= a@);
    assert(b@.skip(0) =~= b@);
    while i < a.len() && i < b.len() && a[i] == b[i]
        invariant
            i <= a.len(),
            i <= b.len(),
            seq_lt(a@, b@) == seq_lt(a@.skip(i as int), b@.skip(i as int)),
        decreases a.len() - i,
    {
        assert(a@.skip(i as int).drop_first() =~= a@.skip(i + 1));
        assert(b@.skip(i as int).drop_first() =~= b@.skip(i + 1));
        i += 1;
    }
    if i == a.len() {
        i < b.len()
    } else if i == b.len() {
        false
    } else {
        a[i] < b[i]
    }
}

/// Whether an entry of kind `a_dir` and lowercase name `a_key` is shown strictly before
/// one of kind `b_dir` and lowercase name `b_key`.
fn key_precedes(a_dir: bool, a_key: &Vec<char>, b_dir: bool, b_key: &Vec<char>) -> (res: bool)
    ensures
        res == ((a_dir && !b_dir) || (a_dir == b_dir && seq_lt(a_key@, b_key@))),
{
    if a_dir && !b_dir {
        true
    } else if a_dir == b_dir {
        chars_lt(a_key, b_key)
    } else {
        false
    }
}

/// Arranges entries read from a folder as the tree shows them: the names that
/// `should_skip` accepts are left out, folders come before files, entries of one kind
/// are ordered by lowercase name (keeping their order where those are equal), and each
/// folder's own entries are arranged the same way.
pub fn arrange_children(entries: Vec<FileNode>) -> (res: Vec<FileNode>)
    ensures
        arranged(entries@, res@),
    decreases entries,
{
    let ghost input = entries@;
    let ghost orig = entries;
    let mut rest = entries;
    let mut out: Vec<FileNode> = Vec::new();
    let mut keys: Vec<Vec<char>> = Vec::new();
    let ghost mut perm: Seq<int> = Seq::empty();
    while rest.len() > 0
        invariant
            orig == entries,
            input == entries@,
            rest.len() <= input.len(),
            rest@ == input.take(rest.len() as int),
            out.len() == keys.len(),
            perm.len() == out.len(),
            forall|k: int| 0 <= k < keys.len() ==> (#[trigger] keys@[k])@ == sort_name(out@[k]),
            is_ordered(out@),
            forall|k: int|
                0 <= k < perm.len() ==> rest.len() <= #[trigger] perm[k] < input.len(),
            forall|k: int|
                0 <= k < perm.len() ==> !spec_should_skip(input[#[trigger] perm[k]].name@),
            forall|k1: int, k2: int|
                0 <= k1 < perm.len() && 0 <= k2 < perm.len() && k1 != k2 ==> #[trigger] perm[k1]
                    != #[trigger] perm[k2],
            forall|j: int|
                rest.len() <= j < input.len() && !spec_should_skip(#[trigger] input[j].name@)
                    ==> exists|k: int| 0 <= k < perm.len() && perm[k] == j,
            is_stable(out@, perm),
            forall|k: int|
                #![trigger out@[k]]
                0 <= k < out.len() ==> {
                    &&& out@[k].name == input[perm[k]].name
                    &&& out@[k].path == input[perm[k]].path
                    &&& out@[k].is_dir == input[perm[k]].is_dir
                    &&& arranged(input[perm[k]].children@, out@[k].children@)
                },
        decreases rest.len(),
    {
        let ghost idx: int = rest.len() - 1;
        let node = rest.pop().unwrap();
        assert(node == input[idx]);
        if should_skip(node.name.as_str()) {
            assert forall|j: int|
                rest.len() <= j < input.len() && !spec_should_skip(#[trigger] input[j].name@)
                    implies exists|k: int| 0 <= k < perm.len() && perm[k] == j by {
                if j != idx {
                }
            }
            continue;
        }
        let FileNode { name, path, is_dir, children } = node;
        proof {
            assert(decreases_to!(orig => orig@));
            assert(decreases_to!(orig@ => orig@[idx]));
            assert(decreases_to!(orig@[idx] => orig@[idx].children));
        }
        let sorted_children = arrange_children(children);
        let new_node = FileNode { name, path, is_dir, children: sorted_children };
        let key = sort_key(&new_node);
        let mut pos: usize = 0;
        while pos < out.len() && key_precedes(out[pos].is_dir, &keys[pos], new_node.is_dir, &key)
            invariant
                pos <= out.len(),
                out.len() == keys.len(),
                forall|k: int| 0 <= k < keys.len() ==> (#[trigger] keys@[k])@ == sort_name(out@[k]),
                key@ == sort_name(new_node),
                forall|k: int| 0 <= k < pos ==> precedes(#[trigger] out@[k], new_node),
            decreases out.len() - pos,
        {
            pos += 1;
        }
        proof {
            assert forall|k: int| pos <= k < out.len() implies !precedes(
                #[trigger] out@[k],
                new_node,
            ) by {
                assert(!precedes(out@[pos as int], new_node));
                if k > pos {
                    assert(!precedes(out@[k], out@[pos as int]));
                    lemma_precedes_order(out@[k], out@[pos as int], new_node);
                    lemma_precedes_order(out@[pos as int], out@[k], new_node);
                    lemma_precedes_order(out@[k], new_node, out@[pos as int]);
                    lemma_precedes_order(new_node, out@[k], out@[pos as int]);
                }
            }
        }
        let ghost old_out = out@;
        let ghost old_perm = perm;
        let ghost old_keys = keys@;
        out.insert(pos, new_node);
        keys.insert(pos, key);
        proof {
            perm = perm.insert(pos as int, idx);
            lemma_insert_ordered(old_out, new_node, pos as int);
            lemma_insert_stable(old_out, old_perm, new_node, pos as int, idx);
            assert forall|j: int|
                rest.len() <= j < input.len() && !spec_should_skip(#[trigger] input[j].name@)
                    implies exists|k: int| 0 <= k < perm.len() && perm[k] == j by {
                if j == idx {
                    assert(perm[pos as int] == j);
                } else {
                    let k0 = choose|k: int| 0 <= k < old_perm.len() && old_perm[k] == j;
                    if k0 < pos {
                        assert(perm[k0] == j);
                    } else {
                        assert(perm[k0 + 1] == j);
                    }
                }
            }
            assert forall|k1: int, k2: int|
                0 <= k1 < perm.len() && 0 <= k2 < perm.len() && k1 != k2 implies #[trigger] perm[k1]
                    != #[trigger] perm[k2] by {
                if k1 != pos && k2 != pos {
                    let a = if k1 < pos { k1 } else { k1 - 1 };
                    let b = if k2 < pos { k2 } else { k2 - 1 };
                    assert(old_perm[a] != old_perm[b]);
                }
            }
            assert forall|k: int| 0 <= k < keys.len() implies (#[trigger] keys@[k])@ == sort_name(
                out@[k],
            ) by {
                if k < pos {
                } else if k > pos {
                    assert(keys@[k] == old_keys[k - 1]);
                }
            }
            assert forall|k: int|
                #![trigger out@[k]]
                0 <= k < out.len() implies {
                    &&& out@[k].name == input[perm[k]].name
                    &&& out@[k].path == input[perm[k]].path
                    &&& out@[k].is_dir == input[perm[k]].is_dir
                    &&& arranged(input[perm[k]].children@, out@[k].children@)
                } by {
                if k < pos {
                    assert(out@[k] == old_out[k]);
                } else if k > pos {
                    assert(out@[k] == old_out[k - 1]);
                }
            }
        }
    }
    proof {
        assert(matches_kept(input, out@, perm));
    }
    out
}


/// In an arranged tree, folders come before files at every level.
pub proof fn folders_come_before_files(input: Seq<FileNode>, output: Seq<FileNode>, i: int, j: int)
    requires
        arranged(input, output),
        0 <= i < j < output.len(),
        output[j].is_dir,
    ensures
        output[i].is_dir,
{
    assert(!precedes(output[j], output[i]));
}

/// An arranged tree holds none of the names that `should_skip` accepts, and each of its
/// entries comes from the input.
pub proof fn arranged_entries_are_kept_ones(input: Seq<FileNode>, output: Seq<FileNode>, k: int)
    requires
        arranged(input, output),
        0 <= k < output.len(),
    ensures
        !spec_should_skip(output[k].name@),
        exists|j: int| 0 <= j < input.len() && input[j].name == output[k].name && input[j].path == output[k].path,
{
    let perm = choose|perm: Seq<int>|
        {
            &&& #[trigger] matches_kept(input, output, perm)
            &&& is_stable(output, perm)
            &&& forall|k: int|
                #![trigger output[k]]
                0 <= k < output.len() ==> {
                    &&& output[k].name == input[perm[k]].name
                    &&& output[k].path == input[perm[k]].path
                    &&& output[k].is_dir == input[perm[k]].is_dir
                    &&& (0 <= perm[k] < input.len() ==> arranged(
                        input[perm[k]].children@,
                        output[k].children@,
                    ))
                }
        };
    assert(output[k].name == input[perm[k]].name);
    assert(!spec_should_skip(input[perm[k]].name@));
}

/// Every entry the input keeps appears in the arranged tree.
pub proof fn kept_entries_are_shown(input: Seq<FileNode>, output: Seq<FileNode>, j: int)
    requires
        arranged(input, output),
        0 <= j < input.len(),
        !spec_should_skip(input[j].name@),
    ensures
        exists|k: int| 0 <= k < output.len() && output[k].name == input[j].name && output[k].path == input[j].path,
{
    let perm = choose|perm: Seq<int>|
        {
            &&& #[trigger] matches_kept(input, output, perm)
            &&& is_stable(output, perm)
            &&& forall|k: int|
                #![trigger output[k]]
                0 <= k < output.len() ==> {
                    &&& output[k].name == input[perm[k]].name
                    &&& output[k].path == input[perm[k]].path
                    &&& output[k].is_dir == input[perm[k]].is_dir
                    &&& (0 <= perm[k] < input.len() ==> arranged(
                        input[perm[k]].children@,
                        output[k].children@,
                    ))
                }
        };
    let k = choose|k: int| 0 <= k < perm.len() && perm[k] == j;
    assert(output[k].name == input[perm[k]].name);
}

/// Each entry lies in `folder` under its own name, a file holds no entries, and each
/// folder's entries lie in that folder likewise, at every depth.
pub open spec fn well_placed(folder: Seq<char>, nodes: Seq<FileNode>) -> bool
    decreases nodes,
{
    forall|k: int|
        #![trigger nodes[k]]
        0 <= k < nodes.len() ==> {
            &&& nodes[k].path@ == spec_join(folder, nodes[k].name@)
            &&& (!nodes[k].is_dir ==> nodes[k].children@.len() == 0)
            &&& well_placed(nodes[k].path@, nodes[k].children@)
        }
}

/// Arranging entries keeps each one where it was read: when every entry read lies in its
/// folder under its own name and files hold no entries, the arranged tree is so too.
pub proof fn arranged_entries_stay_in_place(folder: Seq<char>, input: Seq<FileNode>, output: Seq<FileNode>)
    requires
        arranged(input, output),
        well_placed(folder, input),
    ensures
        well_placed(folder, output),
    decreases input,
{
    let perm = choose|perm: Seq<int>|
        {
            &&& #[trigger] matches_kept(input, output, perm)
            &&& is_stable(output, perm)
            &&& forall|k: int|
                #![trigger output[k]]
                0 <= k < output.len() ==> {
                    &&& output[k].name == input[perm[k]].name
                    &&& output[k].path == input[perm[k]].path
                    &&& output[k].is_dir == input[perm[k]].is_dir
                    &&& (0 <= perm[k] < input.len() ==> arranged(
                        input[perm[k]].children@,
                        output[k].children@,
                    ))
                }
        };
    assert forall|k: int| 0 <= k < output.len() implies {
        &&& output[k].path@ == spec_join(folder, output[k].name@)
        &&& (!output[k].is_dir ==> output[k].children@.len() == 0)
        &&& well_placed(output[k].path@, output[k].children@)
    } by {
        let j = perm[k];
        assert(0 <= j < input.len());
        let src = input[j];
        assert(src.path@ == spec_join(folder, src.name@));
        assert(well_placed(src.path@, src.children@));
        assert(arranged(src.children@, output[k].children@));
        if !output[k].is_dir {
            assert(src.children@.len() == 0);
            let inner = choose|q: Seq<int>| #[trigger] matches_kept(src.children@, output[k].children@, q);
            if output[k].children@.len() > 0 {
                assert(0 <= inner[0] < src.children@.len());
            }
        }
        arranged_entries_stay_in_place(src.path@, src.children@, output[k].children@);
    }
}

impl FileNode {
    /// The entry named `name` of folder `folder`, holding no entries yet: its path is the
    /// folder joined with the name.
    pub fn entry(folder: &str, name: String, is_dir: bool) -> (res: FileNode)
        ensures
            res.name == name,
            res.path@ == spec_join(folder@, name@),
            res.is_dir == is_dir,
            res.children@.len() == 0,
    {
        let path = path_join(folder, name.as_str());
        FileNode { name, path, is_dir, children: Vec::new() }
    }
}

impl Project {
    /// The folder the project was opened on.
    pub closed spec fn root_path(&self) -> Seq<char> {
        self.root@
    }

    /// The project's top-level entries, as the tree shows them.
    pub closed spec fn node_list(&self) -> Seq<FileNode> {
        self.nodes@
    }

    /// Opens a folder as a project, given the entries that were read from it; the
    /// entries are arranged as `arrange_children` states.
    pub fn open(root: String, listing: Vec<FileNode>) -> (project: Project)
        ensures
            project.root_path() == root@,
            arranged(listing@, project.node_list()),
            well_placed(root@, listing@) ==> well_placed(root@, project.node_list()),
    {
        let mut project = Project { root, nodes: Vec::new() };
        project.refresh(listing);
        project
    }

    /// Replaces the tree with the entries read anew from the project's folder.
    pub fn refresh(&mut self, listing: Vec<FileNode>)
        ensures
            final(self).root_path() == old(self).root_path(),
            arranged(listing@, final(self).node_list()),
            well_placed(old(self).root_path(), listing@) ==> well_placed(
                final(self).root_path(),
                final(self).node_list(),
            ),
    {
        let ghost entries = listing@;
        self.nodes = arrange_children(listing);
        proof {
            if well_placed(self.root@, entries) {
                arranged_entries_stay_in_place(self.root@, entries, self.nodes@);
            }
        }
    }

    /// The folder the project was opened on.
    pub fn root(&self) -> (res: &str)
        ensures
            res@ == self.root_path(),
    {
        self.root.as_str()
    }

    /// The project's top-level entries, as the tree shows them.
    pub fn nodes(&self) -> (res: &[FileNode])
        ensures
            res@ == self.node_list(),
    {
        self.nodes.as_slice()
    }
}

} // verus!
