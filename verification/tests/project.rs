use lite_dev_cpp::project::{arrange_children, should_skip, FileNode, Project};

fn file(name: &str) -> FileNode {
    FileNode { name: name.to_owned(), path: format!("/p/{name}"), is_dir: false, children: Vec::new() }
}

fn dir(name: &str, children: Vec<FileNode>) -> FileNode {
    FileNode { name: name.to_owned(), path: format!("/p/{name}"), is_dir: true, children }
}

fn names(nodes: &[FileNode]) -> Vec<String> {
    nodes.iter().map(|n| n.name.clone()).collect()
}

#[test]
fn skips_internal_project_entries_only() {
    assert!(should_skip(".git"));
    assert!(should_skip("target"));
    assert!(!should_skip("a"));
    assert!(!should_skip("main.cpp"));
}

#[test]
fn skips_finder_metadata_but_not_similar_names() {
    assert!(should_skip(".DS_Store"));
    assert!(!should_skip(".gitignore"));
    assert!(!should_skip("Target"));
}

#[test]
fn folders_come_first_then_names_ignoring_case() {
    let raw = vec![
        file("b.cpp"),
        dir("src", vec![]),
        file("A.h"),
        file(".DS_Store"),
        dir("Include", vec![]),
        dir(".git", vec![file("HEAD")]),
        file("a.c"),
    ];
    let out = arrange_children(raw);
    assert_eq!(names(&out), vec!["Include", "src", "a.c", "A.h", "b.cpp"]);
    assert!(out[0].is_dir && out[1].is_dir && !out[2].is_dir);
}

#[test]
fn equal_names_keep_their_order() {
    let raw = vec![file("Readme"), file("README"), file("readme")];
    let out = arrange_children(raw);
    assert_eq!(names(&out), vec!["Readme", "README", "readme"]);
}

#[test]
fn folder_contents_are_arranged_too() {
    let raw = vec![dir("lib", vec![file("z.c"), file("target"), dir("x", vec![]), file("m.c")])];
    let out = arrange_children(raw);
    assert_eq!(names(&out[0].children), vec!["x", "m.c", "z.c"]);
    assert_eq!(out[0].path, "/p/lib");
}

#[test]
fn open_and_refresh_keep_the_root() {
    let mut project = Project::open("/p".to_owned(), vec![file("b.c"), file("a.c")]);
    assert_eq!(project.root(), "/p");
    assert_eq!(names(project.nodes()), vec!["a.c", "b.c"]);
    project.refresh(vec![file("target"), file("c.c")]);
    assert_eq!(project.root(), "/p");
    assert_eq!(names(project.nodes()), vec!["c.c"]);
}

#[test]
fn non_ascii_names_are_ordered_by_their_lowercase_form() {
    let raw = vec![file("Éclair.c"), file("zeta.c"), file("éa.c")];
    let out = arrange_children(raw);
    assert_eq!(names(&out), vec!["zeta.c", "éa.c", "Éclair.c"]);
}

#[test]
fn entries_lie_in_their_folder() {
    let main = FileNode::entry("/p/src", "main.c".to_owned(), false);
    assert_eq!(main.path, "/p/src/main.c");
    assert!(main.children.is_empty());
    let mut src = FileNode::entry("/p", "src".to_owned(), true);
    assert_eq!(src.path, "/p/src");
    src.children.push(main);
    let project = Project::open("/p".to_owned(), vec![FileNode::entry("/p", "b.txt".to_owned(), false), src]);
    assert_eq!(project.nodes()[0].path, "/p/src");
    assert_eq!(project.nodes()[0].children[0].path, "/p/src/main.c");
    assert_eq!(project.nodes()[1].path, "/p/b.txt");
}
