use lite_dev_cpp::paths::{is_c_extension, is_c_source, is_cpp_extension, is_cpp_source, is_supported_source};

#[test]
fn recognizes_supported_source_extensions_case_insensitively() {
    assert!(is_c_source("main.C"));
    assert!(is_cpp_source("main.CPP"));
    assert!(is_cpp_source("main.cxx"));
    assert!(!is_supported_source("main.hpp"));
    assert!(!is_supported_source("README"));
}

#[test]
fn classifies_each_source_extension() {
    assert!(is_c_source("dir/prog.c"));
    assert!(!is_cpp_source("dir/prog.c"));
    assert!(is_cpp_source("a.cc"));
    assert!(is_cpp_source("a.Cc"));
    assert!(!is_c_source("a.cc"));
    assert!(is_supported_source("x/y/z.cxx"));
    assert!(is_supported_source("x.c"));
}

#[test]
fn trailing_separators_do_not_hide_the_extension() {
    assert!(is_c_source("folder.c/"));
}

#[test]
fn files_without_a_real_extension_are_not_sources() {
    assert!(!is_supported_source(".c"));
    assert!(!is_supported_source("main.c.txt"));
    assert!(!is_supported_source(""));
    assert!(!is_supported_source("main."));
}

#[test]
fn classifies_extensions_in_any_case() {
    assert!(is_c_extension("c") && is_c_extension("C"));
    assert!(!is_c_extension("cc") && !is_c_extension(""));
    assert!(is_cpp_extension("CPP") && is_cpp_extension("Cc") && is_cpp_extension("cxx"));
    assert!(!is_cpp_extension("hpp") && !is_cpp_extension("c"));
}
