use lite_dev_cpp::compiler::{
    apple_script_string, shell_quote, terminal_script, BuildError, BuildResult, CompilerService,
};
use lite_dev_cpp::config::{config_dir_names, default_c_compiler, default_cpp_compiler, AppConfig, CompilerConfig, ConfigError};

#[test]
fn shell_quoting_escapes_single_quotes() {
    assert_eq!(shell_quote("/tmp/a b"), "'/tmp/a b'");
    assert_eq!(shell_quote("it's"), "'it'\\''s'");
    assert_eq!(shell_quote(""), "''");
}

#[test]
fn apple_script_strings_escape_backslashes_then_quotes() {
    assert_eq!(apple_script_string("plain"), "\"plain\"");
    assert_eq!(apple_script_string("a\"b\\c"), "\"a\\\"b\\\\c\"");
    assert_eq!(apple_script_string("\\\""), "\"\\\\\\\"\"");
}

#[test]
fn terminal_script_runs_the_executable_in_its_folder() {
    let script = terminal_script("/w/a", "/w");
    assert_eq!(
        script,
        "tell application \"Terminal\"\n  activate\n  do script \"cd '/w' && '/w/a' ; echo ; echo '[Lite Dev-C++] Process finished. Press Enter to close.' ; read\"\nend tell"
    );
}

#[test]
fn build_plan_uses_the_compiler_for_the_language() {
    let service = CompilerService::new(CompilerConfig::default());
    let plan = service.build_plan("/proj/src/main.cpp").unwrap();
    assert_eq!(plan.compiler, "clang++");
    assert_eq!(plan.args, vec!["/proj/src/main.cpp", "-o", "/proj/src/a"]);
    assert_eq!(plan.working_dir, "/proj/src");
    assert_eq!(plan.executable, "/proj/src/a");

    let custom = CompilerService::new(CompilerConfig { c_compiler: "gcc-14".to_owned(), cpp_compiler: "g++".to_owned() });
    let plan = custom.build_plan("/x/prog.C").unwrap();
    assert_eq!(plan.compiler, "gcc-14");
    assert_eq!(plan.executable, "/x/a");
}

#[test]
fn build_plan_rejects_other_files() {
    let service = CompilerService::new(CompilerConfig::default());
    assert_eq!(service.build_plan("/proj/notes.txt").unwrap_err(), BuildError::UnsupportedExtension);
    assert_eq!(service.build_plan("/proj/header.hpp").unwrap_err(), BuildError::UnsupportedExtension);
    assert_eq!(BuildError::UnsupportedExtension.message(), "unsupported source extension");
    assert_eq!(BuildError::NoParent.message(), "source file has no parent");
}

#[test]
fn relative_sources_build_into_a_relative_executable() {
    let service = CompilerService::new(CompilerConfig::default());
    let plan = service.build_plan("main.c").unwrap();
    assert_eq!(plan.compiler, "clang");
    assert_eq!(plan.working_dir, "");
    assert_eq!(plan.executable, "a");
}

#[test]
fn build_results_decode_output_and_default_the_exit_code() {
    let r = BuildResult::from_output("/x/a".to_owned(), b"ok\n", &[0x66, 0xff, 0x6f], None);
    assert_eq!(r.exit_code, -1);
    assert_eq!(r.stdout, "ok\n");
    assert_eq!(r.stderr, "f\u{FFFD}o");
    let r = BuildResult::from_output("/x/a".to_owned(), b"", b"", Some(2));
    assert_eq!(r.exit_code, 2);
}

#[test]
fn default_compilers_are_clang() {
    assert_eq!(default_c_compiler(), "clang");
    assert_eq!(default_cpp_compiler(), "clang++");
    let config = AppConfig::default();
    assert_eq!(config.compiler.c_compiler, "clang");
    assert_eq!(config.compiler.cpp_compiler, "clang++");
}

#[test]
fn config_file_lies_in_the_config_directory() {
    assert_eq!(AppConfig::config_path_in(Some("/cfg/app".to_owned())).unwrap(), "/cfg/app/config.toml");
    assert_eq!(AppConfig::config_path_in(None).unwrap_err(), ConfigError::NoConfigDir);
    assert_eq!(ConfigError::NoConfigDir.message(), "could not find the user config directory");
    assert_eq!(AppConfig::FILE_NAME, "config.toml");
    assert_eq!(config_dir_names(), ("dev", "LiteDevCpp", "Lite-Dev-C++"));
    if let Ok(path) = AppConfig::config_path() {
        assert!(path.ends_with("/config.toml"));
    }
}

#[test]
fn sources_in_one_folder_share_the_executable() {
    let service = CompilerService::new(CompilerConfig::default());
    let c = service.build_plan("/proj/one.c").unwrap();
    let cpp = service.build_plan("/proj/two.cxx").unwrap();
    assert_eq!(c.executable, cpp.executable);
    let other = service.build_plan("/proj/sub/three.cc").unwrap();
    assert_ne!(c.executable, other.executable);
}
