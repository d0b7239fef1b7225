//! Compiler settings, kept in the user's configuration directory.

use vstd::prelude::*;
use crate::paths::{path_join, spec_join};

verus! {

/// The commands that build C and C++ sources.
#[derive(Debug, Clone)]
pub struct CompilerConfig {
    pub c_compiler: String,
    pub cpp_compiler: String,
}

/// The application's settings.
#[derive(Debug, Clone)]
pub struct AppConfig {
    pub compiler: CompilerConfig,
}

/// Why the configuration file cannot be located.
#[derive(Debug, Clone, Copy, PartialEq, Eq, Structural)]
pub enum ConfigError {
    /// The user's configuration directory could not be found.
    NoConfigDir,
}

impl ConfigError {
    /// The message that reports this error.
    pub fn message(&self) -> (res: &'static str)
        ensures
            res@ == "could not find the user config directory"@,
    {
        "could not find the user config directory"
    }
}

/// The C compiler used when none is configured.
pub fn default_c_compiler() -> (res: String)
    ensures
        res@ == "clang"@,
{
    "clang".to_owned()
}

/// The C++ compiler used when none is configured.
pub fn default_cpp_compiler() -> (res: String)
    ensures
        res@ == "clang++"@,
{
    "clang++".to_owned()
}

impl Default for CompilerConfig {
    fn default() -> (res: Self)
        ensures
            res.c_compiler@ == "clang"@,
            res.cpp_compiler@ == "clang++"@,
    {
        CompilerConfig { c_compiler: default_c_compiler(), cpp_compiler: default_cpp_compiler() }
    }
}

impl Default for AppConfig {
    fn default() -> (res: Self)
        ensures
            res.compiler.c_compiler@ == "clang"@,
            res.compiler.cpp_compiler@ == "clang++"@,
    {
        AppConfig { compiler: CompilerConfig::default() }
    }
}

/// The end of the configuration folder that `directories::ProjectDirs::from` derives from
/// the qualifier, organization and application names on the platform the crate is built
/// for: on macOS the non-empty names joined with dots, spaces in the last two turned into
/// hyphens (`dev.LiteDevCpp.Lite-Dev-C++`); on Linux the application name lowercased with
/// its whitespace removed; on Windows the organization, the application and `config`.
pub uninterp spec fn spec_config_fragment(qualifier: Seq<char>, organization: Seq<char>, application: Seq<char>) -> Seq<char>;

/// `directories::ProjectDirs::from` followed by its `config_dir` accessor, which hands out
/// the `config_dir` field: the application's configuration folder, or `None` when the
/// user's home directory cannot be found. As the crate's source shows, the folder is a
/// base folder taken from the user's environment, joined with the part derived from the
/// three names. The base, and whether a home directory is found, depend on the
/// environment and are not stated.
#[verifier::external_body]
fn project_config_dir(qualifier: &str, organization: &str, application: &str) -> (res: Option<String>)
    ensures
        res matches Some(dir) ==> exists|base: Seq<char>|
            dir@ == spec_join(base, spec_config_fragment(qualifier@, organization@, application@)),
{
    directories::ProjectDirs::from(qualifier, organization, application).map(
        |dirs| dirs.config_dir().to_string_lossy().into_owned(),
    )
}

/// The qualifier, organization and application names under which the settings are kept.
pub open spec fn spec_config_names() -> (Seq<char>, Seq<char>, Seq<char>) {
    ("dev"@, "LiteDevCpp"@, "Lite-Dev-C++"@)
}

/// The qualifier, organization and application names under which the settings are kept,
/// so that on macOS they lie in `Application Support/dev.LiteDevCpp.Lite-Dev-C++`.
pub fn config_dir_names() -> (res: (&'static str, &'static str, &'static str))
    ensures
        (res.0@, res.1@, res.2@) == spec_config_names(),
{
    ("dev", "LiteDevCpp", "Lite-Dev-C++")
}

/// Where the configuration file lies inside a configuration folder that ends with the
/// part derived from the application's names.
pub open spec fn spec_config_file(base: Seq<char>) -> Seq<char> {
    let (q, o, a) = spec_config_names();
    spec_join(spec_join(base, spec_config_fragment(q, o, a)), "config.toml"@)
}

impl AppConfig {
    /// Name of the configuration file.
    pub const FILE_NAME: &'static str = "config.toml";

    /// The path of the configuration file inside the configuration directory `dir`.
    pub fn config_path_in(dir: Option<String>) -> (res: Result<String, ConfigError>)
        ensures
            match dir {
                Some(d) => res matches Ok(p) && p@ == spec_join(d@, "config.toml"@),
                None => res matches Err(e) && e == ConfigError::NoConfigDir,
            },
    {
        match dir {
            Some(d) => Ok(path_join(d.as_str(), "config.toml")),
            None => Err(ConfigError::NoConfigDir),
        }
    }

    /// The path of the configuration file in the user's configuration folder for this
    /// application, the folder named after `config_dir_names`; it fails when the user's
    /// home directory cannot be found, which depends on the environment.
    pub fn config_path() -> (res: Result<String, ConfigError>)
        ensures
            match res {
                Ok(p) => exists|base: Seq<char>| p@ == spec_config_file(base),
                Err(e) => e == ConfigError::NoConfigDir,
            },
    {
        let (qualifier, organization, application) = config_dir_names();
        let dir = project_config_dir(qualifier, organization, application);
        let ghost found = dir;
        let res = Self::config_path_in(dir);
        proof {
            if let Some(d) = found {
                let base = choose|base: Seq<char>|
                    d@ == spec_join(base, spec_config_fragment(qualifier@, organization@, application@));
                assert(res.unwrap()@ == spec_config_file(base));
            }
        }
        res
    }
}

} // verus!
