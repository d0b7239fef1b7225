//! Planning how the current source file is built and run.

use vstd::prelude::*;
use vstd::string::StringExecFns;
use crate::config::CompilerConfig;
use crate::paths::{
    is_c_source, is_cpp_source, path_join, path_parent, spec_is_c_source, spec_is_cpp_source,
    spec_join, spec_parent,
};
use crate::text::{replace_char, spec_replace_char};

verus! {

/// Builds and runs sources with the configured compilers.
#[derive(Debug, Clone)]
pub struct CompilerService {
    config: CompilerConfig,
}

/// What a build produced: the executable's path, the compiler's output and its exit
/// code (-1 when it was stopped by a signal).
#[derive(Debug, Clone)]
pub struct BuildResult {
    pub executable: String,
    pub stdout: String,
    pub stderr: String,
    pub exit_code: i32,
}

/// Why a source file cannot be built.
#[derive(Debug, Clone, Copy, PartialEq, Eq, Structural)]
pub enum BuildError {
    /// The file is neither a C nor a C++ source.
    UnsupportedExtension,
    /// The file's path has no parent folder to build in.
    NoParent,
}

impl BuildError {
    /// The message that reports this error.
    pub fn message(&self) -> (res: &'static str)
        ensures
            res@ == match self {
                BuildError::UnsupportedExtension => "unsupported source extension"@,
                BuildError::NoParent => "source file has no parent"@,
            },
    {
        match self {
            BuildError::UnsupportedExtension => "unsupported source extension",
            BuildError::NoParent => "source file has no parent",
        }
    }
}

/// The compiler run that builds a source file: `compiler source -o executable`, run in
/// `working_dir`.
#[derive(Debug, Clone)]
pub struct BuildPlan {
    pub compiler: String,
    pub args: Vec<String>,
    pub working_dir: String,
    pub executable: String,
}

/// The text decoded from bytes with invalid sequences replaced, as
/// `String::from_utf8_lossy` decodes it.
pub uninterp spec fn spec_utf8_lossy(bytes: Seq<u8>) -> Seq<char>;

/// `String::from_utf8_lossy`: its result is named by `spec_utf8_lossy`; as its
/// documentation states, valid UTF-8 is decoded unchanged.
#[verifier::external_body]
fn utf8_lossy(bytes: &[u8]) -> (res: String)
    ensures
        res@ == spec_utf8_lossy(bytes@),
        vstd::utf8::valid_utf8(bytes@) ==> res@ == vstd::utf8::decode_utf8(bytes@),
{
    String::from_utf8_lossy(bytes).into_owned()
}

impl BuildResult {
    /// The result of a finished compiler run: its output decoded as text, and its exit
    /// code, or -1 when the process has none.
    pub fn from_output(executable: String, stdout: &[u8], stderr: &[u8], code: Option<i32>) -> (res: BuildResult)
        ensures
            res.executable == executable,
            res.stdout@ == spec_utf8_lossy(stdout@),
            res.stderr@ == spec_utf8_lossy(stderr@),
            res.exit_code == match code {
                Some(c) => c,
                None => -1i32,
            },
    {
        BuildResult {
            executable,
            stdout: utf8_lossy(stdout),
            stderr: utf8_lossy(stderr),
            exit_code: match code {
                Some(c) => c,
                None => -1,
            },
        }
    }
}

/// The compiler that builds `source`: the C compiler for C sources, the C++ compiler
/// for C++ sources.
pub open spec fn spec_compiler_for(config: CompilerConfig, source: Seq<char>) -> Result<Seq<char>, BuildError> {
    if spec_is_c_source(source) {
        Ok(config.c_compiler@)
    } else if spec_is_cpp_source(source) {
        Ok(config.cpp_compiler@)
    } else {
        Err(BuildError::UnsupportedExtension)
    }
}

/// `value` quoted for a POSIX shell: within single quotes, each single quote written as
/// `'\''`.
pub open spec fn spec_shell_quote(value: Seq<char>) -> Seq<char> {
    seq!['\''] + spec_replace_char(value, '\'', seq!['\'', '\\', '\'', '\'']) + seq!['\'']
}

/// `value` as an AppleScript string literal: within double quotes, each backslash
/// doubled, then each double quote preceded by a backslash.
pub open spec fn spec_apple_script_string(value: Seq<char>) -> Seq<char> {
    seq!['"'] + spec_replace_char(
        spec_replace_char(value, '\\', seq!['\\', '\\']),
        '"',
        seq!['\\', '"'],
    ) + seq!['"']
}

/// Quotes a path for a POSIX shell.
pub fn shell_quote(path: &str) -> (res: String)
    ensures
        res@ == spec_shell_quote(path@),
{
    let escaped = replace_char(path, '\'', "'\\''");
    proof {
        reveal_strlit("'\\''");
        reveal_strlit("'");
    }
    let mut res = "'".to_owned();
    res.append(escaped.as_str());
    res.append("'");
    proof {
        assert("'\\''"@ =~= seq!['\'', '\\', '\'', '\'']);
        assert(res@ =~= spec_shell_quote(path@));
    }
    res
}

/// Writes a string as an AppleScript string literal.
pub fn apple_script_string(value: &str) -> (res: String)
    ensures
        res@ == spec_apple_script_string(value@),
{
    let backslashes = replace_char(value, '\\', "\\\\");
    let escaped = replace_char(backslashes.as_str(), '"', "\\\"");
    proof {
        reveal_strlit("\\\\");
        reveal_strlit("\\\"");
        reveal_strlit("\"");
    }
    let mut res = "\"".to_owned();
    res.append(escaped.as_str());
    res.append("\"");
    proof {
        assert("\\\\"@ =~= seq!['\\', '\\']);
        assert("\\\""@ =~= seq!['\\', '"']);
        assert(res@ =~= spec_apple_script_string(value@));
    }
    res
}

/// The folder that holds `source`.
fn source_parent(source: &str) -> (res: Result<String, BuildError>)
    ensures
        match spec_parent(source@) {
            Some(p) => res matches Ok(r) && r@ == p,
            None => res matches Err(e) && e == BuildError::NoParent,
        },
{
    match path_parent(source) {
        Some(p) => Ok(p),
        None => Err(BuildError::NoParent),
    }
}

/// The shell command that runs `executable` in `working_dir` and then waits for Enter.
pub open spec fn spec_run_command(executable: Seq<char>, working_dir: Seq<char>) -> Seq<char> {
    "cd "@ + spec_shell_quote(working_dir) + " && "@ + spec_shell_quote(executable)
        + " ; echo ; echo '[Lite Dev-C++] Process finished. Press Enter to close.' ; read"@
}

/// The AppleScript that runs that command in a new Terminal window.
pub open spec fn spec_terminal_script(executable: Seq<char>, working_dir: Seq<char>) -> Seq<char> {
    "tell application \"Terminal\"\n  activate\n  do script "@ + spec_apple_script_string(
        spec_run_command(executable, working_dir),
    ) + "\nend tell"@
}

/// The AppleScript that opens Terminal and runs `executable` in `working_dir`, waiting
/// for Enter once the program ends, so that programs reading standard input can be used.
pub fn terminal_script(executable: &str, working_dir: &str) -> (res: String)
    ensures
        res@ == spec_terminal_script(executable@, working_dir@),
{
    let mut command = "cd ".to_owned();
    command.append(shell_quote(working_dir).as_str());
    command.append(" && ");
    command.append(shell_quote(executable).as_str());
    command.append(" ; echo ; echo '[Lite Dev-C++] Process finished. Press Enter to close.' ; read");
    let mut script = "tell application \"Terminal\"\n  activate\n  do script ".to_owned();
    script.append(apple_script_string(command.as_str()).as_str());
    script.append("\nend tell");
    script
}

impl CompilerService {
    /// The compiler settings this service builds with.
    pub closed spec fn compiler_config(&self) -> CompilerConfig {
        self.config
    }

    pub fn new(config: CompilerConfig) -> (res: Self)
        ensures
            res.compiler_config() == config,
    {
        Self { config }
    }

    fn compiler_for_source(&self, source: &str) -> (res: Result<&str, BuildError>)
        ensures
            match spec_compiler_for(self.compiler_config(), source@) {
                Ok(c) => res matches Ok(r) && r@ == c,
                Err(e) => res matches Err(r) && r == e,
            },
    {
        if is_c_source(source) {
            return Ok(self.config.c_compiler.as_str());
        }
        if is_cpp_source(source) {
            return Ok(self.config.cpp_compiler.as_str());
        }
        Err(BuildError::UnsupportedExtension)
    }

    /// How `source` is built: with the compiler for its language, into an executable
    /// named `a` in the source's folder, run in that folder. It fails for a file that is
    /// neither a C nor a C++ source, or whose path has no parent.
    pub fn build_plan(&self, source: &str) -> (res: Result<BuildPlan, BuildError>)
        ensures
            match spec_compiler_for(self.compiler_config(), source@) {
                Err(e) => res matches Err(r) && r == e,
                Ok(compiler) => match spec_parent(source@) {
                    None => res matches Err(r) && r == BuildError::NoParent,
                    Some(dir) => res matches Ok(plan) && {
                        &&& plan.compiler@ == compiler
                        &&& plan.working_dir@ == dir
                        &&& plan.executable@ == spec_join(dir, "a"@)
                        &&& plan.args@.len() == 3
                        &&& plan.args@[0]@ == source@
                        &&& plan.args@[1]@ == "-o"@
                        &&& plan.args@[2]@ == plan.executable@
                    },
                },
            },
    {
        let compiler = self.compiler_for_source(source)?;
        let source_dir = source_parent(source)?;
        let executable = path_join(source_dir.as_str(), "a");
        let mut args: Vec<String> = Vec::new();
        args.push(source.to_owned());
        args.push("-o".to_owned());
        args.push(executable.clone());
        Ok(BuildPlan { compiler: compiler.to_owned(), args, working_dir: source_dir, executable })
    }
}

/// Sources in one folder are built into the same executable, so building one replaces
/// what another built.
pub proof fn same_folder_same_executable(config: CompilerConfig, a: Seq<char>, b: Seq<char>)
    requires
        spec_compiler_for(config, a) is Ok,
        spec_compiler_for(config, b) is Ok,
        spec_parent(a) is Some,
        spec_parent(a) == spec_parent(b),
    ensures
        spec_join(spec_parent(a)->0, "a"@) == spec_join(spec_parent(b)->0, "a"@),
{
}

} // verus!
