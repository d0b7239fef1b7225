//! The editor's state and the decisions it takes on each request and on each outcome
//! of the file system, the compiler and the terminal, which the caller reports back.

use vstd::prelude::*;
use vstd::string::StringExecFns;
use crate::compiler::BuildResult;
use crate::config::AppConfig;
use crate::file_dialog::{FileDialogKind, FileDialogState, UnsavedResponse};
use crate::file_ops::{path_contains, unique_child_name, spec_candidate_name};
use crate::paths::{
    is_supported_source, path_file_name, path_join, path_parent, path_strip_prefix,
    spec_file_name, spec_is_supported_source, spec_join, spec_parent, spec_path_eq,
    spec_starts_with, spec_strip_prefix,
};
use crate::project::{arranged, well_placed, FileNode, Project};
use crate::text::{
    chars_of, char_utf8_len, lemma_encode_concat, concat2, concat3, concat4, contains_char, ends_with_char,
    i32_to_string, lemma_split_encoding, lemma_utf8_len_take_succ, signed_decimal, spec_trim,
    str_eq, string_from_chars, trim, utf8_len,
};

verus! {

/// Most bytes the output panel keeps; older output is dropped from its front.
pub const MAX_OUTPUT_BYTES: usize = 200000;

/// A request that waits for unsaved changes to be saved or discarded.
#[derive(Debug)]
pub enum PendingAction {
    OpenFolder(String),
    OpenFile(String),
    Close,
}

/// A naming dialog that passed validation, with the trimmed name to apply.
#[derive(Debug)]
pub struct FileDialogRequest {
    pub dialog: FileDialogState,
    pub name: String,
}

/// The editor's state.
#[derive(Debug)]
pub struct LiteDevCppApp {
    pub project: Option<Project>,
    pub config: AppConfig,
    pub current_file: Option<String>,
    pub editor_text: String,
    pub dirty: bool,
    pub output: String,
    pub last_executable: Option<String>,
    pub file_dialog: Option<FileDialogState>,
    pub delete_candidate: Option<String>,
    pub pending_action: Option<PendingAction>,
    pub allow_close: bool,
    pub building: bool,
    pub run_after_build: bool,
}

/// Number of characters dropped from the front of `s` (looking from the `k`-th on) so
/// that at least `need` bytes go.
pub open spec fn drop_count(s: Seq<char>, k: int, need: int) -> int
    decreases s.len() - k,
{
    if k >= s.len() || utf8_len(s.take(k)) >= need {
        k
    } else {
        drop_count(s, k + 1, need)
    }
}

/// The output kept when it grows past the limit: the shortest run of whole characters
/// is dropped from its front so that at most `MAX_OUTPUT_BYTES` bytes remain.
pub open spec fn spec_trim_output(s: Seq<char>) -> Seq<char> {
    if utf8_len(s) <= MAX_OUTPUT_BYTES {
        s
    } else {
        s.skip(drop_count(s, 0, utf8_len(s) - MAX_OUTPUT_BYTES))
    }
}

/// The output after the line `msg` is added.
pub open spec fn pushed(out: Seq<char>, msg: Seq<char>) -> Seq<char> {
    spec_trim_output(out + msg + seq!['\n'])
}

/// The project, settings, open file, its text and the last executable are unchanged.
pub open spec fn same_workspace(a: LiteDevCppApp, b: LiteDevCppApp) -> bool {
    &&& a.project == b.project
    &&& a.config == b.config
    &&& a.current_file == b.current_file
    &&& a.editor_text == b.editor_text
    &&& a.dirty == b.dirty
    &&& a.last_executable == b.last_executable
}

/// The dialogs, the waiting request and the permission to close are unchanged.
pub open spec fn same_dialogs(a: LiteDevCppApp, b: LiteDevCppApp) -> bool {
    &&& a.file_dialog == b.file_dialog
    &&& a.delete_candidate == b.delete_candidate
    &&& a.pending_action == b.pending_action
    &&& a.allow_close == b.allow_close
}

/// The build state is unchanged.
pub open spec fn same_build(a: LiteDevCppApp, b: LiteDevCppApp) -> bool {
    &&& a.building == b.building
    &&& a.run_after_build == b.run_after_build
}

/// Only the output changed, to `out`.
pub open spec fn only_output(a: LiteDevCppApp, b: LiteDevCppApp, out: Seq<char>) -> bool {
    same_workspace(a, b) && same_dialogs(a, b) && same_build(a, b) && b.output@ == out
}

/// Only the waiting request changed, to `action`.
pub open spec fn waits_for(a: LiteDevCppApp, b: LiteDevCppApp, action: PendingAction) -> bool {
    &&& same_workspace(a, b)
    &&& same_build(a, b)
    &&& b.output == a.output
    &&& b.file_dialog == a.file_dialog
    &&& b.delete_candidate == a.delete_candidate
    &&& b.allow_close == a.allow_close
    &&& b.pending_action == Some(action)
}

/// Dropping characters from `k` on until at least `need` bytes went stops within the
/// text, having dropped enough.
pub proof fn lemma_drop_count(s: Seq<char>, k: int, need: int)
    requires
        0 <= k <= s.len(),
        need <= utf8_len(s),
    ensures
        k <= drop_count(s, k, need) <= s.len(),
        utf8_len(s.take(drop_count(s, k, need))) >= need,
    decreases s.len() - k,
{
    if k >= s.len() {
        assert(s.take(k) =~= s);
    } else if utf8_len(s.take(k)) < need {
        lemma_drop_count(s, k + 1, need);
    }
}

/// The output panel never holds more than `MAX_OUTPUT_BYTES` bytes once trimmed, and
/// what it keeps is the end of what it held.
pub proof fn trimmed_output_is_bounded(s: Seq<char>)
    ensures
        utf8_len(spec_trim_output(s)) <= MAX_OUTPUT_BYTES,
        exists|k: int| 0 <= k <= s.len() && spec_trim_output(s) == s.skip(k),
{
    if utf8_len(s) <= MAX_OUTPUT_BYTES {
        assert(s.skip(0) =~= s);
    } else {
        let need = utf8_len(s) - MAX_OUTPUT_BYTES;
        lemma_drop_count(s, 0, need);
        let k = drop_count(s, 0, need);
        lemma_split_encoding(s, k);
    }
}

proof fn lemma_drop_count_at_most(s: Seq<char>, k: int, need: int, j: int)
    requires
        0 <= k <= j <= s.len(),
        utf8_len(s.take(j)) >= need,
    ensures
        drop_count(s, k, need) <= j,
    decreases j - k,
{
    if k < j && utf8_len(s.take(k)) < need {
        lemma_drop_count_at_most(s, k + 1, need, j);
    }
}

/// A line added to the output stays whole at its end unless the line alone exceeds the
/// output's limit: older output is dropped first.
pub proof fn added_line_is_kept(out: Seq<char>, msg: Seq<char>)
    requires
        utf8_len(msg + seq!['\n']) <= MAX_OUTPUT_BYTES,
    ensures
        pushed(out, msg).len() >= msg.len() + 1,
        pushed(out, msg).skip(pushed(out, msg).len() - (msg.len() + 1)) == msg + seq!['\n'],
{
    let line = msg + seq!['\n'];
    let s = out + msg + seq!['\n'];
    assert(s =~= out + line);
    lemma_encode_concat(out, line);
    if utf8_len(s) > MAX_OUTPUT_BYTES {
        let need = utf8_len(s) - MAX_OUTPUT_BYTES;
        assert(s.take(out.len() as int) =~= out);
        lemma_drop_count_at_most(s, 0, need, out.len() as int);
        lemma_drop_count(s, 0, need);
        let k = drop_count(s, 0, need);
        let t = s.skip(k);
        assert(t.skip(t.len() - (msg.len() + 1)) =~= line);
    } else {
        assert(s.skip(s.len() - (msg.len() + 1)) =~= line);
    }
}

impl LiteDevCppApp {
    /// Drops the oldest output until it fits in `MAX_OUTPUT_BYTES` bytes, cutting only
    /// between characters.
    fn trim_output(&mut self)
        ensures
            only_output(*old(self), *final(self), spec_trim_output(old(self).output@)),
    {
        let cs = chars_of(self.output.as_str());
        let ghost s = self.output@;
        let mut total: u128 = 0;
        let mut i: usize = 0;
        assert(s.take(0) =~= Seq::<char>::empty());
        while i < cs.len()
            invariant
                cs@ == s,
                i <= cs.len(),
                total == utf8_len(s.take(i as int)),
                total <= 4 * i,
            decreases cs.len() - i,
        {
            proof {
                lemma_utf8_len_take_succ(s, i as int);
            }
            total = total + char_utf8_len(cs[i]) as u128;
            i += 1;
        }
        assert(s.take(cs.len() as int) =~= s);
        if total <= MAX_OUTPUT_BYTES as u128 {
            return;
        }
        let need: u128 = total - MAX_OUTPUT_BYTES as u128;
        let mut k: usize = 0;
        let mut b: u128 = 0;
        while k < cs.len() && b < need
            invariant
                cs@ == s,
                k <= cs.len(),
                b == utf8_len(s.take(k as int)),
                b <= 4 * k,
                drop_count(s, 0, need as int) == drop_count(s, k as int, need as int),
            decreases cs.len() - k,
        {
            proof {
                lemma_utf8_len_take_succ(s, k as int);
            }
            b = b + char_utf8_len(cs[k]) as u128;
            k += 1;
        }
        let (_, tail) = cs.as_slice().split_at(k);
        self.output = string_from_chars(tail);
    }

    /// Adds a line to the output panel.
    pub fn push_output(&mut self, message: &str)
        ensures
            only_output(*old(self), *final(self), pushed(old(self).output@, message@)),
    {
        let line = concat2(message, "\n");
        proof {
            reveal_strlit("\n");
        }
        self.output.append(line.as_str());
        assert(self.output@ =~= old(self).output@ + message@ + seq!['\n']);
        self.trim_output();
    }
}

impl LiteDevCppApp {
    /// The state at start-up, given how loading the settings went: the loaded settings,
    /// or the defaults and a message saying why they could not be loaded.
    pub fn new(loaded: Result<AppConfig, String>) -> (res: Self)
        ensures
            res.project is None,
            res.current_file is None,
            res.editor_text@ == Seq::<char>::empty(),
            !res.dirty,
            res.last_executable is None,
            res.file_dialog is None,
            res.delete_candidate is None,
            res.pending_action is None,
            !res.allow_close,
            !res.building,
            !res.run_after_build,
            match loaded {
                Ok(c) => res.config == c && res.output@ == "Open a folder to begin.\n"@,
                Err(e) => res.config.compiler.c_compiler@ == "clang"@
                    && res.config.compiler.cpp_compiler@ == "clang++"@ && res.output@
                    == "Could not load config; using defaults: "@ + e@ + "\n"@,
            },
    {
        let (config, output) = match loaded {
            Ok(config) => (config, "Open a folder to begin.\n".to_owned()),
            Err(err) => (
                AppConfig::default(),
                concat3("Could not load config; using defaults: ", err.as_str(), "\n"),
            ),
        };
        LiteDevCppApp {
            project: None,
            config,
            current_file: None,
            editor_text: String::new(),
            dirty: false,
            output,
            last_executable: None,
            file_dialog: None,
            delete_candidate: None,
            pending_action: None,
            allow_close: false,
            building: false,
            run_after_build: false,
        }
    }

    /// Opens `folder` as the project, given the entries read from it: the tree is built
    /// from them and the open file is closed; when reading failed, only the error is
    /// reported.
    pub fn open_folder(&mut self, folder: String, listing: Result<Vec<FileNode>, String>)
        ensures
            match listing {
                Ok(entries) => {
                    &&& final(self).project matches Some(p) && p.root_path() == folder@
                        && arranged(entries@, p.node_list()) && (well_placed(folder@, entries@)
                        ==> well_placed(folder@, p.node_list()))
                    &&& final(self).config == old(self).config
                    &&& final(self).current_file is None
                    &&& final(self).editor_text@ == Seq::<char>::empty()
                    &&& !final(self).dirty
                    &&& final(self).last_executable is None
                    &&& same_dialogs(*old(self), *final(self))
                    &&& same_build(*old(self), *final(self))
                    &&& final(self).output@ == pushed(old(self).output@, "Opened folder: "@ + folder@)
                },
                Err(e) => only_output(
                    *old(self),
                    *final(self),
                    pushed(old(self).output@, "Could not open folder: "@ + e@),
                ),
            },
    {
        match listing {
            Ok(entries) => {
                let message = concat2("Opened folder: ", folder.as_str());
                self.project = Some(Project::open(folder, entries));
                self.current_file = None;
                self.editor_text = String::new();
                self.dirty = false;
                self.last_executable = None;
                self.push_output(message.as_str());
            },
            Err(err) => {
                let message = concat2("Could not open folder: ", err.as_str());
                self.push_output(message.as_str());
            },
        }
    }

    /// Asks to open the file at `path`: with unsaved changes the request waits for the
    /// user's answer and nothing is to be read; otherwise the path to read is given back.
    pub fn open_file(&mut self, path: String) -> (res: Option<String>)
        ensures
            old(self).dirty ==> res is None && waits_for(
                *old(self),
                *final(self),
                PendingAction::OpenFile(path),
            ),
            !old(self).dirty ==> res == Some(path) && *final(self) == *old(self),
    {
        if self.dirty {
            self.pending_action = Some(PendingAction::OpenFile(path));
            return None;
        }
        Some(path)
    }

    /// Shows the file at `path`, given what reading it gave: its text, or the error.
    pub fn open_file_now(&mut self, path: String, contents: Result<String, String>)
        ensures
            match contents {
                Ok(text) => {
                    &&& final(self).current_file == Some(path)
                    &&& final(self).editor_text == text
                    &&& !final(self).dirty
                    &&& final(self).last_executable is None
                    &&& final(self).project == old(self).project
                    &&& final(self).config == old(self).config
                    &&& same_dialogs(*old(self), *final(self))
                    &&& same_build(*old(self), *final(self))
                    &&& final(self).output@ == pushed(old(self).output@, "Opened file: "@ + path@)
                },
                Err(e) => only_output(
                    *old(self),
                    *final(self),
                    pushed(old(self).output@, "Could not open file "@ + path@ + ": "@ + e@),
                ),
            },
    {
        match contents {
            Ok(text) => {
                let message = concat2("Opened file: ", path.as_str());
                self.current_file = Some(path);
                self.editor_text = text;
                self.dirty = false;
                self.last_executable = None;
                self.push_output(message.as_str());
            },
            Err(err) => {
                let message = concat4("Could not open file ", path.as_str(), ": ", err.as_str());
                self.push_output(message.as_str());
            },
        }
    }

    /// Records how writing the open file went (nothing is written without an open
    /// file), and tells whether it was saved.
    pub fn save_current_file(&mut self, written: Result<(), String>) -> (res: bool)
        ensures
            match old(self).current_file {
                None => !res && only_output(*old(self), *final(self), pushed(old(self).output@, "No file is open."@)),
                Some(p) => match written {
                    Ok(_) => res && !final(self).dirty && final(self).project == old(self).project
                        && final(self).config == old(self).config && final(self).current_file
                        == old(self).current_file && final(self).editor_text == old(self).editor_text
                        && final(self).last_executable == old(self).last_executable
                        && same_dialogs(*old(self), *final(self)) && same_build(*old(self), *final(self))
                        && final(self).output@ == pushed(old(self).output@, "Saved file: "@ + p@),
                    Err(e) => !res && only_output(
                        *old(self),
                        *final(self),
                        pushed(old(self).output@, "Could not save file "@ + p@ + ": "@ + e@),
                    ),
                },
            },
    {
        let message = match &self.current_file {
            None => {
                self.push_output("No file is open.");
                return false;
            },
            Some(path) => match &written {
                Ok(()) => concat2("Saved file: ", path.as_str()),
                Err(err) => concat4("Could not save file ", path.as_str(), ": ", err.as_str()),
            },
        };
        let saved = written.is_ok();
        if saved {
            self.dirty = false;
        }
        self.push_output(message.as_str());
        saved
    }

    /// Reports how saving the settings went: the file written, or the error.
    pub fn save_app_config(&mut self, saved: Result<String, String>)
        ensures
            only_output(
                *old(self),
                *final(self),
                match saved {
                    Ok(p) => pushed(old(self).output@, "Saved config: "@ + p@),
                    Err(e) => pushed(old(self).output@, "Could not save config: "@ + e@),
                },
            ),
    {
        let message = match saved {
            Ok(path) => concat2("Saved config: ", path.as_str()),
            Err(err) => concat2("Could not save config: ", err.as_str()),
        };
        self.push_output(message.as_str());
    }

    /// Asks for `action`: with unsaved changes it waits for the user's answer; otherwise
    /// it is given back to be performed now.
    pub fn request_action(&mut self, action: PendingAction) -> (res: Option<PendingAction>)
        ensures
            old(self).dirty ==> res is None && waits_for(*old(self), *final(self), action),
            !old(self).dirty ==> res == Some(action) && *final(self) == *old(self),
    {
        if self.dirty {
            self.pending_action = Some(action);
            None
        } else {
            Some(action)
        }
    }
}

/// `out` followed by `text`, and by a newline unless `text` ends with one.
pub open spec fn with_block(out: Seq<char>, text: Seq<char>) -> Seq<char> {
    if text.len() > 0 && text.last() == '\n' {
        out + text
    } else {
        out + text + seq!['\n']
    }
}

/// The output after the report of a compiler run labelled `label`: its exit code, its
/// standard output and error streams when they hold more than whitespace, and, for a
/// build, the executable's path.
pub open spec fn build_report(out: Seq<char>, label: Seq<char>, r: BuildResult) -> Seq<char> {
    let o1 = pushed(out, "== "@ + label + ": exit code "@ + signed_decimal(r.exit_code as int) + " =="@);
    let o2 = if spec_trim(r.stdout@).len() != 0 {
        with_block(pushed(o1, "-- stdout --"@), r.stdout@)
    } else {
        o1
    };
    let o3 = if spec_trim(r.stderr@).len() != 0 {
        with_block(pushed(o2, "-- stderr --"@), r.stderr@)
    } else {
        o2
    };
    let o4 = if label == "Build"@ {
        pushed(o3, "Executable: "@ + r.executable@)
    } else {
        o3
    };
    spec_trim_output(o4)
}

/// What asking for a build does, from state `a` to state `b`, giving back `res`.
pub open spec fn build_started(a: LiteDevCppApp, b: LiteDevCppApp, run_after_build: bool, res: Option<String>) -> bool {
    if a.building {
        res is None && only_output(a, b, pushed(a.output@, "A build is already running."@))
    } else if a.dirty {
        res is None && only_output(
            a,
            b,
            pushed(a.output@, "Build cancelled because the file could not be saved."@),
        )
    } else {
        match a.current_file {
            None => res is None && only_output(
                a,
                b,
                pushed(a.output@, "Open a C/C++ file before building."@),
            ),
            Some(f) => if !spec_is_supported_source(f@) {
                res is None && only_output(
                    a,
                    b,
                    pushed(a.output@, "The current file is not a supported C/C++ source file."@),
                )
            } else {
                &&& res == Some(f)
                &&& b.building
                &&& b.run_after_build == run_after_build
                &&& b.last_executable is None
                &&& b.project == a.project
                &&& b.config == a.config
                &&& b.current_file == a.current_file
                &&& b.editor_text == a.editor_text
                &&& b.dirty == a.dirty
                &&& same_dialogs(a, b)
                &&& b.output@ == pushed(a.output@, "Build started..."@)
            },
        }
    }
}

/// `s` ends with `t`.
pub open spec fn ends_with(s: Seq<char>, t: Seq<char>) -> bool {
    t.len() <= s.len() && s.subrange(s.len() - t.len(), s.len() as int) == t
}

/// The block that reports an output stream of a compiler run: its header line and its
/// text, ended by a newline; nothing when the text is only whitespace.
pub open spec fn stream_block(header: Seq<char>, text: Seq<char>) -> Seq<char> {
    if spec_trim(text).len() != 0 {
        header + seq!['\n'] + text + if text.len() > 0 && text.last() == '\n' {
            Seq::<char>::empty()
        } else {
            seq!['\n']
        }
    } else {
        Seq::<char>::empty()
    }
}

/// The lines that report a compiler run labelled `label`: the exit code, each output
/// stream that holds more than whitespace, and, for a build, the executable.
pub open spec fn report_lines(label: Seq<char>, r: BuildResult) -> Seq<char> {
    "== "@ + label + ": exit code "@ + signed_decimal(r.exit_code as int) + " =="@ + seq!['\n']
        + stream_block("-- stdout --"@, r.stdout@) + stream_block("-- stderr --"@, r.stderr@)
        + if label == "Build"@ {
        "Executable: "@ + r.executable@ + seq!['\n']
    } else {
        Seq::<char>::empty()
    }
}

proof fn lemma_utf8_len_prefix(a: Seq<char>, b: Seq<char>)
    ensures
        utf8_len(a) <= utf8_len(a + b),
{
    lemma_encode_concat(a, b);
}

/// Trimming the output keeps any end of it that fits within the limit.
proof fn lemma_trim_keeps_end(p: Seq<char>, t: Seq<char>) -> (q: Seq<char>)
    requires
        utf8_len(t) <= MAX_OUTPUT_BYTES,
    ensures
        spec_trim_output(p + t) == q + t,
{
    let s = p + t;
    lemma_encode_concat(p, t);
    if utf8_len(s) <= MAX_OUTPUT_BYTES {
        p
    } else {
        let need = utf8_len(s) - MAX_OUTPUT_BYTES;
        assert(s.take(p.len() as int) =~= p);
        lemma_drop_count_at_most(s, 0, need, p.len() as int);
        lemma_drop_count(s, 0, need);
        let d = drop_count(s, 0, need);
        assert(s.skip(d) =~= p.skip(d) + t);
        p.skip(d)
    }
}

/// A line pushed to output that ends with `sfx` ends with `sfx` and the line, when they
/// fit within the limit.
proof fn lemma_push_keeps_end(q: Seq<char>, sfx: Seq<char>, m: Seq<char>) -> (q2: Seq<char>)
    requires
        utf8_len(sfx + m + seq!['\n']) <= MAX_OUTPUT_BYTES,
    ensures
        pushed(q + sfx, m) == q2 + (sfx + m + seq!['\n']),
{
    assert(q + sfx + m + seq!['\n'] =~= q + (sfx + m + seq!['\n']));
    lemma_trim_keeps_end(q, sfx + m + seq!['\n'])
}

/// A compiler run's report ends with its exit code, then the block of each output stream
/// that holds more than whitespace, whatever the exit code, then, for a build, the
/// executable's path, whenever these lines fit in the output panel.
pub proof fn build_report_shows_each_stream(out: Seq<char>, label: Seq<char>, r: BuildResult)
    requires
        utf8_len(report_lines(label, r)) <= MAX_OUTPUT_BYTES,
    ensures
        ends_with(build_report(out, label, r), report_lines(label, r)),
{
    let heading = "== "@ + label + ": exit code "@ + signed_decimal(r.exit_code as int) + " =="@;
    let h = heading + seq!['\n'];
    let b1 = stream_block("-- stdout --"@, r.stdout@);
    let b2 = stream_block("-- stderr --"@, r.stderr@);
    let t = if label == "Build"@ {
        "Executable: "@ + r.executable@ + seq!['\n']
    } else {
        Seq::<char>::empty()
    };
    let e = report_lines(label, r);
    assert(e =~= h + b1 + b2 + t);
    // every stage's end is a beginning of the report lines, so it fits too
    lemma_utf8_len_prefix(h + b1 + b2, t);
    lemma_utf8_len_prefix(h + b1, b2);
    lemma_utf8_len_prefix(h, b1);
    // the exit code line
    let q1 = lemma_push_keeps_end(out, seq![], heading);
    assert(seq![] + heading + seq!['\n'] =~= h);
    assert(out + Seq::<char>::empty() =~= out);
    let o1 = pushed(out, heading);
    assert(o1 == q1 + h);
    // the standard output
    let o2 = if spec_trim(r.stdout@).len() != 0 {
        with_block(pushed(o1, "-- stdout --"@), r.stdout@)
    } else {
        o1
    };
    let q2 = if spec_trim(r.stdout@).len() != 0 {
        let sfx = h + "-- stdout --"@ + seq!['\n'];
        lemma_utf8_len_prefix(sfx, b1.skip(sfx.len() - h.len()));
        assert(sfx + b1.skip(sfx.len() - h.len()) =~= h + b1);
        let qq = lemma_push_keeps_end(q1, h, "-- stdout --"@);
        assert(h + "-- stdout --"@ + seq!['\n'] =~= sfx);
        assert(o2 =~= qq + (h + b1));
        qq
    } else {
        assert(b1 =~= Seq::<char>::empty());
        assert(h + b1 =~= h);
        q1
    };
    assert(o2 == q2 + (h + b1));
    // the standard error
    let o3 = if spec_trim(r.stderr@).len() != 0 {
        with_block(pushed(o2, "-- stderr --"@), r.stderr@)
    } else {
        o2
    };
    let q3 = if spec_trim(r.stderr@).len() != 0 {
        let sfx = h + b1 + "-- stderr --"@ + seq!['\n'];
        lemma_utf8_len_prefix(sfx, b2.skip(sfx.len() - (h + b1).len()));
        assert(sfx + b2.skip(sfx.len() - (h + b1).len()) =~= h + b1 + b2);
        let qq = lemma_push_keeps_end(q2, h + b1, "-- stderr --"@);
        assert(h + b1 + "-- stderr --"@ + seq!['\n'] =~= sfx);
        assert(o3 =~= qq + (h + b1 + b2));
        qq
    } else {
        assert(b2 =~= Seq::<char>::empty());
        assert(h + b1 + b2 =~= h + b1);
        q2
    };
    assert(o3 == q3 + (h + b1 + b2));
    // the executable
    let o4 = if label == "Build"@ {
        pushed(o3, "Executable: "@ + r.executable@)
    } else {
        o3
    };
    let q4 = if label == "Build"@ {
        let m = "Executable: "@ + r.executable@;
        assert(h + b1 + b2 + m + seq!['\n'] =~= e);
        let qq = lemma_push_keeps_end(q3, h + b1 + b2, m);
        qq
    } else {
        assert(h + b1 + b2 =~= e);
        q3
    };
    assert(o4 == q4 + e);
    let q5 = lemma_trim_keeps_end(q4, e);
    assert(build_report(out, label, r) == q5 + e);
    assert((q5 + e).subrange((q5 + e).len() - e.len(), (q5 + e).len() as int) =~= e);
}

impl LiteDevCppApp {
    /// Whether the open file has to be saved before a build can start.
    pub fn needs_save_before_build(&self) -> (res: bool)
        ensures
            res == (!self.building && self.dirty),
    {
        !self.building && self.dirty
    }

    /// Starts building the open file, after it was saved when needed: nothing starts
    /// while a build runs, while changes are unsaved, without an open file, or for a file
    /// that is not a C/C++ source; otherwise the file to build is given back.
    pub fn start_build(&mut self, run_after_build: bool) -> (res: Option<String>)
        ensures
            build_started(*old(self), *final(self), run_after_build, res),
    {
        if self.building {
            self.push_output("A build is already running.");
            return None;
        }
        if self.dirty {
            self.push_output("Build cancelled because the file could not be saved.");
            return None;
        }
        let file = match &self.current_file {
            Some(f) => f.clone(),
            None => {
                self.push_output("Open a C/C++ file before building.");
                return None;
            },
        };
        if !is_supported_source(file.as_str()) {
            self.push_output("The current file is not a supported C/C++ source file.");
            return None;
        }
        self.last_executable = None;
        self.building = true;
        self.run_after_build = run_after_build;
        self.push_output("Build started...");
        Some(file)
    }

    /// Starts a build of the open file.
    pub fn build_current_file(&mut self) -> (res: Option<String>)
        ensures
            build_started(*old(self), *final(self), false, res),
    {
        self.start_build(false)
    }

    /// Starts a build of the open file, to be run once it succeeds.
    pub fn build_and_run_current_file(&mut self) -> (res: Option<String>)
        ensures
            build_started(*old(self), *final(self), true, res),
    {
        self.start_build(true)
    }
}

impl LiteDevCppApp {
    /// Records that the build worker went away without a result.
    pub fn build_worker_lost(&mut self)
        ensures
            !final(self).building,
            !final(self).run_after_build,
            same_workspace(*old(self), *final(self)),
            same_dialogs(*old(self), *final(self)),
            final(self).output@ == pushed(old(self).output@, "Build worker stopped unexpectedly."@),
    {
        self.building = false;
        self.run_after_build = false;
        self.push_output("Build worker stopped unexpectedly.");
    }

    /// Reports a finished compiler run labelled `label`.
    pub fn append_build_result(&mut self, label: &str, result: &BuildResult)
        ensures
            only_output(*old(self), *final(self), build_report(old(self).output@, label@, *result)),
    {
        let ghost r = *result;
        let ghost out0 = self.output@;
        let ghost o1 = pushed(out0, "== "@ + label@ + ": exit code "@ + signed_decimal(r.exit_code as int) + " =="@);
        let code = i32_to_string(result.exit_code);
        let heading = concat4("== ", label, ": exit code ", code.as_str());
        let heading = concat2(heading.as_str(), " ==");
        self.push_output(heading.as_str());
        assert(self.output@ == o1);
        let ghost o2 = if spec_trim(r.stdout@).len() != 0 {
            with_block(pushed(o1, "-- stdout --"@), r.stdout@)
        } else {
            o1
        };
        if !trim(result.stdout.as_str()).as_str().is_empty() {
            self.push_output("-- stdout --");
            self.output.append(result.stdout.as_str());
            if !ends_with_char(result.stdout.as_str(), '\n') {
                self.output.append("\n");
            }
            proof {
                reveal_strlit("\n");
                assert(self.output@ =~= o2);
            }
        }
        assert(self.output@ == o2);
        let ghost o3 = if spec_trim(r.stderr@).len() != 0 {
            with_block(pushed(o2, "-- stderr --"@), r.stderr@)
        } else {
            o2
        };
        if !trim(result.stderr.as_str()).as_str().is_empty() {
            self.push_output("-- stderr --");
            self.output.append(result.stderr.as_str());
            if !ends_with_char(result.stderr.as_str(), '\n') {
                self.output.append("\n");
            }
            proof {
                reveal_strlit("\n");
                assert(self.output@ =~= o3);
            }
        }
        assert(self.output@ == o3);
        if str_eq(label, "Build") {
            let line = concat2("Executable: ", result.executable.as_str());
            self.push_output(line.as_str());
        }
        self.trim_output();
    }

    /// Records the result of the build that was running: a successful build's
    /// executable becomes the one to run, the run's report is added, and the answer
    /// tells whether the executable is to be run now (a successful build that was asked
    /// to run); a build that could not be started is reported as failed.
    pub fn finish_build(&mut self, result: Result<BuildResult, String>) -> (res: bool)
        ensures
            !final(self).building,
            !final(self).run_after_build,
            final(self).project == old(self).project,
            final(self).config == old(self).config,
            final(self).current_file == old(self).current_file,
            final(self).editor_text == old(self).editor_text,
            final(self).dirty == old(self).dirty,
            same_dialogs(*old(self), *final(self)),
            match result {
                Ok(r) => {
                    &&& final(self).last_executable == if r.exit_code == 0 {
                        Some(r.executable)
                    } else {
                        old(self).last_executable
                    }
                    &&& final(self).output@ == build_report(old(self).output@, "Build"@, r)
                    &&& res == (r.exit_code == 0 && old(self).run_after_build)
                },
                Err(e) => {
                    &&& final(self).last_executable == old(self).last_executable
                    &&& final(self).output@ == pushed(old(self).output@, "Build failed: "@ + e@)
                    &&& !res
                },
            },
    {
        let run_after_build = self.run_after_build;
        self.run_after_build = false;
        self.building = false;
        match result {
            Ok(result) => {
                if result.exit_code == 0 {
                    self.last_executable = Some(result.executable.clone());
                }
                self.append_build_result("Build", &result);
                result.exit_code == 0 && run_after_build
            },
            Err(err) => {
                let message = concat2("Build failed: ", err.as_str());
                self.push_output(message.as_str());
                false
            },
        }
    }

    /// What to run and where: the last built executable and its folder; nothing without
    /// a built executable or when its path has no parent, which is reported.
    pub fn run_last_executable(&mut self) -> (res: Option<(String, String)>)
        ensures
            match old(self).last_executable {
                None => res is None && only_output(
                    *old(self),
                    *final(self),
                    pushed(old(self).output@, "Build the current file before running it."@),
                ),
                Some(exe) => match spec_parent(exe@) {
                    None => res is None && only_output(
                        *old(self),
                        *final(self),
                        pushed(old(self).output@, "The executable path has no parent folder."@),
                    ),
                    Some(dir) => res matches Some((e, d)) && e == exe && d@ == dir && *final(self)
                        == *old(self),
                },
            },
    {
        let executable = match &self.last_executable {
            Some(e) => e.clone(),
            None => {
                self.push_output("Build the current file before running it.");
                return None;
            },
        };
        match path_parent(executable.as_str()) {
            Some(dir) => Some((executable, dir)),
            None => {
                self.push_output("The executable path has no parent folder.");
                None
            },
        }
    }

    /// Reports whether `executable` was launched in a terminal.
    pub fn finish_run(&mut self, executable: &str, launched: Result<(), String>)
        ensures
            only_output(
                *old(self),
                *final(self),
                match launched {
                    Ok(_) => pushed(old(self).output@, "Launched in terminal: "@ + executable@),
                    Err(e) => pushed(old(self).output@, "Run failed: "@ + e@),
                },
            ),
    {
        let message = match launched {
            Ok(()) => concat2("Launched in terminal: ", executable),
            Err(err) => concat2("Run failed: ", err.as_str()),
        };
        self.push_output(message.as_str());
    }

    /// Rebuilds the project tree from the entries read anew from its folder, or reports
    /// why they could not be read; without a project nothing happens.
    pub fn refresh_project(&mut self, listing: Result<Vec<FileNode>, String>)
        ensures
            match old(self).project {
                None => *final(self) == *old(self),
                Some(old_project) => match listing {
                    Ok(entries) => {
                        &&& final(self).project matches Some(p) && p.root_path()
                            == old_project.root_path() && arranged(entries@, p.node_list())
                            && (well_placed(old_project.root_path(), entries@) ==> well_placed(
                            p.root_path(),
                            p.node_list(),
                        ))
                        &&& final(self).config == old(self).config
                        &&& final(self).current_file == old(self).current_file
                        &&& final(self).editor_text == old(self).editor_text
                        &&& final(self).dirty == old(self).dirty
                        &&& final(self).last_executable == old(self).last_executable
                        &&& same_dialogs(*old(self), *final(self))
                        &&& same_build(*old(self), *final(self))
                        &&& final(self).output@ == pushed(old(self).output@, "File tree refreshed."@)
                    },
                    Err(e) => only_output(
                        *old(self),
                        *final(self),
                        pushed(old(self).output@, "Could not refresh file tree: "@ + e@),
                    ),
                },
            },
    {
        match self.project.take() {
            None => {},
            Some(mut project) => match listing {
                Ok(entries) => {
                    project.refresh(entries);
                    self.project = Some(project);
                    self.push_output("File tree refreshed.");
                },
                Err(err) => {
                    self.project = Some(project);
                    let message = concat2("Could not refresh file tree: ", err.as_str());
                    self.push_output(message.as_str());
                },
            },
        }
    }
}

/// Everything but the naming dialog is unchanged.
pub open spec fn only_dialog(a: LiteDevCppApp, b: LiteDevCppApp) -> bool {
    &&& same_workspace(a, b)
    &&& same_build(a, b)
    &&& b.output == a.output
    &&& b.delete_candidate == a.delete_candidate
    &&& b.pending_action == a.pending_action
    &&& b.allow_close == a.allow_close
}

/// `name` is `preferred` or one of its numbered alternatives.
pub open spec fn offered_name(name: Seq<char>, preferred: Seq<char>) -> bool {
    name == preferred || exists|i: nat| 2 <= i < 1000 && name == spec_candidate_name(preferred, i)
}

impl LiteDevCppApp {
    /// Opens the dialog that names a new file in folder `dir`, offering a free name
    /// based on `untitled.cpp`.
    pub fn start_new_file(&mut self, dir: String)
        ensures
            only_dialog(*old(self), *final(self)),
            final(self).file_dialog matches Some(d) && d.kind == FileDialogKind::NewFile && d.target
                == dir && offered_name(d.value@, "untitled.cpp"@),
    {
        let value = unique_child_name(dir.as_str(), "untitled.cpp");
        self.file_dialog = Some(FileDialogState { kind: FileDialogKind::NewFile, value, target: dir });
    }

    /// Opens the dialog that names a new folder in folder `dir`, offering a free name
    /// based on `New Folder`.
    pub fn start_new_folder(&mut self, dir: String)
        ensures
            only_dialog(*old(self), *final(self)),
            final(self).file_dialog matches Some(d) && d.kind == FileDialogKind::NewFolder
                && d.target == dir && offered_name(d.value@, "New Folder"@),
    {
        let value = unique_child_name(dir.as_str(), "New Folder");
        self.file_dialog = Some(FileDialogState { kind: FileDialogKind::NewFolder, value, target: dir });
    }

    /// Opens the dialog that renames the entry at `path`, offering its current name.
    pub fn start_rename(&mut self, path: String)
        ensures
            only_dialog(*old(self), *final(self)),
            final(self).file_dialog matches Some(d) && d.kind == FileDialogKind::Rename && d.target
                == path && d.value@ == match spec_file_name(path@) {
                Some(n) => n,
                None => Seq::<char>::empty(),
            },
    {
        let value = match path_file_name(path.as_str()) {
            Some(name) => name,
            None => String::new(),
        };
        self.file_dialog = Some(FileDialogState { kind: FileDialogKind::Rename, target: path, value });
    }

    /// Checks the name typed in the open naming dialog: without surrounding whitespace
    /// it must be neither empty nor hold a `/`, else the dialog stays open and the
    /// problem is reported; a valid name closes the dialog and is given back with it to
    /// be applied.
    pub fn apply_file_dialog(&mut self) -> (res: Option<FileDialogRequest>)
        ensures
            match old(self).file_dialog {
                None => res is None && *final(self) == *old(self),
                Some(d) => {
                    let name = spec_trim(d.value@);
                    if name.len() == 0 {
                        res is None && only_output(
                            *old(self),
                            *final(self),
                            pushed(old(self).output@, "Name cannot be empty."@),
                        )
                    } else if name.contains('/') {
                        res is None && only_output(
                            *old(self),
                            *final(self),
                            pushed(old(self).output@, "Name cannot contain '/'."@),
                        )
                    } else {
                        res matches Some(r) && r.dialog == d && r.name@ == name
                            && final(self).file_dialog is None && only_dialog(
                            *old(self),
                            *final(self),
                        )
                    }
                },
            },
    {
        let dialog = match self.file_dialog.take() {
            Some(d) => d,
            None => return None,
        };
        let name = trim(dialog.value.as_str());
        if name.as_str().is_empty() {
            self.push_output("Name cannot be empty.");
            self.file_dialog = Some(dialog);
            return None;
        }
        if contains_char(name.as_str(), '/') {
            self.push_output("Name cannot contain '/'.");
            self.file_dialog = Some(dialog);
            return None;
        }
        Some(FileDialogRequest { dialog, name })
    }

    /// The file to open once a naming dialog was applied with `outcome`: the new file,
    /// when the dialog created one; it is opened before the outcome is recorded.
    pub fn file_to_open(request: &FileDialogRequest, outcome: &Result<String, String>) -> (res: Option<String>)
        ensures
            match outcome {
                Ok(p) => if request.dialog.kind == FileDialogKind::NewFile {
                    res matches Some(q) && q@ == p@
                } else {
                    res is None
                },
                Err(_) => res is None,
            },
    {
        match outcome {
            Ok(path) => match request.dialog.kind {
                FileDialogKind::NewFile => Some(path.clone()),
                _ => None,
            },
            Err(_) => None,
        }
    }

    /// Records how applying a naming dialog went, given the created or renamed path or
    /// the error: a success is reported (a rename also moves the open file along) and
    /// the answer says the tree is to be refreshed; a failure is reported and the dialog
    /// opens again.
    pub fn finish_file_dialog(&mut self, request: FileDialogRequest, outcome: Result<String, String>) -> (res: bool)
        ensures
            match outcome {
                Ok(p) => {
                    &&& res
                    &&& final(self).project == old(self).project
                    &&& final(self).config == old(self).config
                    &&& final(self).editor_text == old(self).editor_text
                    &&& final(self).dirty == old(self).dirty
                    &&& same_dialogs(*old(self), *final(self))
                    &&& same_build(*old(self), *final(self))
                    &&& match request.dialog.kind {
                        FileDialogKind::NewFile => final(self).current_file == old(self).current_file
                            && final(self).last_executable == old(self).last_executable
                            && final(self).output@ == pushed(old(self).output@, "Created file: "@ + p@),
                        FileDialogKind::NewFolder => final(self).current_file == old(self).current_file
                            && final(self).last_executable == old(self).last_executable
                            && final(self).output@ == pushed(old(self).output@, "Created folder: "@ + p@),
                        FileDialogKind::Rename => {
                            &&& match old(self).current_file {
                                Some(f) => match spec_strip_prefix(f@, request.dialog.target@) {
                                    Some(rel) => final(self).current_file matches Some(nf) && nf@
                                        == spec_join(p@, rel) && final(self).last_executable is None,
                                    None => final(self).current_file == old(self).current_file
                                        && final(self).last_executable == old(self).last_executable,
                                },
                                None => final(self).current_file is None
                                    && final(self).last_executable == old(self).last_executable,
                            }
                            &&& final(self).output@ == pushed(
                                old(self).output@,
                                "Renamed "@ + request.dialog.target@ + " to "@ + p@,
                            )
                        },
                    }
                },
                Err(e) => {
                    &&& !res
                    &&& same_workspace(*old(self), *final(self))
                    &&& same_build(*old(self), *final(self))
                    &&& final(self).delete_candidate == old(self).delete_candidate
                    &&& final(self).pending_action == old(self).pending_action
                    &&& final(self).allow_close == old(self).allow_close
                    &&& final(self).file_dialog == Some(request.dialog)
                    &&& final(self).output@ == pushed(old(self).output@, e@)
                },
            },
    {
        match outcome {
            Ok(path) => {
                let message = match request.dialog.kind {
                    FileDialogKind::NewFile => concat2("Created file: ", path.as_str()),
                    FileDialogKind::NewFolder => concat2("Created folder: ", path.as_str()),
                    FileDialogKind::Rename => {
                        let target = request.dialog.target.as_str();
                        let moved = match &self.current_file {
                            Some(current) => match path_strip_prefix(current.as_str(), target) {
                                Some(relative) => Some(path_join(path.as_str(), relative.as_str())),
                                None => None,
                            },
                            None => None,
                        };
                        match moved {
                            Some(new_file) => {
                                self.current_file = Some(new_file);
                                self.last_executable = None;
                            },
                            None => {},
                        }
                        concat4("Renamed ", target, " to ", path.as_str())
                    },
                };
                self.push_output(message.as_str());
                true
            },
            Err(err) => {
                self.push_output(err.as_str());
                self.file_dialog = Some(request.dialog);
                false
            },
        }
    }

    /// Records how revealing the entry at `path` in Finder went.
    pub fn finish_reveal(&mut self, path: &str, outcome: Result<(), String>)
        ensures
            only_output(
                *old(self),
                *final(self),
                pushed(
                    old(self).output@,
                    match outcome {
                        Ok(_) => "Revealed in Finder: "@ + path@,
                        Err(e) => "Could not reveal in Finder: "@ + e@,
                    },
                ),
            ),
    {
        let message = match outcome {
            Ok(()) => concat2("Revealed in Finder: ", path),
            Err(err) => concat2("Could not reveal in Finder: ", err.as_str()),
        };
        self.push_output(message.as_str());
    }

    /// Reports that the path of an entry was copied to the clipboard.
    pub fn finish_copy_path(&mut self, path: &str)
        ensures
            only_output(*old(self), *final(self), pushed(old(self).output@, "Copied path: "@ + path@)),
    {
        let message = concat2("Copied path: ", path);
        self.push_output(message.as_str());
    }

    /// Asks for the entry at `path` to be moved to the Trash, once the user confirms.
    pub fn mark_for_delete(&mut self, path: String)
        ensures
            final(self).delete_candidate == Some(path),
            same_workspace(*old(self), *final(self)),
            same_build(*old(self), *final(self)),
            final(self).output == old(self).output,
            final(self).file_dialog == old(self).file_dialog,
            final(self).pending_action == old(self).pending_action,
            final(self).allow_close == old(self).allow_close,
    {
        self.delete_candidate = Some(path);
    }

    /// The user confirmed the deletion: the entry waiting for it, if any, is given back
    /// to be moved to the Trash, and no longer waits.
    pub fn confirm_delete_candidate(&mut self) -> (res: Option<String>)
        ensures
            res == old(self).delete_candidate,
            final(self).delete_candidate is None,
            same_workspace(*old(self), *final(self)),
            same_build(*old(self), *final(self)),
            final(self).output == old(self).output,
            final(self).file_dialog == old(self).file_dialog,
            final(self).pending_action == old(self).pending_action,
            final(self).allow_close == old(self).allow_close,
    {
        self.delete_candidate.take()
    }

    /// Records how moving the entry at `path` to the Trash went: on success the open
    /// file is closed when it lay at or below `path`, and the answer says the tree is to
    /// be refreshed; either way the outcome is reported.
    pub fn finish_delete(&mut self, path: &str, outcome: Result<(), String>) -> (res: bool)
        ensures
            match outcome {
                Ok(_) => {
                    &&& res
                    &&& final(self).project == old(self).project
                    &&& final(self).config == old(self).config
                    &&& same_dialogs(*old(self), *final(self))
                    &&& same_build(*old(self), *final(self))
                    &&& final(self).output@ == pushed(old(self).output@, "Moved to Trash: "@ + path@)
                    &&& if old(self).current_file matches Some(f) && (spec_path_eq(f@, path@)
                        || spec_starts_with(f@, path@)) {
                        &&& final(self).current_file is None
                        &&& final(self).editor_text@ == Seq::<char>::empty()
                        &&& !final(self).dirty
                        &&& final(self).last_executable is None
                    } else {
                        &&& final(self).current_file == old(self).current_file
                        &&& final(self).editor_text == old(self).editor_text
                        &&& final(self).dirty == old(self).dirty
                        &&& final(self).last_executable == old(self).last_executable
                    }
                },
                Err(e) => !res && only_output(
                    *old(self),
                    *final(self),
                    pushed(old(self).output@, "Could not move to Trash: "@ + e@),
                ),
            },
    {
        match outcome {
            Ok(()) => {
                let inside = match &self.current_file {
                    Some(file) => path_contains(path, file.as_str()),
                    None => false,
                };
                if inside {
                    self.current_file = None;
                    self.editor_text = String::new();
                    self.dirty = false;
                    self.last_executable = None;
                }
                let message = concat2("Moved to Trash: ", path);
                self.push_output(message.as_str());
                true
            },
            Err(err) => {
                let message = concat2("Could not move to Trash: ", err.as_str());
                self.push_output(message.as_str());
                false
            },
        }
    }

    /// The editor's title: the open file's path, marked ` *` when it has unsaved
    /// changes, or `No file open`.
    pub fn current_title(&self) -> (res: String)
        ensures
            res@ == match self.current_file {
                Some(p) => if self.dirty {
                    p@ + " *"@
                } else {
                    p@
                },
                None => "No file open"@,
            },
    {
        match &self.current_file {
            Some(path) => if self.dirty {
                concat2(path.as_str(), " *")
            } else {
                path.clone()
            },
            None => "No file open".to_owned(),
        }
    }

    /// Whether the open file can be saved: a file is open.
    pub fn can_save(&self) -> (res: bool)
        ensures
            res == self.current_file is Some,
    {
        self.current_file.is_some()
    }

    /// Whether a build can be asked for: the open file is a C/C++ source and no build
    /// runs.
    pub fn can_build(&self) -> (res: bool)
        ensures
            res == (self.current_file matches Some(f) && spec_is_supported_source(f@) && !self.building),
    {
        match &self.current_file {
            Some(f) => is_supported_source(f.as_str()) && !self.building,
            None => false,
        }
    }

    /// Whether the last built executable can be run: there is one and no build runs.
    pub fn can_run(&self) -> (res: bool)
        ensures
            res == (self.last_executable is Some && !self.building),
    {
        self.last_executable.is_some() && !self.building
    }

    /// Whether the project tree can be refreshed: a folder is open.
    pub fn can_refresh(&self) -> (res: bool)
        ensures
            res == self.project is Some,
    {
        self.project.is_some()
    }

    /// Handles a request to close the window: with unsaved changes, and unless closing
    /// was already allowed, the close is cancelled (the answer is `true`) and waits for
    /// the user's answer.
    pub fn handle_close_request(&mut self, close_requested: bool) -> (res: bool)
        ensures
            res == (close_requested && old(self).dirty && !old(self).allow_close),
            res ==> waits_for(*old(self), *final(self), PendingAction::Close),
            !res ==> *final(self) == *old(self),
    {
        if close_requested && self.dirty && !self.allow_close {
            self.pending_action = Some(PendingAction::Close);
            true
        } else {
            false
        }
    }

    /// Applies the user's answer about unsaved changes (`saved` tells whether saving,
    /// when asked for, succeeded): the waiting request is given back to be performed
    /// after a successful save or a discard, and dropped on cancel.
    pub fn unsaved_response(&mut self, response: UnsavedResponse, saved: bool) -> (res: Option<PendingAction>)
        ensures
            same_workspace(*old(self), *final(self)),
            same_build(*old(self), *final(self)),
            final(self).output == old(self).output,
            final(self).file_dialog == old(self).file_dialog,
            final(self).delete_candidate == old(self).delete_candidate,
            final(self).allow_close == old(self).allow_close,
            match response {
                UnsavedResponse::Save => if saved {
                    res == old(self).pending_action && final(self).pending_action is None
                } else {
                    res is None && final(self).pending_action == old(self).pending_action
                },
                UnsavedResponse::Discard => res == old(self).pending_action
                    && final(self).pending_action is None,
                UnsavedResponse::Cancel => res is None && final(self).pending_action is None,
            },
    {
        match response {
            UnsavedResponse::Save => if saved {
                self.pending_action.take()
            } else {
                None
            },
            UnsavedResponse::Discard => self.pending_action.take(),
            UnsavedResponse::Cancel => {
                self.pending_action = None;
                None
            },
        }
    }

    /// Allows the window to close, as the pending close request was answered.
    pub fn allow_close_now(&mut self)
        ensures
            final(self).allow_close,
            same_workspace(*old(self), *final(self)),
            same_build(*old(self), *final(self)),
            final(self).output == old(self).output,
            final(self).file_dialog == old(self).file_dialog,
            final(self).delete_candidate == old(self).delete_candidate,
            final(self).pending_action == old(self).pending_action,
    {
        self.allow_close = true;
    }
}

} // verus!
