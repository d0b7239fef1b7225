# lite_dev_cpp

A lightweight C/C++ editor for macOS: open a folder, edit C/C++ files, build the
current source file with clang or clang++, and run the executable in Terminal.

The crate is written in Verus. Its library (`src/`) holds the editor's logic, each
function with a contract that Verus proves:

- `paths`: which files are C or C++ sources (by extension, in any case);
- `project`: the project tree, with skipped entries left out, folders first and
  names ordered without regard to case;
- `editor` and `highlight`: the assists applied after a keystroke (closing brackets
  and quotes, Tab to spaces, indentation after a newline) and the highlighter's
  tokenizer;
- `compiler`: how a source file is built and the scripts that run it in Terminal;
- `config`, `file_ops`, `file_dialog`, `file_tree`: settings, naming of new
  entries, dialogs and context menus;
- `app`: the editor's state and how it answers each request and each outcome.

The program around it (`app/`) draws the window with eframe, reads and writes files,
starts the compiler and Terminal, and hands each outcome back to the library.
