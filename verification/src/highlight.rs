//! The C/C++ highlighter's tokenizer: it splits code into runs of one kind each.

use vstd::prelude::*;
use crate::text::{char_is_whitespace, chars_of, char_utf8_len, lemma_split_encoding, lemma_utf8_len_take_succ, spec_is_whitespace, str_eq, string_from_chars, utf8_len};

verus! {
/// C and C++ keywords that the highlighter marks.
pub open spec fn spec_is_keyword(w: Seq<char>) -> bool {
    w == "alignas"@
        || w == "alignof"@
        || w == "asm"@
        || w == "auto"@
        || w == "break"@
        || w == "case"@
        || w == "catch"@
        || w == "class"@
        || w == "concept"@
        || w == "const"@
        || w == "constexpr"@
        || w == "continue"@
        || w == "decltype"@
        || w == "default"@
        || w == "delete"@
        || w == "do"@
        || w == "else"@
        || w == "enum"@
        || w == "explicit"@
        || w == "export"@
        || w == "extern"@
        || w == "for"@
        || w == "friend"@
        || w == "goto"@
        || w == "if"@
        || w == "inline"@
        || w == "mutable"@
        || w == "namespace"@
        || w == "new"@
        || w == "noexcept"@
        || w == "operator"@
        || w == "private"@
        || w == "protected"@
        || w == "public"@
        || w == "register"@
        || w == "requires"@
        || w == "return"@
        || w == "sizeof"@
        || w == "static"@
        || w == "static_assert"@
        || w == "struct"@
        || w == "switch"@
        || w == "template"@
        || w == "this"@
        || w == "throw"@
        || w == "try"@
        || w == "typedef"@
        || w == "typename"@
        || w == "using"@
        || w == "virtual"@
        || w == "volatile"@
        || w == "while"@
}

/// Whether a word is a C or C++ keyword; no keyword is also a type name, so checking
/// keywords first hides no type name.
pub fn is_keyword(word: &str) -> (res: bool)
    ensures
        res == spec_is_keyword(word@),
        res ==> !spec_is_builtin_type(word@),
{
    proof {
        keywords_and_type_names_are_disjoint(word@);
    }
    str_eq(word, "alignas")
        || str_eq(word, "alignof")
        || str_eq(word, "asm")
        || str_eq(word, "auto")
        || str_eq(word, "break")
        || str_eq(word, "case")
        || str_eq(word, "catch")
        || str_eq(word, "class")
        || str_eq(word, "concept")
        || str_eq(word, "const")
        || str_eq(word, "constexpr")
        || str_eq(word, "continue")
        || str_eq(word, "decltype")
        || str_eq(word, "default")
        || str_eq(word, "delete")
        || str_eq(word, "do")
        || str_eq(word, "else")
        || str_eq(word, "enum")
        || str_eq(word, "explicit")
        || str_eq(word, "export")
        || str_eq(word, "extern")
        || str_eq(word, "for")
        || str_eq(word, "friend")
        || str_eq(word, "goto")
        || str_eq(word, "if")
        || str_eq(word, "inline")
        || str_eq(word, "mutable")
        || str_eq(word, "namespace")
        || str_eq(word, "new")
        || str_eq(word, "noexcept")
        || str_eq(word, "operator")
        || str_eq(word, "private")
        || str_eq(word, "protected")
        || str_eq(word, "public")
        || str_eq(word, "register")
        || str_eq(word, "requires")
        || str_eq(word, "return")
        || str_eq(word, "sizeof")
        || str_eq(word, "static")
        || str_eq(word, "static_assert")
        || str_eq(word, "struct")
        || str_eq(word, "switch")
        || str_eq(word, "template")
        || str_eq(word, "this")
        || str_eq(word, "throw")
        || str_eq(word, "try")
        || str_eq(word, "typedef")
        || str_eq(word, "typename")
        || str_eq(word, "using")
        || str_eq(word, "virtual")
        || str_eq(word, "volatile")
        || str_eq(word, "while")
}

/// Built-in and standard-library type names that the highlighter marks.
pub open spec fn spec_is_builtin_type(w: Seq<char>) -> bool {
    w == "bool"@
        || w == "char"@
        || w == "char16_t"@
        || w == "char32_t"@
        || w == "double"@
        || w == "float"@
        || w == "int"@
        || w == "long"@
        || w == "short"@
        || w == "signed"@
        || w == "unsigned"@
        || w == "void"@
        || w == "wchar_t"@
        || w == "size_t"@
        || w == "string"@
        || w == "vector"@
        || w == "map"@
        || w == "set"@
        || w == "queue"@
        || w == "stack"@
        || w == "deque"@
        || w == "pair"@
        || w == "tuple"@
        || w == "priority_queue"@
}

/// Whether a word is a built-in or standard-library type name.
pub fn is_builtin_type(word: &str) -> (res: bool)
    ensures
        res == spec_is_builtin_type(word@),
{
    str_eq(word, "bool")
        || str_eq(word, "char")
        || str_eq(word, "char16_t")
        || str_eq(word, "char32_t")
        || str_eq(word, "double")
        || str_eq(word, "float")
        || str_eq(word, "int")
        || str_eq(word, "long")
        || str_eq(word, "short")
        || str_eq(word, "signed")
        || str_eq(word, "unsigned")
        || str_eq(word, "void")
        || str_eq(word, "wchar_t")
        || str_eq(word, "size_t")
        || str_eq(word, "string")
        || str_eq(word, "vector")
        || str_eq(word, "map")
        || str_eq(word, "set")
        || str_eq(word, "queue")
        || str_eq(word, "stack")
        || str_eq(word, "deque")
        || str_eq(word, "pair")
        || str_eq(word, "tuple")
        || str_eq(word, "priority_queue")
}

/// No word is both a keyword and a type name, so marking keywords first hides no type
/// name.
#[verifier::rlimit(50)]
pub proof fn keywords_and_type_names_are_disjoint(w: Seq<char>)
    ensures
        !(spec_is_keyword(w) && spec_is_builtin_type(w)),
{
    if spec_is_keyword(w) && spec_is_builtin_type(w) {
        reveal_strlit("alignas");
        reveal_strlit("alignof");
        reveal_strlit("asm");
        reveal_strlit("auto");
        reveal_strlit("break");
        reveal_strlit("case");
        reveal_strlit("catch");
        reveal_strlit("class");
        reveal_strlit("concept");
        reveal_strlit("const");
        reveal_strlit("constexpr");
        reveal_strlit("continue");
        reveal_strlit("decltype");
        reveal_strlit("default");
        reveal_strlit("delete");
        reveal_strlit("do");
        reveal_strlit("else");
        reveal_strlit("enum");
        reveal_strlit("explicit");
        reveal_strlit("export");
        reveal_strlit("extern");
        reveal_strlit("for");
        reveal_strlit("friend");
        reveal_strlit("goto");
        reveal_strlit("if");
        reveal_strlit("inline");
        reveal_strlit("mutable");
        reveal_strlit("namespace");
        reveal_strlit("new");
        reveal_strlit("noexcept");
        reveal_strlit("operator");
        reveal_strlit("private");
        reveal_strlit("protected");
        reveal_strlit("public");
        reveal_strlit("register");
        reveal_strlit("requires");
        reveal_strlit("return");
        reveal_strlit("sizeof");
        reveal_strlit("static");
        reveal_strlit("static_assert");
        reveal_strlit("struct");
        reveal_strlit("switch");
        reveal_strlit("template");
        reveal_strlit("this");
        reveal_strlit("throw");
        reveal_strlit("try");
        reveal_strlit("typedef");
        reveal_strlit("typename");
        reveal_strlit("using");
        reveal_strlit("virtual");
        reveal_strlit("volatile");
        reveal_strlit("while");
        reveal_strlit("bool");
        reveal_strlit("char");
        reveal_strlit("char16_t");
        reveal_strlit("char32_t");
        reveal_strlit("double");
        reveal_strlit("float");
        reveal_strlit("int");
        reveal_strlit("long");
        reveal_strlit("short");
        reveal_strlit("signed");
        reveal_strlit("unsigned");
        reveal_strlit("void");
        reveal_strlit("wchar_t");
        reveal_strlit("size_t");
        reveal_strlit("string");
        reveal_strlit("vector");
        reveal_strlit("map");
        reveal_strlit("set");
        reveal_strlit("queue");
        reveal_strlit("stack");
        reveal_strlit("deque");
        reveal_strlit("pair");
        reveal_strlit("tuple");
        reveal_strlit("priority_queue");
        if w == "bool"@ {
            assert(w.len() == 4 && w[0] == 'b' && w[1] == 'o' && w[2] == 'o' && w[3] == 'l');
            assert(!spec_is_keyword(w));
        }
        if w == "char"@ {
            assert(w.len() == 4 && w[0] == 'c' && w[1] == 'h' && w[2] == 'a' && w[3] == 'r');
            assert(!spec_is_keyword(w));
        }
        if w == "char16_t"@ {
            assert(w.len() == 8 && w[0] == 'c' && w[1] == 'h' && w[2] == 'a' && w[3] == 'r' && w[4] == '1' && w[5] == '6' && w[6] == '_' && w[7] == 't');
            assert(!spec_is_keyword(w));
        }
        if w == "char32_t"@ {
            assert(w.len() == 8 && w[0] == 'c' && w[1] == 'h' && w[2] == 'a' && w[3] == 'r' && w[4] == '3' && w[5] == '2' && w[6] == '_' && w[7] == 't');
            assert(!spec_is_keyword(w));
        }
        if w == "double"@ {
            assert(w.len() == 6 && w[0] == 'd' && w[1] == 'o' && w[2] == 'u' && w[3] == 'b' && w[4] == 'l' && w[5] == 'e');
            assert(!spec_is_keyword(w));
        }
        if w == "float"@ {
            assert(w.len() == 5 && w[0] == 'f' && w[1] == 'l' && w[2] == 'o' && w[3] == 'a' && w[4] == 't');
            assert(!spec_is_keyword(w));
        }
        if w == "int"@ {
            assert(w.len() == 3 && w[0] == 'i' && w[1] == 'n' && w[2] == 't');
            assert(!spec_is_keyword(w));
        }
        if w == "long"@ {
            assert(w.len() == 4 && w[0] == 'l' && w[1] == 'o' && w[2] == 'n' && w[3] == 'g');
            assert(!spec_is_keyword(w));
        }
        if w == "short"@ {
            assert(w.len() == 5 && w[0] == 's' && w[1] == 'h' && w[2] == 'o' && w[3] == 'r' && w[4] == 't');
            assert(!spec_is_keyword(w));
        }
        if w == "signed"@ {
            assert(w.len() == 6 && w[0] == 's' && w[1] == 'i' && w[2] == 'g' && w[3] == 'n' && w[4] == 'e' && w[5] == 'd');
            assert(!spec_is_keyword(w));
        }
        if w == "unsigned"@ {
            assert(w.len() == 8 && w[0] == 'u' && w[1] == 'n' && w[2] == 's' && w[3] == 'i' && w[4] == 'g' && w[5] == 'n' && w[6] == 'e' && w[7] == 'd');
            assert(!spec_is_keyword(w));
        }
        if w == "void"@ {
            assert(w.len() == 4 && w[0] == 'v' && w[1] == 'o' && w[2] == 'i' && w[3] == 'd');
            assert(!spec_is_keyword(w));
        }
        if w == "wchar_t"@ {
            assert(w.len() == 7 && w[0] == 'w' && w[1] == 'c' && w[2] == 'h' && w[3] == 'a' && w[4] == 'r' && w[5] == '_' && w[6] == 't');
            assert(!spec_is_keyword(w));
        }
        if w == "size_t"@ {
            assert(w.len() == 6 && w[0] == 's' && w[1] == 'i' && w[2] == 'z' && w[3] == 'e' && w[4] == '_' && w[5] == 't');
            assert(!spec_is_keyword(w));
        }
        if w == "string"@ {
            assert(w.len() == 6 && w[0] == 's' && w[1] == 't' && w[2] == 'r' && w[3] == 'i' && w[4] == 'n' && w[5] == 'g');
            assert(!spec_is_keyword(w));
        }
        if w == "vector"@ {
            assert(w.len() == 6 && w[0] == 'v' && w[1] == 'e' && w[2] == 'c' && w[3] == 't' && w[4] == 'o' && w[5] == 'r');
            assert(!spec_is_keyword(w));
        }
        if w == "map"@ {
            assert(w.len() == 3 && w[0] == 'm' && w[1] == 'a' && w[2] == 'p');
            assert(!spec_is_keyword(w));
        }
        if w == "set"@ {
            assert(w.len() == 3 && w[0] == 's' && w[1] == 'e' && w[2] == 't');
            assert(!spec_is_keyword(w));
        }
        if w == "queue"@ {
            assert(w.len() == 5 && w[0] == 'q' && w[1] == 'u' && w[2] == 'e' && w[3] == 'u' && w[4] == 'e');
            assert(!spec_is_keyword(w));
        }
        if w == "stack"@ {
            assert(w.len() == 5 && w[0] == 's' && w[1] == 't' && w[2] == 'a' && w[3] == 'c' && w[4] == 'k');
            assert(!spec_is_keyword(w));
        }
        if w == "deque"@ {
            assert(w.len() == 5 && w[0] == 'd' && w[1] == 'e' && w[2] == 'q' && w[3] == 'u' && w[4] == 'e');
            assert(!spec_is_keyword(w));
        }
        if w == "pair"@ {
            assert(w.len() == 4 && w[0] == 'p' && w[1] == 'a' && w[2] == 'i' && w[3] == 'r');
            assert(!spec_is_keyword(w));
        }
        if w == "tuple"@ {
            assert(w.len() == 5 && w[0] == 't' && w[1] == 'u' && w[2] == 'p' && w[3] == 'l' && w[4] == 'e');
            assert(!spec_is_keyword(w));
        }
        if w == "priority_queue"@ {
            assert(w.len() == 14 && w[0] == 'p' && w[1] == 'r' && w[2] == 'i' && w[3] == 'o' && w[4] == 'r' && w[5] == 'i' && w[6] == 't' && w[7] == 'y' && w[8] == '_' && w[9] == 'q' && w[10] == 'u' && w[11] == 'e' && w[12] == 'u' && w[13] == 'e');
            assert(!spec_is_keyword(w));
        }
    }
}

/// The kinds of text the highlighter tells apart.
#[derive(Debug, Clone, Copy, PartialEq, Eq, Structural)]
pub enum TokenKind {
    Plain,
    Keyword,
    TypeName,
    Number,
    Literal,
    Comment,
    Preprocessor,
    Operator,
}

/// A run of the code, as characters `start..end` and bytes `byte_start..byte_end`, and
/// its kind.
#[derive(Debug, Clone, Copy)]
pub struct HighlightSpan {
    pub start: usize,
    pub end: usize,
    pub byte_start: usize,
    pub byte_end: usize,
    pub kind: TokenKind,
}

pub open spec fn is_ascii_alpha(c: char) -> bool {
    ('a' <= c && c <= 'z') || ('A' <= c && c <= 'Z')
}

pub open spec fn is_ascii_digit(c: char) -> bool {
    '0' <= c && c <= '9'
}

pub open spec fn is_word_char(c: char) -> bool {
    is_ascii_alpha(c) || is_ascii_digit(c) || c == '_'
}

pub open spec fn is_number_char(c: char) -> bool {
    is_ascii_alpha(c) || is_ascii_digit(c) || c == '.' || c == '_' || c == '\'' || c == '+' || c
        == '-'
}

pub open spec fn is_operator_char(c: char) -> bool {
    c == '{' || c == '}' || c == '[' || c == ']' || c == '(' || c == ')' || c == ';' || c == ','
        || c == '+' || c == '-' || c == '*' || c == '/' || c == '%' || c == '=' || c == '!' || c
        == '<' || c == '>' || c == '&' || c == '|' || c == '^' || c == '~' || c == '?' || c == ':'
        || c == '.'
}

/// First position at or after `i` that is not whitespace (or the end).
pub open spec fn ws_end(code: Seq<char>, i: int) -> int
    decreases code.len() - i,
{
    if i < 0 || i >= code.len() || !spec_is_whitespace(code[i]) {
        i
    } else {
        ws_end(code, i + 1)
    }
}

/// First position at or after `i` holding a newline (or the end).
pub open spec fn line_end(code: Seq<char>, i: int) -> int
    decreases code.len() - i,
{
    if i < 0 || i >= code.len() || code[i] == '\n' {
        i
    } else {
        line_end(code, i + 1)
    }
}

/// First position at or after `i` that cannot continue an identifier (or the end).
pub open spec fn word_end(code: Seq<char>, i: int) -> int
    decreases code.len() - i,
{
    if i < 0 || i >= code.len() || !is_word_char(code[i]) {
        i
    } else {
        word_end(code, i + 1)
    }
}

/// First position at or after `i` that cannot continue a number literal (or the end).
pub open spec fn number_end(code: Seq<char>, i: int) -> int
    decreases code.len() - i,
{
    if i < 0 || i >= code.len() || !is_number_char(code[i]) {
        i
    } else {
        number_end(code, i + 1)
    }
}

/// Position just past the first `*/` found at or after `i` (or the end).
pub open spec fn comment_end(code: Seq<char>, i: int) -> int
    decreases code.len() - i,
{
    if i < 0 || i + 1 >= code.len() {
        code.len() as int
    } else if code[i] == '*' && code[i + 1] == '/' {
        i + 2
    } else {
        comment_end(code, i + 1)
    }
}

/// End of a quoted literal scanned from `i`: past the first unescaped `quote`, or at the
/// first newline, or at the end.
pub open spec fn quoted_end(code: Seq<char>, i: int, quote: char, escaped: bool) -> int
    decreases code.len() - i,
{
    if i < 0 || i >= code.len() {
        code.len() as int
    } else if code[i] == '\n' {
        i
    } else if code[i] == quote && !escaped {
        i + 1
    } else {
        quoted_end(code, i + 1, quote, code[i] == '\\' && !escaped)
    }
}

/// Each C and C++ keyword below is highlighted as a keyword, and each built-in or
/// standard-library type name below as a type name.
pub proof fn listed_words_get_their_kind()
    ensures
        word_kind("alignas"@) == TokenKind::Keyword,
        word_kind("alignof"@) == TokenKind::Keyword,
        word_kind("asm"@) == TokenKind::Keyword,
        word_kind("auto"@) == TokenKind::Keyword,
        word_kind("break"@) == TokenKind::Keyword,
        word_kind("case"@) == TokenKind::Keyword,
        word_kind("catch"@) == TokenKind::Keyword,
        word_kind("class"@) == TokenKind::Keyword,
        word_kind("concept"@) == TokenKind::Keyword,
        word_kind("const"@) == TokenKind::Keyword,
        word_kind("constexpr"@) == TokenKind::Keyword,
        word_kind("continue"@) == TokenKind::Keyword,
        word_kind("decltype"@) == TokenKind::Keyword,
        word_kind("default"@) == TokenKind::Keyword,
        word_kind("delete"@) == TokenKind::Keyword,
        word_kind("do"@) == TokenKind::Keyword,
        word_kind("else"@) == TokenKind::Keyword,
        word_kind("enum"@) == TokenKind::Keyword,
        word_kind("explicit"@) == TokenKind::Keyword,
        word_kind("export"@) == TokenKind::Keyword,
        word_kind("extern"@) == TokenKind::Keyword,
        word_kind("for"@) == TokenKind::Keyword,
        word_kind("friend"@) == TokenKind::Keyword,
        word_kind("goto"@) == TokenKind::Keyword,
        word_kind("if"@) == TokenKind::Keyword,
        word_kind("inline"@) == TokenKind::Keyword,
        word_kind("mutable"@) == TokenKind::Keyword,
        word_kind("namespace"@) == TokenKind::Keyword,
        word_kind("new"@) == TokenKind::Keyword,
        word_kind("noexcept"@) == TokenKind::Keyword,
        word_kind("operator"@) == TokenKind::Keyword,
        word_kind("private"@) == TokenKind::Keyword,
        word_kind("protected"@) == TokenKind::Keyword,
        word_kind("public"@) == TokenKind::Keyword,
        word_kind("register"@) == TokenKind::Keyword,
        word_kind("requires"@) == TokenKind::Keyword,
        word_kind("return"@) == TokenKind::Keyword,
        word_kind("sizeof"@) == TokenKind::Keyword,
        word_kind("static"@) == TokenKind::Keyword,
        word_kind("static_assert"@) == TokenKind::Keyword,
        word_kind("struct"@) == TokenKind::Keyword,
        word_kind("switch"@) == TokenKind::Keyword,
        word_kind("template"@) == TokenKind::Keyword,
        word_kind("this"@) == TokenKind::Keyword,
        word_kind("throw"@) == TokenKind::Keyword,
        word_kind("try"@) == TokenKind::Keyword,
        word_kind("typedef"@) == TokenKind::Keyword,
        word_kind("typename"@) == TokenKind::Keyword,
        word_kind("using"@) == TokenKind::Keyword,
        word_kind("virtual"@) == TokenKind::Keyword,
        word_kind("volatile"@) == TokenKind::Keyword,
        word_kind("while"@) == TokenKind::Keyword,
        word_kind("bool"@) == TokenKind::TypeName,
        word_kind("char"@) == TokenKind::TypeName,
        word_kind("char16_t"@) == TokenKind::TypeName,
        word_kind("char32_t"@) == TokenKind::TypeName,
        word_kind("double"@) == TokenKind::TypeName,
        word_kind("float"@) == TokenKind::TypeName,
        word_kind("int"@) == TokenKind::TypeName,
        word_kind("long"@) == TokenKind::TypeName,
        word_kind("short"@) == TokenKind::TypeName,
        word_kind("signed"@) == TokenKind::TypeName,
        word_kind("unsigned"@) == TokenKind::TypeName,
        word_kind("void"@) == TokenKind::TypeName,
        word_kind("wchar_t"@) == TokenKind::TypeName,
        word_kind("size_t"@) == TokenKind::TypeName,
        word_kind("string"@) == TokenKind::TypeName,
        word_kind("vector"@) == TokenKind::TypeName,
        word_kind("map"@) == TokenKind::TypeName,
        word_kind("set"@) == TokenKind::TypeName,
        word_kind("queue"@) == TokenKind::TypeName,
        word_kind("stack"@) == TokenKind::TypeName,
        word_kind("deque"@) == TokenKind::TypeName,
        word_kind("pair"@) == TokenKind::TypeName,
        word_kind("tuple"@) == TokenKind::TypeName,
        word_kind("priority_queue"@) == TokenKind::TypeName,
{
    keywords_and_type_names_are_disjoint("bool"@);
    keywords_and_type_names_are_disjoint("char"@);
    keywords_and_type_names_are_disjoint("char16_t"@);
    keywords_and_type_names_are_disjoint("char32_t"@);
    keywords_and_type_names_are_disjoint("double"@);
    keywords_and_type_names_are_disjoint("float"@);
    keywords_and_type_names_are_disjoint("int"@);
    keywords_and_type_names_are_disjoint("long"@);
    keywords_and_type_names_are_disjoint("short"@);
    keywords_and_type_names_are_disjoint("signed"@);
    keywords_and_type_names_are_disjoint("unsigned"@);
    keywords_and_type_names_are_disjoint("void"@);
    keywords_and_type_names_are_disjoint("wchar_t"@);
    keywords_and_type_names_are_disjoint("size_t"@);
    keywords_and_type_names_are_disjoint("string"@);
    keywords_and_type_names_are_disjoint("vector"@);
    keywords_and_type_names_are_disjoint("map"@);
    keywords_and_type_names_are_disjoint("set"@);
    keywords_and_type_names_are_disjoint("queue"@);
    keywords_and_type_names_are_disjoint("stack"@);
    keywords_and_type_names_are_disjoint("deque"@);
    keywords_and_type_names_are_disjoint("pair"@);
    keywords_and_type_names_are_disjoint("tuple"@);
    keywords_and_type_names_are_disjoint("priority_queue"@);
}

/// Each scan ends at or after where it starts, and within the code.
pub proof fn lemma_scans_advance(code: Seq<char>, i: int, quote: char, escaped: bool)
    requires
        0 <= i <= code.len(),
    ensures
        i <= ws_end(code, i) <= code.len(),
        i <= line_end(code, i) <= code.len(),
        i <= word_end(code, i) <= code.len(),
        i <= number_end(code, i) <= code.len(),
        i <= comment_end(code, i) <= code.len(),
        i <= quoted_end(code, i, quote, escaped) <= code.len(),
    decreases code.len() - i,
{
    if i < code.len() {
        lemma_scans_advance(code, i + 1, quote, code[i] == '\\' && !escaped);
    }
}

/// The kind of an identifier-like word.
pub open spec fn word_kind(w: Seq<char>) -> TokenKind {
    if spec_is_keyword(w) {
        TokenKind::Keyword
    } else if spec_is_builtin_type(w) {
        TokenKind::TypeName
    } else {
        TokenKind::Plain
    }
}

/// The spans that the highlighter emits at position `pos` (with `line_start` telling
/// whether only whitespace precedes it on its line), where it continues, and whether
/// that position starts a line: a `#` that begins a line marks a preprocessor line,
/// `//` and `/* */` comments, quoted literals, identifiers (keywords, type names or
/// plain), numbers, and otherwise one character (an operator or plain text).
pub open spec fn highlight_step(code: Seq<char>, pos: int, line_start: bool) -> (Seq<(int, int, TokenKind)>, int, bool) {
    let w = ws_end(code, pos);
    let c = code[pos];
    if line_start && w < code.len() && code[w] == '#' {
        let e = line_end(code, w);
        if w > pos {
            (seq![(pos, w, TokenKind::Plain), (w, e, TokenKind::Preprocessor)], e, false)
        } else {
            (seq![(w, e, TokenKind::Preprocessor)], e, false)
        }
    } else if pos + 1 < code.len() && c == '/' && code[pos + 1] == '/' {
        let e = line_end(code, pos);
        (seq![(pos, e, TokenKind::Comment)], e, false)
    } else if pos + 1 < code.len() && c == '/' && code[pos + 1] == '*' {
        let e = comment_end(code, pos);
        (seq![(pos, e, TokenKind::Comment)], e, code[e - 1] == '\n')
    } else if c == '"' || c == '\'' {
        let e = quoted_end(code, pos + 1, c, false);
        (seq![(pos, e, TokenKind::Literal)], e, false)
    } else if is_ascii_alpha(c) || c == '_' {
        let e = word_end(code, pos);
        (seq![(pos, e, word_kind(code.subrange(pos, e)))], e, false)
    } else if is_ascii_digit(c) {
        let e = number_end(code, pos);
        (seq![(pos, e, TokenKind::Number)], e, false)
    } else {
        (
            seq![(pos, pos + 1, if is_operator_char(c) { TokenKind::Operator } else { TokenKind::Plain })],
            pos + 1,
            c == '\n' || (line_start && spec_is_whitespace(c)),
        )
    }
}

/// Each highlighter step moves forward, and stays within the code.
pub proof fn lemma_step_advances(code: Seq<char>, pos: int, line_start: bool)
    requires
        0 <= pos < code.len(),
    ensures
        pos < highlight_step(code, pos, line_start).1 <= code.len(),
{
    let c = code[pos];
    lemma_scans_advance(code, pos, c, false);
    lemma_scans_advance(code, pos + 1, c, false);
    let w = ws_end(code, pos);
    if line_start && w < code.len() && code[w] == '#' {
        lemma_scans_advance(code, w + 1, c, false);
        assert(line_end(code, w) == line_end(code, w + 1));
    } else if pos + 1 < code.len() && c == '/' && code[pos + 1] == '*' {
        assert(comment_end(code, pos) == comment_end(code, pos + 1));
        lemma_scans_advance(code, pos + 1, c, false);
    } else if is_ascii_alpha(c) || c == '_' {
        assert(word_end(code, pos) == word_end(code, pos + 1));
    } else if is_ascii_digit(c) {
        assert(number_end(code, pos) == number_end(code, pos + 1));
    }
}

/// The spans the highlighter emits from position `pos` to the end.
pub open spec fn highlight_from(code: Seq<char>, pos: int, line_start: bool) -> Seq<(int, int, TokenKind)>
    decreases code.len() - pos,
{
    if pos < 0 || pos >= code.len() {
        Seq::empty()
    } else {
        let (spans, next, next_line_start) = highlight_step(code, pos, line_start);
        proof {
            lemma_step_advances(code, pos, line_start);
        }
        spans + highlight_from(code, next, next_line_start)
    }
}

/// The spans that highlight `code`: in order, each a run of the code with its kind.
pub open spec fn spec_highlight(code: Seq<char>) -> Seq<(int, int, TokenKind)> {
    highlight_from(code, 0, true)
}

pub open spec fn span_view(s: HighlightSpan) -> (int, int, TokenKind) {
    (s.start as int, s.end as int, s.kind)
}

proof fn lemma_quoted_shift(code: Seq<char>, pos: int, i: int, quote: char, escaped: bool)
    requires
        0 <= pos <= code.len(),
        0 <= i,
    ensures
        quoted_end(code, pos + i, quote, escaped) == pos + quoted_end(code.skip(pos), i, quote, escaped),
    decreases code.len() - pos - i,
{
    if pos + i < code.len() {
        assert(code.skip(pos)[i] == code[pos + i]);
        lemma_quoted_shift(code, pos, i + 1, quote, code[pos + i] == '\\' && !escaped);
    }
}

/// Length of a quoted literal that starts at `s[0]`: up to and including the first
/// unescaped `quote` after it, or up to the first newline, or all of `s`.
pub fn quoted_len(s: &[char], quote: char) -> (res: usize)
    ensures
        res == quoted_end(s@, 1, quote, false),
{
    let mut index: usize = 1;
    let mut escaped = false;
    if s.len() == 0 {
        return 0;
    }
    while index < s.len()
        invariant
            1 <= index <= s.len(),
            quoted_end(s@, 1, quote, false) == quoted_end(s@, index as int, quote, escaped),
        decreases s.len() - index,
    {
        let byte = s[index];
        if byte == '\n' {
            return index;
        }
        if byte == quote && !escaped {
            return index + 1;
        }
        escaped = byte == '\\' && !escaped;
        if byte != '\\' {
            escaped = false;
        }
        index += 1;
    }
    s.len()
}

fn scan_ws(cs: &Vec<char>, i: usize) -> (res: usize)
    requires
        i <= cs.len(),
    ensures
        res == ws_end(cs@, i as int),
{
    let mut j = i;
    while j < cs.len() && char_is_whitespace(cs[j])
        invariant
            i <= j <= cs.len(),
            ws_end(cs@, i as int) == ws_end(cs@, j as int),
        decreases cs.len() - j,
    {
        j += 1;
    }
    j
}

fn scan_line(cs: &Vec<char>, i: usize) -> (res: usize)
    requires
        i <= cs.len(),
    ensures
        res == line_end(cs@, i as int),
{
    let mut j = i;
    while j < cs.len() && cs[j] != '\n'
        invariant
            i <= j <= cs.len(),
            line_end(cs@, i as int) == line_end(cs@, j as int),
        decreases cs.len() - j,
    {
        j += 1;
    }
    j
}

fn word_char(c: char) -> (res: bool)
    ensures
        res == is_word_char(c),
{
    ('a' <= c && c <= 'z') || ('A' <= c && c <= 'Z') || ('0' <= c && c <= '9') || c == '_'
}

fn number_char(c: char) -> (res: bool)
    ensures
        res == is_number_char(c),
{
    ('a' <= c && c <= 'z') || ('A' <= c && c <= 'Z') || ('0' <= c && c <= '9') || c == '.' || c
        == '_' || c == '\'' || c == '+' || c == '-'
}

fn operator_char(c: char) -> (res: bool)
    ensures
        res == is_operator_char(c),
{
    c == '{' || c == '}' || c == '[' || c == ']' || c == '(' || c == ')' || c == ';' || c == ','
        || c == '+' || c == '-' || c == '*' || c == '/' || c == '%' || c == '=' || c == '!' || c
        == '<' || c == '>' || c == '&' || c == '|' || c == '^' || c == '~' || c == '?' || c == ':'
        || c == '.'
}

fn scan_word(cs: &Vec<char>, i: usize) -> (res: usize)
    requires
        i <= cs.len(),
    ensures
        res == word_end(cs@, i as int),
{
    let mut j = i;
    while j < cs.len() && word_char(cs[j])
        invariant
            i <= j <= cs.len(),
            word_end(cs@, i as int) == word_end(cs@, j as int),
        decreases cs.len() - j,
    {
        j += 1;
    }
    j
}

fn scan_number(cs: &Vec<char>, i: usize) -> (res: usize)
    requires
        i <= cs.len(),
    ensures
        res == number_end(cs@, i as int),
{
    let mut j = i;
    while j < cs.len() && number_char(cs[j])
        invariant
            i <= j <= cs.len(),
            number_end(cs@, i as int) == number_end(cs@, j as int),
        decreases cs.len() - j,
    {
        j += 1;
    }
    j
}

fn scan_comment(cs: &Vec<char>, i: usize) -> (res: usize)
    requires
        i <= cs.len(),
    ensures
        res == comment_end(cs@, i as int),
{
    let mut j = i;
    while cs.len() > 0 && j < cs.len() - 1
        invariant
            i <= j <= cs.len(),
            comment_end(cs@, i as int) == comment_end(cs@, j as int),
        decreases cs.len() - j,
    {
        if cs[j] == '*' && cs[j + 1] == '/' {
            return j + 2;
        }
        j += 1;
    }
    cs.len()
}

/// Byte length of the first `to` characters, given that of the first `from`.
fn bytes_through(cs: &Vec<char>, from: usize, to: usize, b: usize) -> (res: usize)
    requires
        from <= to <= cs.len(),
        b == utf8_len(cs@.take(from as int)),
        utf8_len(cs@) <= usize::MAX,
    ensures
        res == utf8_len(cs@.take(to as int)),
{
    let mut i = from;
    let mut bytes = b;
    proof {
        lemma_split_encoding(cs@, to as int);
    }
    while i < to
        invariant
            from <= i <= to <= cs.len(),
            bytes == utf8_len(cs@.take(i as int)),
            utf8_len(cs@.take(to as int)) <= utf8_len(cs@),
            utf8_len(cs@) <= usize::MAX,
        decreases to - i,
    {
        proof {
            lemma_utf8_len_take_succ(cs@, i as int);
            lemma_split_encoding(cs@.take(to as int), i + 1);
            assert(cs@.take(to as int).take(i + 1) =~= cs@.take(i + 1));
        }
        bytes = bytes + char_utf8_len(cs[i]);
        i += 1;
    }
    bytes
}

/// Spans of `spans` carry the byte positions of their character positions.
pub open spec fn bytes_match(code: Seq<char>, spans: Seq<HighlightSpan>) -> bool {
    forall|k: int|
        #![trigger spans[k]]
        0 <= k < spans.len() ==> {
            &&& spans[k].byte_start == utf8_len(code.take(spans[k].start as int))
            &&& spans[k].byte_end == utf8_len(code.take(spans[k].end as int))
        }
}

pub open spec fn views(spans: Seq<HighlightSpan>) -> Seq<(int, int, TokenKind)> {
    spans.map_values(|s: HighlightSpan| span_view(s))
}

/// Emits the spans of one highlighter step at `pos` and tells where the next starts.
#[verifier::spinoff_prover]
#[verifier::rlimit(60)]
fn emit_step(cs: &Vec<char>, pos: usize, bpos: usize, line_start: bool, spans: &mut Vec<HighlightSpan>) -> (res: (usize, bool))
    requires
        pos < cs.len(),
        bpos == utf8_len(cs@.take(pos as int)),
        utf8_len(cs@) <= usize::MAX,
        bytes_match(cs@, old(spans)@),
    ensures
        res.0 == highlight_step(cs@, pos as int, line_start).1,
        res.1 == highlight_step(cs@, pos as int, line_start).2,
        views(final(spans)@) == views(old(spans)@) + highlight_step(cs@, pos as int, line_start).0,
        bytes_match(cs@, final(spans)@),
{
    let ghost code_s = cs@;
    let ghost step = highlight_step(code_s, pos as int, line_start);
    let ghost old_spans = spans@;
    let n = cs.len();
    proof {
        lemma_step_advances(code_s, pos as int, line_start);
        lemma_scans_advance(code_s, pos as int, cs[pos as int], false);
    }
    let c = cs[pos];
    let w = if line_start { scan_ws(cs, pos) } else { pos };
    if line_start && w < n && cs[w] == '#' {
        let e = scan_line(cs, w);
        proof {
            lemma_scans_advance(code_s, w as int, c, false);
        }
        let bw = bytes_through(cs, pos, w, bpos);
        let be = bytes_through(cs, w, e, bw);
        if w > pos {
            spans.push(HighlightSpan { start: pos, end: w, byte_start: bpos, byte_end: bw, kind: TokenKind::Plain });
        }
        spans.push(HighlightSpan { start: w, end: e, byte_start: bw, byte_end: be, kind: TokenKind::Preprocessor });
        proof {
            assert(views(spans@) =~= views(old_spans) + step.0);
        }
        (e, false)
    } else if pos + 1 < n && c == '/' && cs[pos + 1] == '/' {
        let e = scan_line(cs, pos);
        let be = bytes_through(cs, pos, e, bpos);
        spans.push(HighlightSpan { start: pos, end: e, byte_start: bpos, byte_end: be, kind: TokenKind::Comment });
        proof {
            assert(views(spans@) =~= views(old_spans) + step.0);
        }
        (e, false)
    } else if pos + 1 < n && c == '/' && cs[pos + 1] == '*' {
        let e = scan_comment(cs, pos);
        let be = bytes_through(cs, pos, e, bpos);
        spans.push(HighlightSpan { start: pos, end: e, byte_start: bpos, byte_end: be, kind: TokenKind::Comment });
        proof {
            assert(views(spans@) =~= views(old_spans) + step.0);
        }
        (e, cs[e - 1] == '\n')
    } else if c == '"' || c == '\'' {
        let (_, tail) = cs.as_slice().split_at(pos);
        let len = quoted_len(tail, c);
        proof {
            assert(tail@ =~= code_s.skip(pos as int));
            lemma_quoted_shift(code_s, pos as int, 1, c, false);
            lemma_scans_advance(code_s, pos + 1, c, false);
        }
        let e = pos + len;
        let be = bytes_through(cs, pos, e, bpos);
        spans.push(HighlightSpan { start: pos, end: e, byte_start: bpos, byte_end: be, kind: TokenKind::Literal });
        proof {
            assert(views(spans@) =~= views(old_spans) + step.0);
        }
        (e, false)
    } else if ('a' <= c && c <= 'z') || ('A' <= c && c <= 'Z') || c == '_' {
        let e = scan_word(cs, pos);
        let (_, tail) = cs.as_slice().split_at(pos);
        let (word_chars, _) = tail.split_at(e - pos);
        let word = string_from_chars(word_chars);
        proof {
            assert(word@ =~= code_s.subrange(pos as int, e as int));
        }
        let kind = if is_keyword(word.as_str()) {
            TokenKind::Keyword
        } else if is_builtin_type(word.as_str()) {
            TokenKind::TypeName
        } else {
            TokenKind::Plain
        };
        let be = bytes_through(cs, pos, e, bpos);
        spans.push(HighlightSpan { start: pos, end: e, byte_start: bpos, byte_end: be, kind });
        proof {
            assert(views(spans@) =~= views(old_spans) + step.0);
        }
        (e, false)
    } else if '0' <= c && c <= '9' {
        let e = scan_number(cs, pos);
        let be = bytes_through(cs, pos, e, bpos);
        spans.push(HighlightSpan { start: pos, end: e, byte_start: bpos, byte_end: be, kind: TokenKind::Number });
        proof {
            assert(views(spans@) =~= views(old_spans) + step.0);
        }
        (e, false)
    } else {
        let kind = if operator_char(c) { TokenKind::Operator } else { TokenKind::Plain };
        let be = bytes_through(cs, pos, pos + 1, bpos);
        spans.push(HighlightSpan { start: pos, end: pos + 1, byte_start: bpos, byte_end: be, kind });
        proof {
            assert(views(spans@) =~= views(old_spans) + step.0);
        }
        (pos + 1, c == '\n' || (line_start && char_is_whitespace(c)))
    }
}

/// Splits C/C++ code into the runs that the editor colours, in order: preprocessor
/// lines, comments, quoted literals, keywords, type names, numbers, operators and plain
/// text, each run also given by its byte positions.
pub fn highlight_spans(code: &str) -> (res: Vec<HighlightSpan>)
    requires
        utf8_len(code@) <= usize::MAX,
    ensures
        views(res@) == spec_highlight(code@),
        bytes_match(code@, res@),
{
    let cs = chars_of(code);
    let n = cs.len();
    let mut spans: Vec<HighlightSpan> = Vec::new();
    let mut pos: usize = 0;
    let mut bpos: usize = 0;
    let mut line_start = true;
    proof {
        assert(cs@.take(0) =~= Seq::<char>::empty());
        assert(views(spans@) + spec_highlight(code@) =~= spec_highlight(code@));
    }
    while pos < n
        invariant
            cs@ == code@,
            n == cs.len(),
            utf8_len(code@) <= usize::MAX,
            pos <= n,
            bpos == utf8_len(code@.take(pos as int)),
            views(spans@) + highlight_from(code@, pos as int, line_start) == spec_highlight(code@),
            bytes_match(code@, spans@),
        decreases n - pos,
    {
        let ghost old_spans = spans@;
        let ghost step = highlight_step(code@, pos as int, line_start);
        let (next, next_line_start) = emit_step(&cs, pos, bpos, line_start, &mut spans);
        proof {
            lemma_step_advances(code@, pos as int, line_start);
            assert(highlight_from(code@, pos as int, line_start) == step.0 + highlight_from(
                code@,
                next as int,
                next_line_start,
            ));
            assert(views(spans@) + highlight_from(code@, next as int, next_line_start)
                =~= views(old_spans) + highlight_from(code@, pos as int, line_start));
        }
        bpos = bytes_through(&cs, pos, next, bpos);
        pos = next;
        line_start = next_line_start;
    }
    proof {
        assert(views(spans@) =~= spec_highlight(code@));
    }
    spans
}

/// The spans cover `from..to` exactly: each is non-empty, each starts where the one
/// before ended, the first at `from` and the last ending at `to`.
pub open spec fn tiles(s: Seq<(int, int, TokenKind)>, from: int, to: int) -> bool {
    &&& s.len() == 0 ==> from == to
    &&& s.len() > 0 ==> s[0].0 == from && s.last().1 == to
    &&& forall|k: int| 0 <= k < s.len() ==> (#[trigger] s[k]).0 < s[k].1
    &&& forall|k: int| 0 <= k < s.len() - 1 ==> (#[trigger] s[k]).1 == s[k + 1].0
}

proof fn lemma_tiles_concat(a: Seq<(int, int, TokenKind)>, b: Seq<(int, int, TokenKind)>, x: int, y: int, z: int)
    requires
        tiles(a, x, y),
        tiles(b, y, z),
    ensures
        tiles(a + b, x, z),
{
    let c = a + b;
    assert forall|k: int| 0 <= k < c.len() - 1 implies (#[trigger] c[k]).1 == c[k + 1].0 by {
        if k < a.len() - 1 {
        } else if k == a.len() - 1 {
            assert(c[k] == a.last());
            assert(c[k + 1] == b[0]);
        } else {
            assert(c[k] == b[k - a.len()]);
            assert(c[k + 1] == b[k + 1 - a.len()]);
        }
    }
    assert forall|k: int| 0 <= k < c.len() implies (#[trigger] c[k]).0 < c[k].1 by {
        if k < a.len() {
            assert(c[k] == a[k]);
        } else {
            assert(c[k] == b[k - a.len()]);
        }
    }
    if a.len() == 0 {
        assert(c =~= b);
    } else if b.len() == 0 {
        assert(c =~= a);
    } else {
        assert(c.last() == b.last());
    }
}

proof fn lemma_step_tiles(code: Seq<char>, pos: int, line_start: bool)
    requires
        0 <= pos < code.len(),
    ensures
        tiles(highlight_step(code, pos, line_start).0, pos, highlight_step(code, pos, line_start).1),
{
    lemma_step_advances(code, pos, line_start);
    let w = ws_end(code, pos);
    lemma_scans_advance(code, pos, code[pos], false);
    if line_start && w < code.len() && code[w] == '#' {
        lemma_scans_advance(code, w + 1, code[pos], false);
        assert(line_end(code, w) == line_end(code, w + 1));
    }
}

proof fn lemma_highlight_from_tiles(code: Seq<char>, pos: int, line_start: bool)
    requires
        0 <= pos <= code.len(),
    ensures
        tiles(highlight_from(code, pos, line_start), pos, code.len() as int),
    decreases code.len() - pos,
{
    if pos < code.len() {
        let step = highlight_step(code, pos, line_start);
        lemma_step_advances(code, pos, line_start);
        lemma_step_tiles(code, pos, line_start);
        lemma_highlight_from_tiles(code, step.1, step.2);
        lemma_tiles_concat(step.0, highlight_from(code, step.1, step.2), pos, step.1, code.len() as int);
    }
}

/// The highlighter loses and repeats no text: its spans are non-empty, contiguous, and
/// together cover the whole code from its first character to its last.
pub proof fn highlight_covers_code(code: Seq<char>)
    ensures
        tiles(spec_highlight(code), 0, code.len() as int),
{
    lemma_highlight_from_tiles(code, 0, true);
}

/// A scan that moves past its start never stops just after a newline.
proof fn lemma_scans_stop_before_newlines(code: Seq<char>, i: int, quote: char, escaped: bool)
    requires
        0 <= i <= code.len(),
        quote != '\n',
    ensures
        line_end(code, i) > i ==> code[line_end(code, i) - 1] != '\n',
        word_end(code, i) > i ==> code[word_end(code, i) - 1] != '\n',
        number_end(code, i) > i ==> code[number_end(code, i) - 1] != '\n',
        quoted_end(code, i, quote, escaped) > i ==> code[quoted_end(code, i, quote, escaped) - 1]
            != '\n',
    decreases code.len() - i,
{
    if i < code.len() {
        lemma_scans_stop_before_newlines(code, i + 1, quote, code[i] == '\\' && !escaped);
        lemma_scans_advance(code, i + 1, quote, code[i] == '\\' && !escaped);
    }
}

/// Only whitespace lies between `p` and `w`, where a `#` stands.
proof fn lemma_ws_end_at_hash(code: Seq<char>, p: int, w: int)
    requires
        0 <= p <= w < code.len(),
        forall|i: int| p <= i < w ==> spec_is_whitespace(code[i]),
        code[w] == '#',
    ensures
        ws_end(code, p) == w,
    decreases w - p,
{
    if p < w {
        lemma_ws_end_at_hash(code, p + 1, w);
    }
}

/// A step of the highlighter that ends just after a newline leaves it at a line start.
proof fn lemma_step_after_newline(code: Seq<char>, pos: int, line_start: bool)
    requires
        0 <= pos < code.len(),
    ensures
        ({
            let step = highlight_step(code, pos, line_start);
            code[step.1 - 1] == '\n' ==> step.2
        }),
{
    let c = code[pos];
    let w = ws_end(code, pos);
    lemma_scans_advance(code, pos, '"', false);
    lemma_scans_advance(code, pos + 1, '"', false);
    lemma_scans_stop_before_newlines(code, pos, '"', false);
    if line_start && w < code.len() && code[w] == '#' {
        lemma_scans_stop_before_newlines(code, w, '"', false);
        lemma_scans_advance(code, w + 1, '"', false);
        assert(line_end(code, w) == line_end(code, w + 1));
    } else if pos + 1 < code.len() && c == '/' && code[pos + 1] == '/' {
        assert(line_end(code, pos) == line_end(code, pos + 1));
    } else if pos + 1 < code.len() && c == '/' && code[pos + 1] == '*' {
    } else if c == '"' || c == '\'' {
        lemma_scans_stop_before_newlines(code, pos + 1, c, false);
        lemma_scans_advance(code, pos + 1, c, false);
    } else if is_ascii_alpha(c) || c == '_' {
        assert(word_end(code, pos) == word_end(code, pos + 1));
    } else if is_ascii_digit(c) {
        assert(number_end(code, pos) == number_end(code, pos + 1));
    }
}

proof fn lemma_preprocessor_after_newline(code: Seq<char>, pos: int, line_start: bool, k: int, w: int)
    requires
        0 <= pos <= code.len(),
        0 <= k < highlight_from(code, pos, line_start).len(),
        code[highlight_from(code, pos, line_start)[k].1 - 1] == '\n',
        highlight_from(code, pos, line_start)[k].1 <= w < code.len(),
        forall|i: int|
            highlight_from(code, pos, line_start)[k].1 <= i < w ==> spec_is_whitespace(code[i]),
        code[w] == '#',
    ensures
        highlight_from(code, pos, line_start).contains((w, line_end(code, w), TokenKind::Preprocessor)),
    decreases code.len() - pos,
{
    let spans = highlight_from(code, pos, line_start);
    let step = highlight_step(code, pos, line_start);
    lemma_step_advances(code, pos, line_start);
    lemma_step_tiles(code, pos, line_start);
    let rest = highlight_from(code, step.1, step.2);
    assert(spans == step.0 + rest);
    let b = spans[k].1;
    let target = (w, line_end(code, w), TokenKind::Preprocessor);
    if k < step.0.len() {
        assert(spans[k] == step.0[k]);
        if k == step.0.len() - 1 {
            // the step ends just after the newline: the next one starts a line
            assert(b == step.1);
            lemma_step_after_newline(code, pos, line_start);
            assert(step.2);
            lemma_ws_end_at_hash(code, b, w);
            let step2 = highlight_step(code, b, true);
            lemma_step_advances(code, b, true);
            let rest2 = highlight_from(code, step2.1, step2.2);
            assert(rest == step2.0 + rest2);
            let j: int = if w > b { 1 } else { 0 };
            assert(step2.0[j] == target);
            assert(spans[step.0.len() + j] == target);
        } else {
            // the whitespace before a `#` that begins a line
            let w0 = ws_end(code, pos);
            assert(line_start && w0 < code.len() && code[w0] == '#' && w0 > pos);
            assert(k == 0 && b == w0);
            if w > w0 {
                assert(spec_is_whitespace(code[w0]));
            }
            assert(w == w0);
            assert(spans[1] == target);
        }
    } else {
        let k2 = k - step.0.len();
        assert(spans[k] == rest[k2]);
        lemma_preprocessor_after_newline(code, step.1, step.2, k2, w);
        let j = choose|j: int| 0 <= j < rest.len() && rest[j] == target;
        assert(spans[step.0.len() + j] == target);
    }
}

/// Wherever a span of the highlighting ends with a newline (outside block comments), the
/// next line starts afresh: when its first character that is not whitespace is `#`, it
/// is highlighted as a preprocessor line from there to its end.
pub proof fn preprocessor_lines_after_a_newline(code: Seq<char>, k: int, w: int)
    requires
        0 <= k < spec_highlight(code).len(),
        code[spec_highlight(code)[k].1 - 1] == '\n',
        spec_highlight(code)[k].1 <= w < code.len(),
        forall|i: int| spec_highlight(code)[k].1 <= i < w ==> spec_is_whitespace(code[i]),
        code[w] == '#',
    ensures
        spec_highlight(code).contains((w, line_end(code, w), TokenKind::Preprocessor)),
{
    lemma_preprocessor_after_newline(code, 0, true, k, w);
}

} // verus!
