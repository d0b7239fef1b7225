use lite_dev_cpp::editor::{apply_edit_assists, byte_index_for_char};
use lite_dev_cpp::highlight::{highlight_spans, is_builtin_type, is_keyword, quoted_len, TokenKind};

fn assist(before: &str, after: &str, cursor: usize) -> (String, Option<usize>) {
    let mut text = after.to_owned();
    let res = apply_edit_assists(before, &mut text, cursor);
    (text, res)
}

#[test]
fn opening_brackets_and_quotes_get_closed() {
    assert_eq!(assist("ab", "a(b", 2), ("a()b".to_owned(), Some(2)));
    assert_eq!(assist("", "[", 1), ("[]".to_owned(), Some(1)));
    assert_eq!(assist("x", "x{", 2), ("x{}".to_owned(), Some(2)));
    assert_eq!(assist("", "\"", 1), ("\"\"".to_owned(), Some(1)));
    assert_eq!(assist("a", "'a", 1), ("''a".to_owned(), Some(1)));
}

#[test]
fn typing_a_bracket_inside_brackets_is_recognized() {
    // the inserted character is found even when equal characters surround it
    assert_eq!(assist("((", "(((", 3), ("((()".to_owned(), Some(3)));
}

#[test]
fn tab_becomes_four_spaces() {
    assert_eq!(assist("x", "x\t", 2), ("x    ".to_owned(), Some(5)));
    assert_eq!(assist("ab", "a\tb", 2), ("a    b".to_owned(), Some(5)));
}

#[test]
fn newline_keeps_indentation() {
    assert_eq!(assist("  x", "  x\n", 4), ("  x\n  ".to_owned(), Some(6)));
    assert_eq!(assist("\tif", "\tif\n", 4), ("\tif\n\t".to_owned(), Some(5)));
}

#[test]
fn newline_after_brace_indents_and_opens_a_line_for_the_closing_brace() {
    assert_eq!(
        assist("int f() {}", "int f() {\n}", 10),
        ("int f() {\n    \n}".to_owned(), Some(14))
    );
    assert_eq!(assist("  if (x) {", "  if (x) {\n", 11), ("  if (x) {\n      ".to_owned(), Some(17)));
}

#[test]
fn newline_without_indentation_changes_nothing() {
    assert_eq!(assist("x", "x\n", 2), ("x\n".to_owned(), None));
}

#[test]
fn other_edits_are_left_alone() {
    assert_eq!(assist("ab", "abc", 3), ("abc".to_owned(), None));
    assert_eq!(assist("abc", "ab", 2), ("ab".to_owned(), None));
    assert_eq!(assist("ab", "a()b", 3), ("a()b".to_owned(), None));
    assert_eq!(assist("", "", 0), ("".to_owned(), None));
}

#[test]
fn pairs_past_the_end_of_the_text_are_not_inserted() {
    assert_eq!(assist("a", "a(", 5), ("a(".to_owned(), None));
}

#[test]
fn assists_work_with_multibyte_text() {
    assert_eq!(assist("é", "é(", 2), ("é()".to_owned(), Some(2)));
    assert_eq!(assist("日本", "日(本", 2), ("日()本".to_owned(), Some(2)));
}

#[test]
fn byte_positions_of_characters() {
    assert_eq!(byte_index_for_char("aé日b", 0), Some(0));
    assert_eq!(byte_index_for_char("aé日b", 2), Some(3));
    assert_eq!(byte_index_for_char("aé日b", 3), Some(6));
    assert_eq!(byte_index_for_char("aé日b", 4), Some(7));
    assert_eq!(byte_index_for_char("aé日b", 5), None);
}

fn runs(code: &str) -> Vec<(String, TokenKind)> {
    highlight_spans(code)
        .iter()
        .map(|s| (code[s.byte_start..s.byte_end].to_owned(), s.kind))
        .collect()
}

fn run(text: &str, kind: TokenKind) -> (String, TokenKind) {
    (text.to_owned(), kind)
}

#[test]
fn highlights_a_declaration_with_a_comment() {
    assert_eq!(
        runs("int x = 42; // c\n"),
        vec![
            run("int", TokenKind::TypeName),
            run(" ", TokenKind::Plain),
            run("x", TokenKind::Plain),
            run(" ", TokenKind::Plain),
            run("=", TokenKind::Operator),
            run(" ", TokenKind::Plain),
            run("42", TokenKind::Number),
            run(";", TokenKind::Operator),
            run(" ", TokenKind::Plain),
            run("// c", TokenKind::Comment),
            run("\n", TokenKind::Plain),
        ]
    );
}

#[test]
fn highlights_preprocessor_lines_at_line_start_only() {
    assert_eq!(
        runs("  #define A 1\nx # y"),
        vec![
            run("  ", TokenKind::Plain),
            run("#define A 1", TokenKind::Preprocessor),
            run("\n", TokenKind::Plain),
            run("x", TokenKind::Plain),
            run(" ", TokenKind::Plain),
            run("#", TokenKind::Plain),
            run(" ", TokenKind::Plain),
            run("y", TokenKind::Plain),
        ]
    );
}

#[test]
fn highlights_keywords_strings_and_block_comments() {
    assert_eq!(
        runs("return \"a\\\"b\";/* x */y"),
        vec![
            run("return", TokenKind::Keyword),
            run(" ", TokenKind::Plain),
            run("\"a\\\"b\"", TokenKind::Literal),
            run(";", TokenKind::Operator),
            run("/* x */", TokenKind::Comment),
            run("y", TokenKind::Plain),
        ]
    );
    assert_eq!(runs("'c"), vec![run("'c", TokenKind::Literal)]);
    assert_eq!(runs("\"ab\ncd"), vec![run("\"ab", TokenKind::Literal), run("\n", TokenKind::Plain), run("cd", TokenKind::Plain)]);
}

#[test]
fn unterminated_block_comment_runs_to_the_end() {
    assert_eq!(runs("/* x\n#y"), vec![run("/* x\n#y", TokenKind::Comment)]);
    assert_eq!(runs("/*/ z"), vec![run("/*/", TokenKind::Comment), run(" ", TokenKind::Plain), run("z", TokenKind::Plain)]);
}

#[test]
fn highlighting_covers_the_whole_code() {
    let code = "é+1.5e-3 vector<int> v; // ü\n#x";
    let spans = highlight_spans(code);
    let mut joined = String::new();
    let mut next = 0;
    for s in &spans {
        assert_eq!(s.byte_start, next);
        assert!(s.start < s.end);
        joined.push_str(&code[s.byte_start..s.byte_end]);
        next = s.byte_end;
    }
    assert_eq!(joined, code);
    assert_eq!(spans[0].byte_end, 2);
    assert_eq!(spans[2].kind, TokenKind::Number);
    assert_eq!(&code[spans[2].byte_start..spans[2].byte_end], "1.5e-3");
}

#[test]
fn quoted_literals_end_at_the_closing_quote() {
    let chars: Vec<char> = "\"ab\\\"c\" rest".chars().collect();
    assert_eq!(quoted_len(&chars, '"'), 7);
    let chars: Vec<char> = "'x".chars().collect();
    assert_eq!(quoted_len(&chars, '\''), 2);
    assert_eq!(quoted_len(&[], '\''), 0);
}

#[test]
fn keywords_are_never_type_names() {
    assert!(is_keyword("return") && !is_builtin_type("return"));
    assert!(is_builtin_type("int") && !is_keyword("int"));
    assert!(is_builtin_type("priority_queue") && !is_keyword("priority_queue"));
    assert!(!is_keyword("main") && !is_builtin_type("main"));
}
