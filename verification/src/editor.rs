//! Editing assists applied after each keystroke.

use vstd::prelude::*;
use vstd::string::StrSliceExecFns;
use crate::text::{char_is_whitespace, spec_is_whitespace, str_eq, chars_of, char_utf8_len, insert_at, lemma_split_encoding, lemma_utf8_len_take_succ, replace_at, string_from_chars, utf8_len};

verus! {

/// Byte position of character `char_index` in `text`, or of the end of `text` when
/// `char_index` is its length; `None` beyond that.
pub open spec fn spec_byte_index(text: Seq<char>, char_index: int) -> Option<int> {
    if 0 <= char_index <= text.len() {
        Some(utf8_len(text.take(char_index)) as int)
    } else {
        None
    }
}

pub open spec fn opt_int(o: Option<usize>) -> Option<int> {
    match o {
        Some(v) => Some(v as int),
        None => None,
    }
}

/// Byte position in `text` of the character at `char_index` (or of the end).
pub fn byte_index_for_char(text: &str, char_index: usize) -> (res: Option<usize>)
    requires
        utf8_len(text@) <= usize::MAX,
    ensures
        opt_int(res) == spec_byte_index(text@, char_index as int),
{
    let count = text.unicode_len();
    if char_index == count {
        proof {
            assert(text@.take(char_index as int) =~= text@);
        }
        return Some(text.len());
    }
    if char_index > count {
        return None;
    }
    let cs = chars_of(text);
    let mut i: usize = 0;
    let mut bytes: usize = 0;
    proof {
        assert(text@.take(0) =~= Seq::<char>::empty());
        lemma_split_encoding(text@, char_index as int);
    }
    while i < char_index
        invariant
            cs@ == text@,
            char_index < text@.len(),
            i <= char_index,
            bytes == utf8_len(text@.take(i as int)),
            utf8_len(text@.take(char_index as int)) <= utf8_len(text@),
            utf8_len(text@) <= usize::MAX,
        decreases char_index - i,
    {
        proof {
            lemma_utf8_len_take_succ(text@, i as int);
            lemma_split_encoding(text@, i + 1);
            lemma_split_encoding(text@.take(char_index as int), i + 1);
            assert(text@.take(char_index as int).take(i + 1) =~= text@.take(i + 1));
        }
        bytes = bytes + char_utf8_len(cs[i]);
        i += 1;
    }
    Some(bytes)
}

/// Text after inserting `closing` before character `cursor`, and where the cursor
/// stays; the text is unchanged and no cursor is given when `cursor` is past its end.
pub open spec fn pair_result(t: Seq<char>, cursor: int, closing: Seq<char>) -> (Seq<char>, Option<int>) {
    if 0 <= cursor <= t.len() {
        (t.take(cursor) + closing + t.skip(cursor), Some(cursor))
    } else {
        (t, None)
    }
}

/// Inserts the closing half of a pair right after the cursor, leaving the cursor where
/// it is.
fn insert_pair(text: &mut String, cursor_index: usize, closing: &str) -> (res: Option<usize>)
    requires
        utf8_len(old(text)@) <= usize::MAX,
    ensures
        (final(text)@, opt_int(res)) == pair_result(old(text)@, cursor_index as int, closing@),
{
    let byte_index = match byte_index_for_char(text.as_str(), cursor_index) {
        Some(b) => b,
        None => return None,
    };
    insert_at(text, cursor_index, byte_index, closing);
    Some(cursor_index)
}

/// Text after replacing its characters `start..end` by `replacement`; unchanged when
/// either end lies past the text.
pub open spec fn replace_result(t: Seq<char>, start: int, end: int, replacement: Seq<char>) -> Seq<char> {
    if 0 <= start <= t.len() && 0 <= end <= t.len() {
        t.take(start) + replacement + t.skip(end)
    } else {
        t
    }
}

/// Replaces the characters `start_char..end_char` of `text` by `replacement`, when both
/// lie within the text.
fn replace_range(text: &mut String, start_char: usize, end_char: usize, replacement: &str)
    requires
        utf8_len(old(text)@) <= usize::MAX,
        start_char <= old(text)@.len() && end_char <= old(text)@.len() ==> start_char <= end_char,
    ensures
        final(text)@ == replace_result(old(text)@, start_char as int, end_char as int, replacement@),
{
    let start = byte_index_for_char(text.as_str(), start_char);
    let end = byte_index_for_char(text.as_str(), end_char);
    match (start, end) {
        (Some(s), Some(e)) => {
            replace_at(text, start_char, end_char, s, e, replacement);
        },
        _ => {},
    }
}

/// Length of the longest common prefix of two character sequences.
pub open spec fn common_prefix_len(a: Seq<char>, b: Seq<char>) -> nat
    decreases a.len(),
{
    if a.len() == 0 || b.len() == 0 || a[0] != b[0] {
        0
    } else {
        1 + common_prefix_len(a.drop_first(), b.drop_first())
    }
}

/// Length of the longest common suffix of two character sequences.
pub open spec fn common_suffix_len(a: Seq<char>, b: Seq<char>) -> nat
    decreases a.len(),
{
    if a.len() == 0 || b.len() == 0 || a.last() != b.last() {
        0
    } else {
        1 + common_suffix_len(a.drop_last(), b.drop_last())
    }
}

/// What an edit inserted: when `after` is longer than `before`, the part of `after`
/// between their longest common prefix and, past it, their longest common suffix.
pub open spec fn spec_inserted_text(before: Seq<char>, after: Seq<char>) -> Option<Seq<char>> {
    if after.len() <= before.len() {
        None
    } else {
        let p = common_prefix_len(before, after) as int;
        let s = common_suffix_len(before.skip(p), after.skip(p)) as int;
        Some(after.subrange(p, after.len() - s))
    }
}

proof fn lemma_common_prefix_step(a: Seq<char>, b: Seq<char>, i: int)
    requires
        0 <= i < a.len(),
        i < b.len(),
        a[i] == b[i],
    ensures
        common_prefix_len(a.skip(i), b.skip(i)) == 1 + common_prefix_len(a.skip(i + 1), b.skip(i + 1)),
{
    assert(a.skip(i).drop_first() =~= a.skip(i + 1));
    assert(b.skip(i).drop_first() =~= b.skip(i + 1));
}

proof fn lemma_common_prefix_chars(x: Seq<char>, y: Seq<char>)
    ensures
        common_prefix_len(x, y) <= x.len(),
        common_prefix_len(x, y) <= y.len(),
        forall|i: int| 0 <= i < common_prefix_len(x, y) ==> x[i] == y[i],
        common_prefix_len(x, y) < x.len() && common_prefix_len(x, y) < y.len() ==> x[common_prefix_len(
            x,
            y,
        ) as int] != y[common_prefix_len(x, y) as int],
    decreases x.len(),
{
    if x.len() > 0 && y.len() > 0 && x[0] == y[0] {
        lemma_common_prefix_chars(x.drop_first(), y.drop_first());
        let p = common_prefix_len(x, y);
        assert forall|i: int| 0 <= i < p implies x[i] == y[i] by {
            if i > 0 {
                assert(x[i] == x.drop_first()[i - 1]);
                assert(y[i] == y.drop_first()[i - 1]);
            }
        }
    }
}

proof fn lemma_common_suffix_of_extension(x: Seq<char>, y: Seq<char>)
    ensures
        common_suffix_len(x, y + x) == x.len(),
    decreases x.len(),
{
    if x.len() > 0 {
        assert((y + x).last() == x.last());
        assert((y + x).drop_last() =~= y + x.drop_last());
        lemma_common_suffix_of_extension(x.drop_last(), y);
    }
}

proof fn lemma_run_of_char(before: Seq<char>, a: Seq<char>, k: int, p: int, j: int, c: char)
    requires
        0 <= k <= j <= p <= before.len(),
        a.len() == before.len() + 1,
        a[k] == c,
        forall|i: int| k <= i < before.len() ==> a[i + 1] == #[trigger] before[i],
        forall|i: int| 0 <= i < p ==> before[i] == #[trigger] a[i],
    ensures
        a[j] == c,
    decreases j - k,
{
    if j > k {
        lemma_run_of_char(before, a, k, p, j - 1, c);
        assert(before[j - 1] == a[j - 1]);
        assert(a[j] == before[j - 1]);
    }
}

/// Typing a single character anywhere in a text is recognized as inserting exactly that
/// character, whatever surrounds it.
pub proof fn typed_char_is_recognized(before: Seq<char>, k: int, c: char)
    requires
        0 <= k <= before.len(),
    ensures
        spec_inserted_text(before, before.take(k) + seq![c] + before.skip(k)) == Some(seq![c]),
{
    let a = before.take(k) + seq![c] + before.skip(k);
    let bl = before.len() as int;
    assert(a.len() == bl + 1);
    assert forall|i: int| 0 <= i < k implies a[i] == before[i] by {}
    assert forall|i: int| k <= i < bl implies a[i + 1] == before[i] by {}
    assert(a[k] == c);
    lemma_common_prefix_chars(before, a);
    let p = common_prefix_len(before, a) as int;
    if p < k {
        assert(before[p] == a[p]);
    }
    assert(p >= k);
    // every position from k up to p holds c
    lemma_run_of_char(before, a, k, p, p, c);
    assert(before.skip(p) =~= a.skip(p + 1));
    assert(a.skip(p) =~= seq![a[p]] + before.skip(p));
    lemma_common_suffix_of_extension(before.skip(p), seq![a[p]]);
    assert(a.subrange(p, a.len() - (bl - p)) =~= seq![c]);
}

/// The text that an edit inserted, when the text grew.
#[verifier::spinoff_prover]
fn inserted_text(before: &str, after: &str) -> (res: Option<String>)
    ensures
        match res {
            Some(t) => spec_inserted_text(before@, after@) == Some(t@),
            None => spec_inserted_text(before@, after@) is None,
        },
{
    let b = chars_of(before);
    let a = chars_of(after);
    if a.len() <= b.len() {
        return None;
    }
    let mut prefix: usize = 0;
    proof {
        assert(b@.skip(0) =~= b@);
        assert(a@.skip(0) =~= a@);
    }
    while prefix < b.len() && prefix < a.len() && b[prefix] == a[prefix]
        invariant
            b@ == before@,
            a@ == after@,
            prefix <= b.len(),
            prefix <= a.len(),
            common_prefix_len(b@, a@) == prefix + common_prefix_len(
                b@.skip(prefix as int),
                a@.skip(prefix as int),
            ),
        decreases b.len() - prefix,
    {
        proof {
            lemma_common_prefix_step(b@, a@, prefix as int);
        }
        prefix += 1;
    }
    let bl = b.len();
    let al = a.len();
    let ghost bs = b@.skip(prefix as int);
    let ghost as_ = a@.skip(prefix as int);
    let mut suffix: usize = 0;
    proof {
        assert(bs.take(bs.len() - 0) =~= bs);
        assert(as_.take(as_.len() - 0) =~= as_);
    }
    while suffix < bl - prefix && suffix < al - prefix && b[bl - 1 - suffix] == a[al - 1 - suffix]
        invariant
            b@ == before@,
            a@ == after@,
            bl == b.len(),
            al == a.len(),
            prefix <= bl < al,
            bs == b@.skip(prefix as int),
            as_ == a@.skip(prefix as int),
            suffix <= bl - prefix,
            suffix <= al - prefix,
            common_suffix_len(bs, as_) == suffix + common_suffix_len(
                bs.take(bs.len() - suffix),
                as_.take(as_.len() - suffix),
            ),
        decreases bl - suffix,
    {
        proof {
            let x = bs.take(bs.len() - suffix);
            let y = as_.take(as_.len() - suffix);
            assert(x.last() == b[bl - 1 - suffix]);
            assert(y.last() == a[al - 1 - suffix]);
            assert(x.drop_last() =~= bs.take(bs.len() - (suffix + 1)));
            assert(y.drop_last() =~= as_.take(as_.len() - (suffix + 1)));
        }
        suffix += 1;
    }
    proof {
        assert(common_prefix_len(b@.skip(prefix as int), a@.skip(prefix as int)) == 0);
        assert(common_suffix_len(bs.take(bs.len() - suffix), as_.take(as_.len() - suffix)) == 0);
    }
    let mut out: Vec<char> = Vec::new();
    let mut k: usize = prefix;
    while k < al - suffix
        invariant
            a@ == after@,
            al == a.len(),
            prefix <= k <= al - suffix,
            suffix <= al - prefix,
            out@ == a@.subrange(prefix as int, k as int),
        decreases al - suffix - k,
    {
        out.push(a[k]);
        k += 1;
        assert(out@ =~= a@.subrange(prefix as int, k as int));
    }
    Some(string_from_chars(out.as_slice()))
}


/// Index of the last occurrence of `c` in `s`, or -1.
pub open spec fn last_index_of(s: Seq<char>, c: char) -> int
    decreases s.len(),
{
    if s.len() == 0 {
        -1
    } else if s.last() == c {
        s.len() - 1
    } else {
        last_index_of(s.drop_last(), c)
    }
}

/// Number of spaces and tabs that begin `s`.
pub open spec fn indent_len(s: Seq<char>) -> nat
    decreases s.len(),
{
    if s.len() > 0 && (s[0] == ' ' || s[0] == '\t') {
        1 + indent_len(s.drop_first())
    } else {
        0
    }
}

/// The last character of `s` that is not whitespace.
pub open spec fn last_non_whitespace(s: Seq<char>) -> Option<char>
    decreases s.len(),
{
    if s.len() == 0 {
        None
    } else if !spec_is_whitespace(s.last()) {
        Some(s.last())
    } else {
        last_non_whitespace(s.drop_last())
    }
}

/// Indentation of the line on which a newline was just typed before character `cursor`.
pub open spec fn base_indent(t: Seq<char>, cursor: int) -> Seq<char> {
    let head = t.take(cursor - 1);
    let line = head.skip(last_index_of(head, '\n') + 1);
    line.take(indent_len(line) as int)
}

/// Whether the newline typed before `cursor` follows an opening brace.
pub open spec fn opens_block(t: Seq<char>, cursor: int) -> bool {
    last_non_whitespace(t.take(cursor - 1)) == Some('{')
}

pub open spec fn extra_indent(t: Seq<char>, cursor: int) -> Seq<char> {
    if opens_block(t, cursor) {
        "    "@
    } else {
        Seq::empty()
    }
}

/// What is inserted after a newline typed before `cursor`: the previous line's
/// indentation, four more spaces after an opening brace, and, between braces, a further
/// line with the previous indentation for the closing brace.
pub open spec fn newline_insertion(t: Seq<char>, cursor: int) -> Seq<char> {
    let base = base_indent(t, cursor);
    if opens_block(t, cursor) && cursor < t.len() && t[cursor] == '}' {
        base + extra_indent(t, cursor) + "\n"@ + base
    } else {
        base + extra_indent(t, cursor)
    }
}

/// Text and cursor after the newline assist: nothing happens at the start of the text,
/// when nothing is to be inserted, or when the cursor lies past the end.
pub open spec fn newline_result(t: Seq<char>, cursor: int) -> (Seq<char>, Option<int>) {
    if cursor == 0 || newline_insertion(t, cursor).len() == 0 || cursor > t.len() {
        (t, None)
    } else {
        (
            t.take(cursor) + newline_insertion(t, cursor) + t.skip(cursor),
            Some(cursor + base_indent(t, cursor).len() + extra_indent(t, cursor).len()),
        )
    }
}

/// Indents the line that a newline just started, after the newline typed before
/// `cursor_index`.
#[verifier::spinoff_prover]
#[verifier::rlimit(40)]
fn apply_newline_indent(text: &mut String, cursor_index: usize) -> (res: Option<usize>)
    requires
        cursor_index <= old(text)@.len() + 1,
        old(text)@.len() <= usize::MAX / 4,
        utf8_len(old(text)@) <= usize::MAX,
    ensures
        (final(text)@, opt_int(res)) == newline_result(old(text)@, cursor_index as int),
{
    let chars = chars_of(text.as_str());
    if cursor_index == 0 {
        return None;
    }
    let ghost t = text@;
    let end = cursor_index - 1;
    let ghost head = t.take(end as int);
    // start of the line on which the newline was typed
    let mut k: usize = end;
    assert(head.take(end as int) =~= head);
    while k > 0 && chars[k - 1] != '\n'
        invariant
            chars@ == t,
            end <= t.len(),
            head == t.take(end as int),
            k <= end,
            last_index_of(head, '\n') == last_index_of(head.take(k as int), '\n'),
        decreases k,
    {
        proof {
            let h = head.take(k as int);
            assert(h.drop_last() =~= head.take(k - 1));
        }
        k -= 1;
    }
    let line_start = k;
    proof {
        if k > 0 {
            assert(last_index_of(head.take(k as int), '\n') == k - 1);
        } else {
            assert(head.take(0) =~= Seq::<char>::empty());
        }
        assert(line_start == last_index_of(head, '\n') + 1);
    }
    let ghost line = head.skip(line_start as int);
    // leading spaces and tabs of that line
    let mut base: Vec<char> = Vec::new();
    let mut j: usize = line_start;
    proof {
        assert(line.skip(0) =~= line);
    }
    while j < end && (chars[j] == ' ' || chars[j] == '\t')
        invariant
            chars@ == t,
            end <= t.len(),
            head == t.take(end as int),
            line == head.skip(line_start as int),
            line_start <= j <= end,
            base@ == line.take(j - line_start),
            indent_len(line) == (j - line_start) + indent_len(line.skip(j - line_start)),
        decreases end - j,
    {
        proof {
            assert(line.skip(j - line_start).drop_first() =~= line.skip(j - line_start + 1));
        }
        base.push(chars[j]);
        j += 1;
        assert(base@ =~= line.take(j - line_start));
    }
    proof {
        assert(indent_len(line.skip(j - line_start)) == 0);
        assert(base@ =~= base_indent(t, cursor_index as int));
    }
    // last character before the newline that is not whitespace
    let mut m: usize = end;
    while m > 0 && char_is_whitespace(chars[m - 1])
        invariant
            chars@ == t,
            end <= t.len(),
            head == t.take(end as int),
            m <= end,
            head.take(end as int) == head,
            last_non_whitespace(head) == last_non_whitespace(head.take(m as int)),
        decreases m,
    {
        proof {
            assert(head.take(m as int).drop_last() =~= head.take(m - 1));
        }
        m -= 1;
    }
    let before_newline: Option<char> = if m > 0 {
        Some(chars[m - 1])
    } else {
        None
    };
    proof {
        if m == 0 {
            assert(head.take(0) =~= Seq::<char>::empty());
        }
        assert(before_newline == last_non_whitespace(head));
    }
    let after_cursor: Option<char> = if cursor_index < chars.len() {
        Some(chars[cursor_index])
    } else {
        None
    };
    let opens = match before_newline {
        Some(c) => c == '{',
        None => false,
    };
    let closes = match after_cursor {
        Some(c) => c == '}',
        None => false,
    };
    let mut insertion: Vec<char> = base.clone();
    if opens {
        insertion.push(' ');
        insertion.push(' ');
        insertion.push(' ');
        insertion.push(' ');
    }
    proof {
        reveal_strlit("    ");
        reveal_strlit("\n");
        assert(insertion@ =~= base_indent(t, cursor_index as int) + extra_indent(t, cursor_index as int));
    }
    let extra_count: usize = if opens { 4 } else { 0 };
    if opens && closes {
        insertion.push('\n');
        let mut q: usize = 0;
        let ghost prefix = insertion@;
        while q < base.len()
            invariant
                insertion@ == prefix + base@.take(q as int),
                q <= base.len(),
            decreases base.len() - q,
        {
            insertion.push(base[q]);
            q += 1;
            assert(insertion@ =~= prefix + base@.take(q as int));
        }
        assert(base@.take(base.len() as int) =~= base@);
    }
    proof {
        assert(insertion@ =~= newline_insertion(t, cursor_index as int));
    }
    if insertion.len() == 0 {
        return None;
    }
    let byte_index = match byte_index_for_char(text.as_str(), cursor_index) {
        Some(b) => b,
        None => return None,
    };
    let inserted = string_from_chars(insertion.as_slice());
    insert_at(text, cursor_index, byte_index, inserted.as_str());
    Some(cursor_index + base.len() + extra_count)
}


/// The closing half that typing `ins` calls for, when it opens a pair.
pub open spec fn closing_for(ins: Seq<char>) -> Option<Seq<char>> {
    if ins == "("@ {
        Some(")"@)
    } else if ins == "["@ {
        Some("]"@)
    } else if ins == "{"@ {
        Some("}"@)
    } else if ins == "\""@ {
        Some("\""@)
    } else if ins == "'"@ {
        Some("'"@)
    } else {
        None
    }
}

/// Text and cursor after the assists that follow an edit from `before` to `after` with
/// the cursor at `cursor`: an opened bracket or quote gets its closing half, a typed tab
/// becomes four spaces, a typed newline is indented; any other edit is left alone.
pub open spec fn edit_assist_result(before: Seq<char>, after: Seq<char>, cursor: int) -> (Seq<char>, Option<int>) {
    match spec_inserted_text(before, after) {
        None => (after, None),
        Some(ins) => match closing_for(ins) {
            Some(closing) => pair_result(after, cursor, closing),
            None => if ins == "\t"@ {
                (
                    replace_result(after, if cursor >= 1 { cursor - 1 } else { 0 }, cursor, "    "@),
                    Some(cursor + 3),
                )
            } else if ins == "\n"@ {
                newline_result(after, cursor)
            } else {
                (after, None)
            },
        },
    }
}

/// Completes what was just typed into `after` (previously `before`) with the cursor at
/// `cursor_index`, and gives the cursor's new position when the text changed.
pub fn apply_edit_assists(before: &str, after: &mut String, cursor_index: usize) -> (res: Option<usize>)
    requires
        cursor_index <= usize::MAX - 3,
        old(after)@.len() <= usize::MAX / 4,
        utf8_len(old(after)@) <= usize::MAX,
        spec_inserted_text(before@, old(after)@) == Some("\n"@) ==> cursor_index <= old(after)@.len() + 1,
    ensures
        (final(after)@, opt_int(res)) == edit_assist_result(before@, old(after)@, cursor_index as int),
{
    let inserted = match inserted_text(before, after.as_str()) {
        Some(t) => t,
        None => return None,
    };
    let ins = inserted.as_str();
    if str_eq(ins, "(") {
        insert_pair(after, cursor_index, ")")
    } else if str_eq(ins, "[") {
        insert_pair(after, cursor_index, "]")
    } else if str_eq(ins, "{") {
        insert_pair(after, cursor_index, "}")
    } else if str_eq(ins, "\"") {
        insert_pair(after, cursor_index, "\"")
    } else if str_eq(ins, "'") {
        insert_pair(after, cursor_index, "'")
    } else if str_eq(ins, "\t") {
        let start = if cursor_index >= 1 { cursor_index - 1 } else { 0 };
        replace_range(after, start, cursor_index, "    ");
        Some(cursor_index + 3)
    } else if str_eq(ins, "\n") {
        apply_newline_indent(after, cursor_index)
    } else {
        None
    }
}

/// The closing half of an opening bracket or quote.
pub open spec fn closing_char(c: char) -> char {
    if c == '(' {
        ')'
    } else if c == '[' {
        ']'
    } else if c == '{' {
        '}'
    } else {
        c
    }
}

/// Typing an opening bracket or quote anywhere inserts its closing half right after it
/// and leaves the cursor between the two.
pub proof fn typed_opening_gets_closed(before: Seq<char>, k: int, c: char)
    requires
        0 <= k <= before.len(),
        c == '(' || c == '[' || c == '{' || c == '"' || c == '\'',
    ensures
        edit_assist_result(before, before.take(k) + seq![c] + before.skip(k), k + 1) == (
            before.take(k) + seq![c, closing_char(c)] + before.skip(k),
            Some(k + 1),
        ),
{
    let after = before.take(k) + seq![c] + before.skip(k);
    typed_char_is_recognized(before, k, c);
    reveal_strlit("(");
    reveal_strlit(")");
    reveal_strlit("[");
    reveal_strlit("]");
    reveal_strlit("{");
    reveal_strlit("}");
    reveal_strlit("\"");
    reveal_strlit("'");
    assert("("@ =~= seq!['(']);
    assert(")"@ =~= seq![')']);
    assert("["@ =~= seq!['[']);
    assert("]"@ =~= seq![']']);
    assert("{"@ =~= seq!['{']);
    assert("}"@ =~= seq!['}']);
    assert("\""@ =~= seq!['"']);
    assert("'"@ =~= seq!['\'']);
    let sc = seq![c];
    assert(sc[0] == c);
    assert(sc == "("@ <==> c == '(');
    assert(sc == "["@ <==> c == '[');
    assert(sc == "{"@ <==> c == '{');
    assert(sc == "\""@ <==> c == '"');
    assert(sc == "'"@ <==> c == '\'');
    assert(closing_for(seq![c]) == Some(seq![closing_char(c)]));
    assert(after.take(k + 1) + seq![closing_char(c)] + after.skip(k + 1) =~= before.take(k) + seq![
        c,
        closing_char(c),
    ] + before.skip(k));
}

/// Typing a tab anywhere puts four spaces in its place, with the cursor after them.
pub proof fn typed_tab_becomes_spaces(before: Seq<char>, k: int)
    requires
        0 <= k <= before.len(),
    ensures
        edit_assist_result(before, before.take(k) + seq!['\t'] + before.skip(k), k + 1) == (
            before.take(k) + seq![' ', ' ', ' ', ' '] + before.skip(k),
            Some(k + 4),
        ),
{
    let after = before.take(k) + seq!['\t'] + before.skip(k);
    typed_char_is_recognized(before, k, '\t');
    reveal_strlit("(");
    reveal_strlit("[");
    reveal_strlit("{");
    reveal_strlit("\"");
    reveal_strlit("'");
    reveal_strlit("\t");
    reveal_strlit("    ");
    assert("("@ =~= seq!['(']);
    assert("["@ =~= seq!['[']);
    assert("{"@ =~= seq!['{']);
    assert("\""@ =~= seq!['"']);
    assert("'"@ =~= seq!['\'']);
    assert("\t"@ =~= seq!['\t']);
    assert("    "@ =~= seq![' ', ' ', ' ', ' ']);
    assert(seq!['\t'] != "("@ && seq!['\t'] != "["@ && seq!['\t'] != "{"@) by {
        assert(seq!['\t'][0] != '(');
    }
    assert(seq!['\t'] != "\""@ && seq!['\t'] != "'"@) by {
        assert(seq!['\t'][0] != '"');
    }
    assert(closing_for(seq!['\t']) is None);
    assert(after.take(k) + "    "@ + after.skip(k + 1) =~= before.take(k) + seq![' ', ' ', ' ', ' ']
        + before.skip(k));
}

proof fn lemma_last_index_skips(x: Seq<char>, y: Seq<char>, c: char)
    requires
        !y.contains(c),
    ensures
        last_index_of(x + y, c) == last_index_of(x, c),
    decreases y.len(),
{
    if y.len() > 0 {
        assert((x + y).last() == y.last());
        assert(y.last() != c) by {
            assert(y[y.len() - 1] == y.last());
        }
        assert((x + y).drop_last() =~= x + y.drop_last());
        assert(!y.drop_last().contains(c)) by {
            if y.drop_last().contains(c) {
                let i = choose|i: int| 0 <= i < y.drop_last().len() && y.drop_last()[i] == c;
                assert(y[i] == c);
            }
        }
        lemma_last_index_skips(x, y.drop_last(), c);
    } else {
        assert(x + y =~= x);
    }
}

proof fn lemma_indent_prefix(ind: Seq<char>, body: Seq<char>)
    requires
        forall|i: int| 0 <= i < ind.len() ==> ind[i] == ' ' || ind[i] == '\t',
        body.len() == 0 || (body[0] != ' ' && body[0] != '\t'),
    ensures
        indent_len(ind + body) == ind.len(),
    decreases ind.len(),
{
    if ind.len() > 0 {
        assert((ind + body)[0] == ind[0]);
        assert((ind + body).drop_first() =~= ind.drop_first() + body);
        lemma_indent_prefix(ind.drop_first(), body);
    } else {
        assert(ind + body =~= body);
    }
}

proof fn lemma_last_non_whitespace_suffix(x: Seq<char>, y: Seq<char>)
    requires
        last_non_whitespace(y) is Some,
    ensures
        last_non_whitespace(x + y) == last_non_whitespace(y),
    decreases y.len(),
{
    if y.len() > 0 {
        assert((x + y).last() == y.last());
        assert((x + y).drop_last() =~= x + y.drop_last());
        if spec_is_whitespace(y.last()) {
            lemma_last_non_whitespace_suffix(x, y.drop_last());
        }
    }
}

/// Pressing Enter at the end of a line keeps the line's indentation (its leading spaces
/// and tabs) on the new line, four spaces deeper after an opening brace; the cursor goes
/// to the end of the new indentation.
proof fn lemma_entered_line(head: Seq<char>, ind: Seq<char>, body: Seq<char>)
    requires
        head.len() == 0 || head.last() == '\n',
        forall|i: int| 0 <= i < ind.len() ==> ind[i] == ' ' || ind[i] == '\t',
        body.len() > 0,
        body[0] != ' ' && body[0] != '\t',
        !body.contains('\n'),
        last_non_whitespace(body) is Some,
    ensures
        base_indent((head + ind + body).push('\n'), (head + ind + body).len() + 1 as int) == ind,
        opens_block((head + ind + body).push('\n'), (head + ind + body).len() + 1 as int) == (
        last_non_whitespace(body) == Some('{')),
{
    let before = head + ind + body;
    let k = before.len() as int;
    let after = before.push('\n');
    // the line on which Enter was pressed
    assert(after.take(k) =~= before);
    assert(!(ind + body).contains('\n')) by {
        if (ind + body).contains('\n') {
            let i = choose|i: int| 0 <= i < (ind + body).len() && (ind + body)[i] == '\n';
            if i < ind.len() {
                assert(ind[i] == '\n');
            } else {
                assert(body[i - ind.len()] == '\n');
            }
        }
    }
    assert(before =~= head + (ind + body));
    lemma_last_index_skips(head, ind + body, '\n');
    if head.len() > 0 {
        assert(last_index_of(head, '\n') == head.len() - 1);
    }
    assert(before.skip(last_index_of(before, '\n') + 1) =~= ind + body);
    lemma_indent_prefix(ind, body);
    assert((ind + body).take(ind.len() as int) =~= ind);
    assert(base_indent(after, k + 1) == ind);
    lemma_last_non_whitespace_suffix(head + ind, body);
    assert(opens_block(after, k + 1) == (last_non_whitespace(body) == Some('{')));
}

/// Pressing Enter at the end of a line gives the new line the indentation of the line
/// before it, four spaces more when that line ends with `{`, and leaves the cursor after
/// that indentation; without any indentation to add, nothing changes.
pub proof fn newline_keeps_indentation(head: Seq<char>, ind: Seq<char>, body: Seq<char>)
    requires
        head.len() == 0 || head.last() == '\n',
        forall|i: int| 0 <= i < ind.len() ==> ind[i] == ' ' || ind[i] == '\t',
        body.len() > 0,
        body[0] != ' ' && body[0] != '\t',
        !body.contains('\n'),
        last_non_whitespace(body) is Some,
    ensures
        ({
            let before = head + ind + body;
            let after = before.push('\n');
            let extra = if last_non_whitespace(body) == Some('{') {
                seq![' ', ' ', ' ', ' ']
            } else {
                Seq::<char>::empty()
            };
            edit_assist_result(before, after, before.len() + 1 as int) == if ind.len() + extra.len() == 0 {
                (after, None)
            } else {
                (after + ind + extra, Some(before.len() + 1 + ind.len() + extra.len() as int))
            }
        }),
{
    let before = head + ind + body;
    let k = before.len() as int;
    let after = before.push('\n');
    assert(before.take(k) + seq!['\n'] + before.skip(k) =~= after);
    typed_char_is_recognized(before, k, '\n');
    reveal_strlit("(");
    reveal_strlit("[");
    reveal_strlit("{");
    reveal_strlit("\"");
    reveal_strlit("'");
    reveal_strlit("\t");
    reveal_strlit("\n");
    reveal_strlit("    ");
    assert("\n"@ =~= seq!['\n']);
    assert("    "@ =~= seq![' ', ' ', ' ', ' ']);
    let nl = seq!['\n'];
    assert(nl[0] == '\n');
    assert(nl != "("@ && nl != "["@ && nl != "{"@ && nl != "\""@ && nl != "'"@ && nl != "\t"@) by {
        assert("("@[0] == '(');
        assert("["@[0] == '[');
        assert("{"@[0] == '{');
        assert("\""@[0] == '"');
        assert("'"@[0] == '\'');
        assert("\t"@[0] == '\t');
    }
    assert(closing_for(nl) is None);
    lemma_entered_line(head, ind, body);
    assert(after.take(k + 1) =~= after);
    assert(after.skip(k + 1) =~= Seq::<char>::empty());
    assert(after + ind + extra_indent(after, k + 1) =~= after.take(k + 1) + newline_insertion(after, k + 1) + after.skip(k + 1));
}

/// Pressing Enter between an opening brace that ends a line and the closing brace right
/// after it opens a line between them, indented four spaces deeper than the brace's line,
/// and puts the closing brace on a line of its own with the brace's line's indentation;
/// the cursor goes to the end of the new indentation, and what follows the closing brace
/// is kept.
pub proof fn newline_between_braces_aligns_the_closing_brace(
    head: Seq<char>,
    ind: Seq<char>,
    body: Seq<char>,
    rest: Seq<char>,
)
    requires
        head.len() == 0 || head.last() == '\n',
        forall|i: int| 0 <= i < ind.len() ==> ind[i] == ' ' || ind[i] == '\t',
        body.len() > 0,
        body[0] != ' ' && body[0] != '\t',
        !body.contains('\n'),
        body.last() == '{',
    ensures
        ({
            let line = head + ind + body;
            let before = line + seq!['}'] + rest;
            let typed = line + seq!['\n', '}'] + rest;
            edit_assist_result(before, typed, line.len() + 1 as int) == (
                line + seq!['\n'] + ind + seq![' ', ' ', ' ', ' ', '\n'] + ind + seq!['}'] + rest,
                Some(line.len() + 1 + ind.len() + 4 as int),
            )
        }),
{
    let line = head + ind + body;
    let k = line.len() as int;
    let before = line + seq!['}'] + rest;
    let typed = line + seq!['\n', '}'] + rest;
    let entered = line.push('\n');
    assert(before.take(k) =~= line);
    assert(before.skip(k) =~= seq!['}'] + rest);
    assert(before.take(k) + seq!['\n'] + before.skip(k) =~= typed);
    typed_char_is_recognized(before, k, '\n');
    reveal_strlit("(");
    reveal_strlit("[");
    reveal_strlit("{");
    reveal_strlit("\"");
    reveal_strlit("'");
    reveal_strlit("\t");
    reveal_strlit("\n");
    reveal_strlit("    ");
    assert("\n"@ =~= seq!['\n']);
    assert("    "@ =~= seq![' ', ' ', ' ', ' ']);
    let nl = seq!['\n'];
    assert(nl[0] == '\n');
    assert(nl != "("@ && nl != "["@ && nl != "{"@ && nl != "\""@ && nl != "'"@ && nl != "\t"@) by {
        assert("("@[0] == '(');
        assert("["@[0] == '[');
        assert("{"@[0] == '{');
        assert("\""@[0] == '"');
        assert("'"@[0] == '\'');
        assert("\t"@[0] == '\t');
    }
    assert(closing_for(nl) is None);
    assert(body[body.len() - 1] == '{');
    assert(last_non_whitespace(body) == Some('{'));
    lemma_entered_line(head, ind, body);
    assert(typed.take(k) =~= entered.take(k));
    assert(base_indent(typed, k + 1) == base_indent(entered, k + 1));
    assert(opens_block(typed, k + 1) == opens_block(entered, k + 1));
    assert(typed[k + 1] == '}');
    assert(typed.take(k + 1) =~= line + seq!['\n']);
    assert(typed.skip(k + 1) =~= seq!['}'] + rest);
    assert(newline_insertion(typed, k + 1) =~= ind + seq![' ', ' ', ' ', ' ', '\n'] + ind);
    assert(typed.take(k + 1) + newline_insertion(typed, k + 1) + typed.skip(k + 1) =~= line
        + seq!['\n'] + ind + seq![' ', ' ', ' ', ' ', '\n'] + ind + seq!['}'] + rest);
}

} // verus!
