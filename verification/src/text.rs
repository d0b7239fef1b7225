//! Character-level helpers shared by the rest of the library.

use vstd::prelude::*;
use vstd::utf8::*;
use vstd::string::StringExecFns;

verus! {

/// Equality of two string slices: they are equal exactly when they hold the same
/// characters, which is when their UTF-8 bytes are the same.
pub(crate) fn str_eq(a: &str, b: &str) -> (res: bool)
    ensures
        res == (a@ == b@),
{
    let x = a.as_bytes();
    let y = b.as_bytes();
    if x.len() != y.len() {
        return false;
    }
    let mut i: usize = 0;
    while i < x.len()
        invariant
            x@ == encode_utf8(a@),
            y@ == encode_utf8(b@),
            x.len() == y.len(),
            i <= x.len(),
            forall|j: int| 0 <= j < i ==> x@[j] == y@[j],
        decreases x.len() - i,
    {
        if x[i] != y[i] {
            return false;
        }
        i += 1;
    }
    proof {
        assert(x@ =~= y@);
        lemma_encode_injective(a@, b@);
    }
    true
}

/// The characters of a string slice, in order.
pub(crate) fn chars_of(s: &str) -> (res: Vec<char>)
    ensures
        res@ == s@,
{
    broadcast use vstd::string::group_string_axioms;
    let mut out: Vec<char> = Vec::new();
    for c in it: s.chars()
        invariant
            it.seq() == s@,
            out@ == s@.take(it.index() as int),
    {
        out.push(c);
    }
    assert(s@.take(s@.len() as int) =~= s@);
    out
}

/// `String::push`: appends one character.
#[verifier::external_body]
pub(crate) fn string_push(s: &mut String, c: char)
    ensures
        final(s)@ == old(s)@.push(c),
{
    s.push(c)
}

/// A string made of the given characters, in order.
pub(crate) fn string_from_chars(v: &[char]) -> (res: String)
    ensures
        res@ == v@,
{
    let mut out = String::new();
    let mut i: usize = 0;
    while i < v.len()
        invariant
            i <= v.len(),
            out@ == v@.take(i as int),
        decreases v.len() - i,
    {
        string_push(&mut out, v[i]);
        i += 1;
        assert(out@ =~= v@.take(i as int));
    }
    assert(v@.take(i as int) =~= v@);
    out
}

/// Whether a character has the Unicode `White_Space` property: tab, line feed, vertical
/// tab, form feed, carriage return, space, next line, no-break space, ogham space mark,
/// the spaces U+2000 to U+200A, line and paragraph separators, narrow no-break space,
/// medium mathematical space and ideographic space.
pub open spec fn spec_is_whitespace(c: char) -> bool {
    let u = c as u32;
    ||| 0x09 <= u <= 0x0D
    ||| u == 0x20
    ||| u == 0x85
    ||| u == 0xA0
    ||| u == 0x1680
    ||| 0x2000 <= u <= 0x200A
    ||| u == 0x2028
    ||| u == 0x2029
    ||| u == 0x202F
    ||| u == 0x205F
    ||| u == 0x3000
}

/// Whether the character has the Unicode `White_Space` property, as `char::is_whitespace`
/// decides it.
pub(crate) fn char_is_whitespace(c: char) -> (res: bool)
    ensures
        res == spec_is_whitespace(c),
{
    let u: u32 = c as u32;
    (0x09 <= u && u <= 0x0D) || u == 0x20 || u == 0x85 || u == 0xA0 || u == 0x1680 || (0x2000
        <= u && u <= 0x200A) || u == 0x2028 || u == 0x2029 || u == 0x202F || u == 0x205F || u
        == 0x3000
}

/// The Unicode lowercase mapping of a string, as `str::to_lowercase` computes it.
pub uninterp spec fn spec_to_lowercase(s: Seq<char>) -> Seq<char>;

/// `str::to_lowercase`; its result is named by `spec_to_lowercase`.
#[verifier::external_body]
pub(crate) fn str_to_lowercase(s: &str) -> (res: String)
    ensures
        res@ == spec_to_lowercase(s@),
{
    s.to_lowercase()
}

/// ASCII letters `A`..`Z` map to `a`..`z`; every other character is unchanged.
pub open spec fn ascii_lower(c: char) -> char {
    if 'A' <= c && c <= 'Z' {
        ((c as u32) + 32) as char
    } else {
        c
    }
}

pub open spec fn ascii_lower_seq(s: Seq<char>) -> Seq<char> {
    Seq::new(s.len(), |i: int| ascii_lower(s[i]))
}

pub fn ascii_lower_char(c: char) -> (res: char)
    ensures
        res == ascii_lower(c),
{
    if 'A' <= c && c <= 'Z' {
        let u: u32 = c as u32;
        let l: u8 = (u + 32) as u8;
        l as char
    } else {
        c
    }
}

/// The ASCII lowercase form of a string (`str::to_ascii_lowercase`).
pub fn to_ascii_lowercase(s: &str) -> (res: String)
    ensures
        res@ == ascii_lower_seq(s@),
{
    let cs = chars_of(s);
    let mut out: Vec<char> = Vec::new();
    let mut i: usize = 0;
    while i < cs.len()
        invariant
            cs@ == s@,
            i <= cs.len(),
            out@ == ascii_lower_seq(s@.take(i as int)),
        decreases cs.len() - i,
    {
        let c = ascii_lower_char(cs[i]);
        out.push(c);
        i += 1;
        assert(out@ =~= ascii_lower_seq(s@.take(i as int)));
    }
    assert(s@.take(i as int) =~= s@);
    string_from_chars(out.as_slice())
}


/// Number of bytes in the UTF-8 encoding of a character.
pub open spec fn utf8_width(c: char) -> nat {
    encode_scalar(c as u32).len()
}

/// Number of bytes in the UTF-8 encoding of a character sequence.
pub open spec fn utf8_len(s: Seq<char>) -> nat {
    encode_utf8(s).len()
}

/// Number of bytes in the UTF-8 encoding of `c` (`char::len_utf8`).
pub fn char_utf8_len(c: char) -> (res: usize)
    ensures
        res == utf8_width(c),
        1 <= res <= 4,
{
    proof {
        char_is_scalar(c);
    }
    let u: u32 = c as u32;
    if u < 0x80 {
        1
    } else if u < 0x800 {
        2
    } else if u < 0x10000 {
        3
    } else {
        4
    }
}

/// The UTF-8 encoding of a concatenation is the concatenation of the encodings.
pub proof fn lemma_encode_concat(a: Seq<char>, b: Seq<char>)
    ensures
        encode_utf8(a + b) == encode_utf8(a) + encode_utf8(b),
    decreases a.len(),
{
    if a.len() == 0 {
        assert(a + b =~= b);
        assert(encode_utf8(a) + encode_utf8(b) =~= encode_utf8(b));
    } else {
        assert((a + b)[0] == a[0]);
        assert((a + b).drop_first() =~= a.drop_first() + b);
        lemma_encode_concat(a.drop_first(), b);
        assert(encode_utf8(a + b) =~= encode_utf8(a) + encode_utf8(b));
    }
}

/// A one-character sequence is encoded as that character.
pub proof fn lemma_encode_single(c: char)
    ensures
        encode_utf8(seq![c]) == encode_scalar(c as u32),
{
    let e = Seq::<char>::empty();
    assert(seq![c].drop_first() =~= e);
    assert(seq![c][0] == c);
    assert(encode_utf8(e) =~= Seq::<u8>::empty());
    assert(encode_utf8(seq![c]) == encode_scalar(c as u32) + encode_utf8(e));
    assert(encode_utf8(seq![c]) =~= encode_scalar(c as u32));
}

/// The byte length of a prefix grows by the width of each next character.
pub proof fn lemma_utf8_len_take_succ(t: Seq<char>, i: int)
    requires
        0 <= i < t.len(),
    ensures
        utf8_len(t.take(i + 1)) == utf8_len(t.take(i)) + utf8_width(t[i]),
{
    assert(t.take(i + 1) =~= t.take(i) + seq![t[i]]);
    lemma_encode_concat(t.take(i), seq![t[i]]);
    lemma_encode_single(t[i]);
}

/// Different character sequences have different encodings.
pub proof fn lemma_encode_injective(x: Seq<char>, y: Seq<char>)
    requires
        encode_utf8(x) == encode_utf8(y),
    ensures
        x == y,
{
    encode_utf8_decode_utf8(x);
    encode_utf8_decode_utf8(y);
}

/// The end of the encoding of a prefix is a character boundary of the whole encoding.
pub proof fn lemma_encode_boundary(a: Seq<char>, b: Seq<char>)
    ensures
        is_char_boundary(encode_utf8(a + b), utf8_len(a) as int),
    decreases a.len(),
{
    encode_utf8_valid_utf8(a + b);
    if a.len() == 0 {
    } else {
        let bytes = encode_utf8(a + b);
        lemma_encode_concat(a, b);
        encode_utf8_first_scalar(a + b);
        assert((a + b)[0] == a[0]);
        assert((a + b).drop_first() =~= a.drop_first() + b);
        assert(pop_first_scalar(bytes) =~= encode_utf8(a.drop_first() + b));
        lemma_encode_boundary(a.drop_first(), b);
        assert(encode_utf8(a) =~= encode_scalar(a[0] as u32) + encode_utf8(a.drop_first()));
    }
}

/// Splitting the encoding of `t` after the encoding of its first `i` characters gives
/// the encodings of the two parts.
pub proof fn lemma_split_encoding(t: Seq<char>, i: int)
    requires
        0 <= i <= t.len(),
    ensures
        is_char_boundary(encode_utf8(t), utf8_len(t.take(i)) as int),
        encode_utf8(t).take(utf8_len(t.take(i)) as int) == encode_utf8(t.take(i)),
        encode_utf8(t).skip(utf8_len(t.take(i)) as int) == encode_utf8(t.skip(i)),
        utf8_len(t.take(i)) <= utf8_len(t),
{
    assert(t =~= t.take(i) + t.skip(i));
    lemma_encode_concat(t.take(i), t.skip(i));
    lemma_encode_boundary(t.take(i), t.skip(i));
    assert(encode_utf8(t).take(utf8_len(t.take(i)) as int) =~= encode_utf8(t.take(i)));
    assert(encode_utf8(t).skip(utf8_len(t.take(i)) as int) =~= encode_utf8(t.skip(i)));
}

/// `String::insert_str`: inserts `s` at byte position `idx`, which has to be a character
/// boundary of the string (it panics otherwise); the bytes before `idx` stay, then come
/// the bytes of `s`, then the bytes that followed `idx`.
#[verifier::external_body]
pub(crate) fn string_insert_str(text: &mut String, idx: usize, s: &str)
    requires
        idx <= utf8_len(old(text)@),
        is_char_boundary(encode_utf8(old(text)@), idx as int),
    ensures
        encode_utf8(final(text)@) == encode_utf8(old(text)@).take(idx as int) + encode_utf8(s@)
            + encode_utf8(old(text)@).skip(idx as int),
{
    text.insert_str(idx, s)
}

/// `String::replace_range` over the byte range `start..end`, both ends character
/// boundaries and `start <= end` (it panics otherwise): the bytes of that range are
/// replaced by the bytes of `s`.
#[verifier::external_body]
pub(crate) fn string_replace_range(text: &mut String, start: usize, end: usize, s: &str)
    requires
        start <= end <= utf8_len(old(text)@),
        is_char_boundary(encode_utf8(old(text)@), start as int),
        is_char_boundary(encode_utf8(old(text)@), end as int),
    ensures
        encode_utf8(final(text)@) == encode_utf8(old(text)@).take(start as int) + encode_utf8(s@)
            + encode_utf8(old(text)@).skip(end as int),
{
    text.replace_range(start..end, s)
}

/// Inserts `s` into `text` before its character `ci`, whose byte position is `bi`.
pub(crate) fn insert_at(text: &mut String, ci: usize, bi: usize, s: &str)
    requires
        ci <= old(text)@.len(),
        bi == utf8_len(old(text)@.take(ci as int)),
    ensures
        final(text)@ == old(text)@.take(ci as int) + s@ + old(text)@.skip(ci as int),
{
    let ghost t = text@;
    proof {
        lemma_split_encoding(t, ci as int);
    }
    string_insert_str(text, bi, s);
    proof {
        lemma_encode_concat(t.take(ci as int), s@);
        lemma_encode_concat(t.take(ci as int) + s@, t.skip(ci as int));
        lemma_encode_injective(text@, t.take(ci as int) + s@ + t.skip(ci as int));
    }
}

/// Replaces the characters `cs..ce` of `text`, whose byte positions are `bs` and `be`,
/// by `s`.
pub(crate) fn replace_at(text: &mut String, cs: usize, ce: usize, bs: usize, be: usize, s: &str)
    requires
        cs <= ce <= old(text)@.len(),
        bs == utf8_len(old(text)@.take(cs as int)),
        be == utf8_len(old(text)@.take(ce as int)),
    ensures
        final(text)@ == old(text)@.take(cs as int) + s@ + old(text)@.skip(ce as int),
{
    let ghost t = text@;
    proof {
        lemma_split_encoding(t, cs as int);
        lemma_split_encoding(t, ce as int);
        assert(t.take(ce as int) =~= t.take(cs as int) + t.subrange(cs as int, ce as int));
        lemma_encode_concat(t.take(cs as int), t.subrange(cs as int, ce as int));
    }
    string_replace_range(text, bs, be, s);
    proof {
        lemma_encode_concat(t.take(cs as int), s@);
        lemma_encode_concat(t.take(cs as int) + s@, t.skip(ce as int));
        lemma_encode_injective(text@, t.take(cs as int) + s@ + t.skip(ce as int));
    }
}

/// `s` with every occurrence of the character `from` replaced by `to`.
pub open spec fn spec_replace_char(s: Seq<char>, from: char, to: Seq<char>) -> Seq<char>
    decreases s.len(),
{
    if s.len() == 0 {
        Seq::empty()
    } else {
        spec_replace_char(s.drop_last(), from, to) + if s.last() == from {
            to
        } else {
            seq![s.last()]
        }
    }
}

/// Replaces every occurrence of the character `from` in `s` by `to` (`str::replace` with
/// a character pattern).
pub fn replace_char(s: &str, from: char, to: &str) -> (res: String)
    ensures
        res@ == spec_replace_char(s@, from, to@),
{
    let cs = chars_of(s);
    let ts = chars_of(to);
    let mut out: Vec<char> = Vec::new();
    let mut i: usize = 0;
    assert(s@.take(0) =~= Seq::<char>::empty());
    while i < cs.len()
        invariant
            cs@ == s@,
            ts@ == to@,
            i <= cs.len(),
            out@ == spec_replace_char(s@.take(i as int), from, to@),
        decreases cs.len() - i,
    {
        assert(s@.take(i + 1).drop_last() =~= s@.take(i as int));
        if cs[i] == from {
            let mut j: usize = 0;
            let ghost base = out@;
            while j < ts.len()
                invariant
                    ts@ == to@,
                    j <= ts.len(),
                    out@ == base + to@.take(j as int),
                decreases ts.len() - j,
            {
                out.push(ts[j]);
                j += 1;
                assert(out@ =~= base + to@.take(j as int));
            }
            assert(to@.take(ts.len() as int) =~= to@);
        } else {
            out.push(cs[i]);
        }
        i += 1;
    }
    assert(s@.take(cs.len() as int) =~= s@);
    string_from_chars(out.as_slice())
}

/// The decimal digit character for `d` (0 to 9).
pub open spec fn digit_char(d: int) -> char {
    ((d + 48) as u8) as char
}

/// The decimal representation of `n`, without leading zeros.
pub open spec fn decimal(n: nat) -> Seq<char>
    decreases n,
{
    if n < 10 {
        seq![digit_char(n as int)]
    } else {
        decimal(n / 10) + seq![digit_char((n % 10) as int)]
    }
}

/// Appends the decimal representation of `n` to `out`.
pub fn push_decimal(n: usize, out: &mut Vec<char>)
    ensures
        final(out)@ == old(out)@ + decimal(n as nat),
    decreases n,
{
    if n >= 10 {
        push_decimal(n / 10, out);
    }
    let d: u8 = (n % 10) as u8;
    out.push((d + 48u8) as char);
    proof {
        assert(old(out)@ + decimal(n as nat) =~= out@) by {
            if n < 10 {
                assert(old(out)@.push(digit_char(n as int)) =~= old(out)@ + decimal(n as nat));
            }
        }
    }
}

/// Number of whitespace characters that begin `s`.
pub open spec fn leading_ws_len(s: Seq<char>) -> nat
    decreases s.len(),
{
    if s.len() > 0 && spec_is_whitespace(s[0]) {
        1 + leading_ws_len(s.drop_first())
    } else {
        0
    }
}

/// Number of whitespace characters that end `s`.
pub open spec fn trailing_ws_len(s: Seq<char>) -> nat
    decreases s.len(),
{
    if s.len() > 0 && spec_is_whitespace(s.last()) {
        1 + trailing_ws_len(s.drop_last())
    } else {
        0
    }
}

/// `s` without its leading and trailing whitespace.
pub open spec fn spec_trim(s: Seq<char>) -> Seq<char> {
    let t = s.skip(leading_ws_len(s) as int);
    t.take(t.len() - trailing_ws_len(t))
}

/// `s` without its leading and trailing whitespace (`str::trim`).
pub fn trim(s: &str) -> (res: String)
    ensures
        res@ == spec_trim(s@),
{
    let cs = chars_of(s);
    let mut i: usize = 0;
    assert(s@.skip(0) =~= s@);
    while i < cs.len() && char_is_whitespace(cs[i])
        invariant
            cs@ == s@,
            i <= cs.len(),
            leading_ws_len(s@) == i + leading_ws_len(s@.skip(i as int)),
        decreases cs.len() - i,
    {
        assert(s@.skip(i as int).drop_first() =~= s@.skip(i + 1));
        i += 1;
    }
    let ghost t = s@.skip(i as int);
    let mut j: usize = cs.len();
    assert(t.take(t.len() as int) =~= t);
    while j > i && char_is_whitespace(cs[j - 1])
        invariant
            cs@ == s@,
            i <= j <= cs.len(),
            t == s@.skip(i as int),
            trailing_ws_len(t) == (cs.len() - j) + trailing_ws_len(t.take(j - i)),
        decreases j,
    {
        assert(t.take(j - i).drop_last() =~= t.take(j - 1 - i));
        j -= 1;
    }
    let (_, tail) = cs.as_slice().split_at(i);
    let (mid, _) = tail.split_at(j - i);
    assert(mid@ =~= t.take(t.len() - trailing_ws_len(t)));
    string_from_chars(mid)
}

/// Whether `s` holds the character `c`.
pub fn contains_char(s: &str, c: char) -> (res: bool)
    ensures
        res == s@.contains(c),
{
    let cs = chars_of(s);
    let mut i: usize = 0;
    while i < cs.len()
        invariant
            cs@ == s@,
            i <= cs.len(),
            forall|k: int| 0 <= k < i ==> s@[k] != c,
        decreases cs.len() - i,
    {
        if cs[i] == c {
            return true;
        }
        i += 1;
    }
    false
}

/// Whether `s` ends with the character `c`.
pub fn ends_with_char(s: &str, c: char) -> (res: bool)
    ensures
        res == (s@.len() > 0 && s@.last() == c),
{
    let cs = chars_of(s);
    cs.len() > 0 && cs[cs.len() - 1] == c
}

/// The concatenation of two strings.
pub fn concat2(a: &str, b: &str) -> (res: String)
    ensures
        res@ == a@ + b@,
{
    let mut r = a.to_owned();
    r.append(b);
    r
}

/// The concatenation of three strings.
pub fn concat3(a: &str, b: &str, c: &str) -> (res: String)
    ensures
        res@ == a@ + b@ + c@,
{
    let mut r = a.to_owned();
    r.append(b);
    r.append(c);
    r
}

/// The concatenation of four strings.
pub fn concat4(a: &str, b: &str, c: &str, d: &str) -> (res: String)
    ensures
        res@ == a@ + b@ + c@ + d@,
{
    let mut r = a.to_owned();
    r.append(b);
    r.append(c);
    r.append(d);
    r
}

/// The decimal representation of a signed number, with a leading `-` when negative.
pub open spec fn signed_decimal(v: int) -> Seq<char> {
    if v < 0 {
        seq!['-'] + decimal((-v) as nat)
    } else {
        decimal(v as nat)
    }
}

/// The decimal representation of `v`.
pub fn i32_to_string(v: i32) -> (res: String)
    ensures
        res@ == signed_decimal(v as int),
{
    let mut out: Vec<char> = Vec::new();
    if v < 0 {
        out.push('-');
        let m: i64 = -(v as i64);
        push_decimal(m as usize, &mut out);
    } else {
        push_decimal(v as usize, &mut out);
    }
    assert(out@ =~= signed_decimal(v as int));
    string_from_chars(out.as_slice())
}

} // verus!
