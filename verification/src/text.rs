//! Text helpers: white space, affixes, substring search, ASCII case and the
//! splitting of raw bytes into lines.

use vstd::prelude::*;
use vstd::slice::slice_subrange;
use vstd::string::StrSliceExecFns;
use vstd::utf8::{decode_utf8, encode_utf8, encode_utf8_decode_utf8, valid_utf8};

verus! {

/// The characters with the Unicode property `White_Space`.
pub open spec fn is_white_space(c: char) -> bool {
    ||| '\u{9}' <= c <= '\u{d}'
    ||| c == '\u{20}'
    ||| c == '\u{85}'
    ||| c == '\u{a0}'
    ||| c == '\u{1680}'
    ||| '\u{2000}' <= c <= '\u{200a}'
    ||| '\u{2028}' <= c <= '\u{2029}'
    ||| c == '\u{202f}'
    ||| c == '\u{205f}'
    ||| c == '\u{3000}'
}

/// The text without its leading white space.
pub open spec fn trim_start(s: Seq<char>) -> Seq<char>
    decreases s.len(),
{
    if s.len() > 0 && is_white_space(s[0]) {
        trim_start(s.drop_first())
    } else {
        s
    }
}

/// The text without its trailing white space.
pub open spec fn trim_end(s: Seq<char>) -> Seq<char>
    decreases s.len(),
{
    if s.len() > 0 && is_white_space(s.last()) {
        trim_end(s.drop_last())
    } else {
        s
    }
}

/// The text without the white space at either end.
pub open spec fn trim(s: Seq<char>) -> Seq<char> {
    trim_end(trim_start(s))
}

/// The number of bytes that the leading white space takes up in UTF-8.
pub open spec fn indent_width(s: Seq<char>) -> nat {
    encode_utf8(s.take(s.len() - trim_start(s).len())).len()
}

/// The blocks beyond ASCII that hold punctuation, symbols or characters of private use and
/// no letters: quotation marks, arrows, mathematical operators, box drawing, CJK and
/// full-width punctuation, emoji and the like.
pub open spec fn is_symbol(c: char) -> bool {
    ||| '\u{80}' <= c <= '\u{a9}'
    ||| '\u{ab}' <= c <= '\u{b4}'
    ||| '\u{b6}' <= c <= '\u{b9}'
    ||| '\u{bb}' <= c <= '\u{bf}'
    ||| c == '\u{d7}'
    ||| c == '\u{f7}'
    ||| '\u{2000}' <= c <= '\u{200b}'
    ||| '\u{200e}' <= c <= '\u{203e}'
    ||| '\u{2041}' <= c <= '\u{2053}'
    ||| '\u{2055}' <= c <= '\u{2070}'
    ||| '\u{2072}' <= c <= '\u{207e}'
    ||| '\u{2080}' <= c <= '\u{208f}'
    ||| '\u{20a0}' <= c <= '\u{20cf}'
    ||| '\u{2190}' <= c <= '\u{24b5}'
    ||| '\u{24ea}' <= c <= '\u{2bff}'
    ||| '\u{2e00}' <= c <= '\u{2e2e}'
    ||| '\u{2e30}' <= c <= '\u{3004}'
    ||| '\u{3008}' <= c <= '\u{3020}'
    ||| c == '\u{3030}'
    ||| '\u{3036}' <= c <= '\u{3037}'
    ||| '\u{303d}' <= c <= '\u{3040}'
    ||| c == '\u{30a0}'
    ||| c == '\u{30fb}'
    ||| '\u{3200}' <= c <= '\u{33ff}'
    ||| '\u{e000}' <= c <= '\u{f8ff}'
    ||| '\u{fe10}' <= c <= '\u{fe1f}'
    ||| '\u{fe30}' <= c <= '\u{fe32}'
    ||| '\u{fe35}' <= c <= '\u{fe4c}'
    ||| '\u{fe50}' <= c <= '\u{fe6f}'
    ||| '\u{ff00}' <= c <= '\u{ff0f}'
    ||| '\u{ff1a}' <= c <= '\u{ff20}'
    ||| '\u{ff3b}' <= c <= '\u{ff3e}'
    ||| c == '\u{ff40}'
    ||| '\u{ff5b}' <= c <= '\u{ff65}'
    ||| '\u{ffe0}' <= c <= '\u{ffff}'
    ||| '\u{1f000}' <= c <= '\u{1f12f}'
    ||| '\u{1f18a}' <= c <= '\u{1fbef}'
}

/// The characters of an identifier: letters, digits, `_` and `$`. Beyond ASCII, every
/// character but white space and symbols counts as a letter.
pub open spec fn is_identifier_char(c: char) -> bool {
    ||| 'a' <= c <= 'z'
    ||| 'A' <= c <= 'Z'
    ||| '0' <= c <= '9'
    ||| c == '_'
    ||| c == '$'
    ||| c >= '\u{80}' && !is_white_space(c) && !is_symbol(c)
}

/// Whether `needle` occurs in `s` as a contiguous piece.
pub open spec fn contains_text(s: Seq<char>, needle: Seq<char>) -> bool {
    exists|i: int| occurs_at(s, i, needle)
}

/// Whether `needle` occurs in `s` at position `i`.
pub open spec fn occurs_at(s: Seq<char>, i: int, needle: Seq<char>) -> bool {
    &&& 0 <= i
    &&& i + needle.len() <= s.len()
    &&& s.subrange(i, i + needle.len()) == needle
}

/// How often `c` occurs in `s`.
pub open spec fn count_char(s: Seq<char>, c: char) -> nat
    decreases s.len(),
{
    if s.len() == 0 {
        0
    } else {
        count_char(s.drop_last(), c) + if s.last() == c {
            1nat
        } else {
            0nat
        }
    }
}

/// The lower-case form of an ASCII capital; every other character is kept.
pub open spec fn lower_char(c: char) -> char {
    if 'A' <= c <= 'Z' {
        ((c as u32) + 32) as char
    } else {
        c
    }
}

/// The text with its ASCII capitals lowered.
pub open spec fn lower(s: Seq<char>) -> Seq<char> {
    s.map_values(|c: char| lower_char(c))
}

/// The position of the last `.`, or -1 where there is none.
pub open spec fn last_dot(s: Seq<char>) -> int
    decreases s.len(),
{
    if s.len() == 0 {
        -1
    } else if s.last() == '.' {
        s.len() - 1
    } else {
        last_dot(s.drop_last())
    }
}

/// The position of the first line feed, or the length where there is none.
pub open spec fn line_end(b: Seq<u8>) -> int
    decreases b.len(),
{
    if b.len() == 0 || b[0] == 10 {
        0
    } else {
        1 + line_end(b.drop_first())
    }
}

/// The bytes without one trailing carriage return.
pub open spec fn strip_cr(b: Seq<u8>) -> Seq<u8> {
    if b.len() > 0 && b.last() == 13 {
        b.drop_last()
    } else {
        b
    }
}

/// The lines of a file. A line ends with `\n` or `\r\n`, which is not part of it;
/// bytes behind the last line feed are a line of their own, kept as they are.
pub open spec fn split_lines(b: Seq<u8>) -> Seq<Seq<u8>>
    decreases b.len(),
{
    let end = line_end(b);
    if b.len() == 0 {
        Seq::empty()
    } else if end < 0 || end >= b.len() {
        seq![b]
    } else {
        seq![strip_cr(b.take(end))] + split_lines(b.skip(end + 1))
    }
}

/// The lines of a file as text: `None` where one of them is not UTF-8.
pub open spec fn text_lines(b: Seq<u8>) -> Option<Seq<Seq<char>>> {
    let lines = split_lines(b);
    if forall|i: int| 0 <= i < lines.len() ==> valid_utf8(#[trigger] lines[i]) {
        Some(lines.map_values(|l: Seq<u8>| decode_utf8(l)))
    } else {
        None
    }
}

/// The texts behind a list of string slices.
pub open spec fn texts(v: Seq<&str>) -> Seq<Seq<char>> {
    v.map_values(|s: &str| s@)
}

/// Tells whether a character is white space.
pub fn white_space(c: char) -> (r: bool)
    ensures
        r == is_white_space(c),
{
    ('\u{9}' <= c && c <= '\u{d}') || c == '\u{20}' || c == '\u{85}' || c == '\u{a0}' || c
        == '\u{1680}' || ('\u{2000}' <= c && c <= '\u{200a}') || ('\u{2028}' <= c && c
        <= '\u{2029}') || c == '\u{202f}' || c == '\u{205f}' || c == '\u{3000}'
}

fn symbol(c: char) -> (r: bool)
    ensures
        r == is_symbol(c),
{
    ('\u{80}' <= c && c <= '\u{a9}') || ('\u{ab}' <= c && c <= '\u{b4}')
        || ('\u{b6}' <= c && c <= '\u{b9}') || ('\u{bb}' <= c && c <= '\u{bf}') || c == '\u{d7}'
        || c == '\u{f7}' || ('\u{2000}' <= c && c <= '\u{200b}')
        || ('\u{200e}' <= c && c <= '\u{203e}') || ('\u{2041}' <= c && c <= '\u{2053}')
        || ('\u{2055}' <= c && c <= '\u{2070}') || ('\u{2072}' <= c && c <= '\u{207e}')
        || ('\u{2080}' <= c && c <= '\u{208f}') || ('\u{20a0}' <= c && c <= '\u{20cf}')
        || ('\u{2190}' <= c && c <= '\u{24b5}') || ('\u{24ea}' <= c && c <= '\u{2bff}')
        || ('\u{2e00}' <= c && c <= '\u{2e2e}') || ('\u{2e30}' <= c && c <= '\u{3004}')
        || ('\u{3008}' <= c && c <= '\u{3020}') || c == '\u{3030}'
        || ('\u{3036}' <= c && c <= '\u{3037}') || ('\u{303d}' <= c && c <= '\u{3040}')
        || c == '\u{30a0}' || c == '\u{30fb}' || ('\u{3200}' <= c && c <= '\u{33ff}')
        || ('\u{e000}' <= c && c <= '\u{f8ff}') || ('\u{fe10}' <= c && c <= '\u{fe1f}')
        || ('\u{fe30}' <= c && c <= '\u{fe32}') || ('\u{fe35}' <= c && c <= '\u{fe4c}')
        || ('\u{fe50}' <= c && c <= '\u{fe6f}') || ('\u{ff00}' <= c && c <= '\u{ff0f}')
        || ('\u{ff1a}' <= c && c <= '\u{ff20}') || ('\u{ff3b}' <= c && c <= '\u{ff3e}')
        || c == '\u{ff40}' || ('\u{ff5b}' <= c && c <= '\u{ff65}')
        || ('\u{ffe0}' <= c && c <= '\u{ffff}') || ('\u{1f000}' <= c && c <= '\u{1f12f}')
        || ('\u{1f18a}' <= c && c <= '\u{1fbef}')
}

/// Tells whether a character can stand in an identifier.
pub fn identifier_char(c: char) -> (r: bool)
    ensures
        r == is_identifier_char(c),
{
    ('a' <= c && c <= 'z') || ('A' <= c && c <= 'Z') || ('0' <= c && c <= '9') || c == '_' || c
        == '$' || (c >= '\u{80}' && !white_space(c) && !symbol(c))
}

/// The characters of a string.
pub fn chars_of(s: &str) -> (v: Vec<char>)
    ensures
        v@ == s@,
{
    let mut v: Vec<char> = Vec::new();
    for c in it: s.chars()
        invariant
            v@ == it.seq().take(it.index()),
            it.seq() == s@,
    {
        v.push(c);
    }
    v
}

/// Tells whether two strings hold the same text.
pub fn same_text(a: &str, b: &str) -> (r: bool)
    ensures
        r == (a@ == b@),
{
    let x = a.as_bytes();
    let y = b.as_bytes();
    proof {
        encode_utf8_decode_utf8(a@);
        encode_utf8_decode_utf8(b@);
    }
    if x.len() != y.len() {
        return false;
    }
    let mut i: usize = 0;
    while i < x.len()
        invariant
            i <= x@.len(),
            x@.len() == y@.len(),
            x@ == encode_utf8(a@),
            y@ == encode_utf8(b@),
            forall|j: int| 0 <= j < i ==> x@[j] == y@[j],
        decreases x@.len() - i,
    {
        if x[i] != y[i] {
            return false;
        }
        i += 1;
    }
    assert(x@ == y@);
    true
}

/// Tells whether a list of characters spells the given string.
pub fn spells(s: &Vec<char>, word: &str) -> (r: bool)
    ensures
        r == (s@ == word@),
{
    let w = chars_of(word);
    if w.len() != s.len() {
        return false;
    }
    let r = matches_at(s, 0, &w);
    assert(s@.subrange(0, s@.len() as int) == s@);
    r
}

/// Tells whether `needle` stands in `s` at position `at`.
pub fn matches_at(s: &Vec<char>, at: usize, needle: &Vec<char>) -> (r: bool)
    requires
        at <= s@.len(),
    ensures
        r == occurs_at(s@, at as int, needle@),
{
    let len = s.len();
    if len - at < needle.len() {
        return false;
    }
    let mut i: usize = 0;
    while i < needle.len()
        invariant
            i <= needle@.len(),
            at + needle@.len() <= len,
            len == s@.len(),
            forall|j: int| 0 <= j < i ==> s@[at + j] == needle@[j],
        decreases needle@.len() - i,
    {
        if s[at + i] != needle[i] {
            assert(s@.subrange(at as int, at + needle@.len())[i as int] != needle@[i as int]);
            return false;
        }
        i += 1;
    }
    assert(s@.subrange(at as int, at + needle@.len()) == needle@);
    true
}

/// Tells whether `s` begins with `prefix`.
pub fn starts_with(s: &Vec<char>, prefix: &str) -> (r: bool)
    ensures
        r == prefix@.is_prefix_of(s@),
{
    let p = chars_of(prefix);
    matches_at(s, 0, &p)
}

/// Tells whether `s` ends with `suffix`.
pub fn ends_with(s: &Vec<char>, suffix: &str) -> (r: bool)
    ensures
        r == suffix@.is_suffix_of(s@),
{
    let p = chars_of(suffix);
    if s.len() < p.len() {
        return false;
    }
    matches_at(s, s.len() - p.len(), &p)
}

/// Counts the occurrences of `c` in `s`.
pub fn count_of(s: &Vec<char>, c: char) -> (n: usize)
    ensures
        n == count_char(s@, c),
        n <= s@.len(),
{
    let mut n: usize = 0;
    let mut i: usize = 0;
    while i < s.len()
        invariant
            i <= s@.len(),
            n == count_char(s@.take(i as int), c),
            n <= i,
        decreases s@.len() - i,
    {
        assert(s@.take(i + 1).drop_last() == s@.take(i as int));
        if s[i] == c {
            n += 1;
        }
        i += 1;
    }
    assert(s@.take(i as int) == s@);
    n
}

/// The text with its ASCII capitals lowered.
pub fn to_lower(s: &Vec<char>) -> (r: Vec<char>)
    ensures
        r@ == lower(s@),
{
    let mut r: Vec<char> = Vec::new();
    let mut i: usize = 0;
    while i < s.len()
        invariant
            i <= s@.len(),
            r@ == lower(s@).take(i as int),
        decreases s@.len() - i,
    {
        let c = s[i];
        let l = if 'A' <= c && c <= 'Z' {
            ((c as u8) + 32) as char
        } else {
            c
        };
        r.push(l);
        i += 1;
    }
    assert(lower(s@).take(i as int) == lower(s@));
    r
}

/// Where the text between the white space at either end begins and ends.
pub fn trim_bounds(s: &Vec<char>) -> (r: (usize, usize))
    ensures
        r.0 <= r.1 <= s@.len(),
        s@.skip(r.0 as int) == trim_start(s@),
        s@.subrange(r.0 as int, r.1 as int) == trim(s@),
{
    let mut a: usize = 0;
    assert(s@.skip(0) == s@);
    while a < s.len() && white_space(s[a])
        invariant
            a <= s@.len(),
            trim_start(s@.skip(a as int)) == trim_start(s@),
        decreases s@.len() - a,
    {
        assert(s@.skip(a as int).drop_first() == s@.skip(a + 1));
        a += 1;
    }
    let mut b: usize = s.len();
    assert(s@.subrange(a as int, b as int) == s@.skip(a as int));
    while b > a && white_space(s[b - 1])
        invariant
            a <= b <= s@.len(),
            trim_end(s@.subrange(a as int, b as int)) == trim(s@),
        decreases b,
    {
        assert(s@.subrange(a as int, b as int).drop_last() == s@.subrange(a as int, b - 1));
        b -= 1;
    }
    (a, b)
}

/// The characters of `s` without the white space at either end.
pub fn trimmed(s: &Vec<char>) -> (r: Vec<char>)
    ensures
        r@ == trim(s@),
{
    let (a, b) = trim_bounds(s);
    let mut r: Vec<char> = Vec::new();
    let mut i: usize = a;
    while i < b
        invariant
            a <= i <= b <= s@.len(),
            r@ == s@.subrange(a as int, i as int),
        decreases b - i,
    {
        r.push(s[i]);
        i += 1;
    }
    r
}

/// The number of bytes that the leading white space of `line` takes up.
pub fn indent_of(line: &str) -> (n: usize)
    ensures
        n == indent_width(line@),
{
    let c = chars_of(line);
    let (a, _) = trim_bounds(&c);
    assert(line@.len() - trim_start(line@).len() == a);
    let blank = line.substring_char(0, a);
    assert(blank@ == line@.take(a as int));
    blank.as_bytes().len()
}

/// The position of the last `.`, where there is one.
pub fn find_last_dot(s: &Vec<char>) -> (r: Option<usize>)
    ensures
        match r {
            Some(i) => i < s@.len() && last_dot(s@) == i,
            None => last_dot(s@) == -1,
        },
{
    let mut n: usize = s.len();
    assert(s@.take(n as int) == s@);
    while n > 0
        invariant
            n <= s@.len(),
            last_dot(s@.take(n as int)) == last_dot(s@),
        decreases n,
    {
        if s[n - 1] == '.' {
            return Some(n - 1);
        }
        assert(s@.take(n as int).drop_last() == s@.take(n - 1));
        n -= 1;
    }
    None
}

/// `core::str::from_utf8`: the string that the bytes encode, exactly where they
/// are well-formed UTF-8.
#[verifier::external_body]
fn utf8_text(bytes: &[u8]) -> (r: Option<&str>)
    ensures
        match r {
            Some(s) => valid_utf8(bytes@) && s@ == decode_utf8(bytes@),
            None => !valid_utf8(bytes@),
        },
{
    core::str::from_utf8(bytes).ok()
}

proof fn lemma_line_end_bounds(b: Seq<u8>)
    ensures
        0 <= line_end(b) <= b.len(),
        line_end(b) < b.len() ==> b[line_end(b)] == 10,
        forall|i: int| 0 <= i < line_end(b) ==> b[i] != 10,
    decreases b.len(),
{
    if b.len() > 0 && b[0] != 10 {
        lemma_line_end_bounds(b.drop_first());
        assert forall|i: int| 0 <= i < line_end(b) implies b[i] != 10 by {
            if i > 0 {
                assert(b.drop_first()[i - 1] == b[i]);
            }
        }
    }
}

proof fn lemma_line_end_is(b: Seq<u8>, k: int)
    requires
        0 <= k <= b.len(),
        k < b.len() ==> b[k] == 10,
        forall|i: int| 0 <= i < k ==> b[i] != 10,
    ensures
        line_end(b) == k,
{
    lemma_line_end_bounds(b);
    if line_end(b) < k {
        assert(b[line_end(b)] != 10);
    } else if k < line_end(b) {
        assert(b[k] != 10);
    }
}

/// Splits the bytes of a file into lines of text.
pub fn decode_lines(content: &[u8]) -> (r: Option<Vec<&str>>)
    ensures
        match r {
            Some(v) => text_lines(content@) == Some(texts(v@)),
            None => text_lines(content@) is None,
        },
{
    let ghost all = split_lines(content@);
    let mut out: Vec<&str> = Vec::new();
    let mut start: usize = 0;
    assert(content@.skip(0) == content@);
    assert(all == Seq::<Seq<u8>>::empty() + split_lines(content@.skip(0)));
    while start < content.len()
        invariant
            start <= content@.len(),
            all == split_lines(content@),
            out@.len() <= all.len(),
            all == all.take(out@.len() as int) + split_lines(content@.skip(start as int)),
            forall|i: int|
                #![trigger all[i]]
                0 <= i < out@.len() ==> valid_utf8(all[i]) && out@[i]@ == decode_utf8(all[i]),
        decreases content@.len() - start,
    {
        let ghost rest = content@.skip(start as int);
        let mut end: usize = start;
        while end < content.len() && content[end] != 10
            invariant
                start <= end <= content@.len(),
                forall|i: int| start <= i < end ==> content@[i] != 10,
            decreases content@.len() - end,
        {
            end += 1;
        }
        let ghost k = end - start;
        proof {
            assert forall|i: int| 0 <= i < k implies rest[i] != 10 by {
                assert(rest[i] == content@[start + i]);
            }
            lemma_line_end_is(rest, k);
        }
        let closed = end < content.len();
        let stop: usize = if closed && end > start && content[end - 1] == 13 {
            end - 1
        } else {
            end
        };
        let piece = slice_subrange(content, start, stop);
        let ghost n = out@.len() as int;
        proof {
            if closed {
                assert(rest.take(k) == content@.subrange(start as int, end as int));
                assert(piece@ == strip_cr(rest.take(k)));
                assert(rest.skip(k + 1) == content@.skip(end + 1));
                assert(split_lines(rest) == seq![piece@] + split_lines(content@.skip(end + 1)));
            } else {
                assert(piece@ == rest);
                assert(split_lines(rest) == seq![piece@]);
                assert(content@.skip(end as int) == Seq::<u8>::empty());
                assert(split_lines(rest) == seq![piece@] + split_lines(content@.skip(end as int)));
            }
            assert(all[n] == split_lines(rest)[0]);
            assert(all[n] == piece@);
        }
        match utf8_text(piece) {
            Some(s) => {
                out.push(s);
            },
            None => {
                assert(!valid_utf8(all[n]));
                return None;
            },
        }
        start = if closed {
            end + 1
        } else {
            end
        };
        assert(all.take(n + 1) == all.take(n).push(piece@));
        assert(all == all.take(n + 1) + split_lines(content@.skip(start as int)));
    }
    proof {
        assert(content@.skip(start as int) == Seq::<u8>::empty());
        assert(out@.len() == all.len());
        assert(texts(out@) == all.map_values(|l: Seq<u8>| decode_utf8(l)));
    }
    Some(out)
}

} // verus!
