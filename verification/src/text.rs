//! Text helpers over character sequences.
//!
//! A string is seen through its sequence of characters. Positions are character
//! positions unless a name says otherwise; byte lengths are those of the UTF-8
//! encoding.

use vstd::prelude::*;
use vstd::utf8::{encode_utf8, is_ascii_chars};

verus! {

/// `String::push` appends one character.
pub assume_specification[ String::push ](s: &mut String, c: char)
    ensures
        final(s)@ == old(s)@.push(c),
;

/// The result of Unicode lowercasing, as `str::to_lowercase` computes it.
pub uninterp spec fn unicode_lowercase(s: Seq<char>) -> Seq<char>;

/// `str::to_lowercase`: the result is a function of the text, and on ASCII text
/// it lowercases letter by letter.
#[verifier::external_body]
pub(crate) fn to_lowercase(s: &str) -> (res: String)
    ensures
        res@ == unicode_lowercase(s@),
        is_ascii_chars(s@) ==> res@ == ascii_lowercase(s@),
{
    s.to_lowercase()
}

// ---------------------------------------------------------------------------
// Characters
// ---------------------------------------------------------------------------

/// Characters with the Unicode `White_Space` property.
pub open spec fn is_whitespace(c: char) -> bool {
    ||| '\u{9}' <= c <= '\u{d}'
    ||| c == ' '
    ||| c == '\u{85}'
    ||| c == '\u{a0}'
    ||| c == '\u{1680}'
    ||| '\u{2000}' <= c <= '\u{200a}'
    ||| c == '\u{2028}'
    ||| c == '\u{2029}'
    ||| c == '\u{202f}'
    ||| c == '\u{205f}'
    ||| c == '\u{3000}'
}

/// Whether a character has the `White_Space` property.
pub fn char_is_whitespace(c: char) -> (res: bool)
    ensures
        res == is_whitespace(c),
{
    ('\u{9}' <= c && c <= '\u{d}') || c == ' ' || c == '\u{85}' || c == '\u{a0}' || c == '\u{1680}'
        || ('\u{2000}' <= c && c <= '\u{200a}') || c == '\u{2028}' || c == '\u{2029}' || c
        == '\u{202f}' || c == '\u{205f}' || c == '\u{3000}'
}

/// Control characters (the Unicode general category `Cc`).
pub open spec fn is_control(c: char) -> bool {
    c <= '\u{1f}' || '\u{7f}' <= c <= '\u{9f}'
}

/// Whether a character is a control character.
pub fn char_is_control(c: char) -> (res: bool)
    ensures
        res == is_control(c),
{
    c <= '\u{1f}' || ('\u{7f}' <= c && c <= '\u{9f}')
}

/// The ASCII lowercase form of a character; other characters are kept.
pub open spec fn ascii_lower(c: char) -> char {
    if 'A' <= c <= 'Z' {
        ((c as u32) + 32) as char
    } else {
        c
    }
}

/// `text` with every ASCII letter lowercased.
pub open spec fn ascii_lowercase(s: Seq<char>) -> Seq<char> {
    s.map_values(|c: char| ascii_lower(c))
}

fn char_ascii_lower(c: char) -> (res: char)
    ensures
        res == ascii_lower(c),
{
    if 'A' <= c && c <= 'Z' {
        ((c as u8) + 32) as char
    } else {
        c
    }
}

/// Lowercases the ASCII letters of a text.
pub fn to_ascii_lowercase(s: &str) -> (res: String)
    ensures
        res@ == ascii_lowercase(s@),
{
    let chars = to_chars(s);
    let mut out = String::new();
    let mut i: usize = 0;
    while i < chars.len()
        invariant
            i <= chars@.len(),
            chars@ == s@,
            out@ == ascii_lowercase(s@.take(i as int)),
        decreases chars@.len() - i,
    {
        out.push(char_ascii_lower(chars[i]));
        proof {
            assert(ascii_lowercase(s@.take(i + 1)) =~= ascii_lowercase(s@.take(i as int)).push(
                ascii_lower(s@[i as int]),
            ));
        }
        i += 1;
    }
    proof { assert(s@.take(s@.len() as int) =~= s@); }
    out
}

// ---------------------------------------------------------------------------
// Strings and their characters
// ---------------------------------------------------------------------------

/// The characters of a string, in order.
pub fn to_chars(s: &str) -> (res: Vec<char>)
    ensures
        res@ == s@,
{
    let mut out: Vec<char> = Vec::new();
    for c in it: s.chars()
        invariant
            it.seq() == s@,
            out@ == s@.take(it.index()),
    {
        out.push(c);
    }
    proof { assert(s@.take(s@.len() as int) =~= s@); }
    out
}

/// The string made of `chars[from..to]`.
pub fn from_chars(chars: &Vec<char>, from: usize, to: usize) -> (res: String)
    requires
        from <= to <= chars@.len(),
    ensures
        res@ == chars@.subrange(from as int, to as int),
{
    let mut out = String::new();
    let mut i: usize = from;
    while i < to
        invariant
            from <= i <= to <= chars@.len(),
            out@ == chars@.subrange(from as int, i as int),
        decreases to - i,
    {
        out.push(chars[i]);
        i += 1;
        proof {
            assert(chars@.subrange(from as int, i as int) =~= chars@.subrange(
                from as int,
                i - 1,
            ).push(chars@[i - 1]));
        }
    }
    out
}

/// `s` with the characters from `from` to `to` replaced by `text`.
pub open spec fn spliced(s: Seq<char>, from: int, to: int, text: Seq<char>) -> Seq<char> {
    s.take(from) + text + s.skip(to)
}

/// Replaces the characters from `from` to `to` by `text`.
pub fn splice(s: &str, from: usize, to: usize, text: &str) -> (res: String)
    requires
        from <= to <= s@.len(),
    ensures
        res@ == spliced(s@, from as int, to as int, text@),
{
    let total = s.unicode_len();
    let mut out = s.substring_char(0, from).to_owned();
    out.append(text);
    out.append(s.substring_char(to, total));
    proof {
        assert(s@.subrange(0, from as int) =~= s@.take(from as int));
        assert(s@.subrange(to as int, total as int) =~= s@.skip(to as int));
    }
    out
}

/// Number of characters of a string.
pub fn char_count(s: &str) -> (res: usize)
    ensures
        res == s@.len(),
{
    s.unicode_len()
}

/// Byte length of the UTF-8 encoding of `s`.
pub open spec fn byte_len(s: Seq<char>) -> nat {
    encode_utf8(s).len()
}

/// Byte length of a string.
pub fn str_byte_len(s: &str) -> (res: usize)
    ensures
        res == byte_len(s@),
{
    s.as_bytes().len()
}

/// The first `n` characters of `s`, or all of it when it is shorter.
pub open spec fn first_chars(s: Seq<char>, n: int) -> Seq<char> {
    if n <= 0 {
        Seq::empty()
    } else if s.len() <= n {
        s
    } else {
        s.take(n)
    }
}

/// The last `n` characters of `s`, or all of it when it is shorter.
pub open spec fn last_chars(s: Seq<char>, n: int) -> Seq<char> {
    if n <= 0 {
        Seq::empty()
    } else if s.len() <= n {
        s
    } else {
        s.skip(s.len() - n)
    }
}

/// Byte offset of the character at position `char_index`, or the byte length of
/// the text when the position lies past its end.
pub fn byte_index_at_char(s: &str, char_index: usize) -> (res: usize)
    ensures
        res == byte_len(first_chars(s@, char_index as int)),
{
    let total = s.unicode_len();
    let end: usize = if char_index < total { char_index } else { total };
    proof {
        assert(s@.subrange(0, end as int) =~= first_chars(s@, char_index as int));
    }
    str_byte_len(s.substring_char(0, end))
}

/// Whether two texts hold the same characters.
pub fn same_text(a: &str, b: &str) -> (res: bool)
    ensures
        res == (a@ == b@),
{
    let x = a.as_bytes();
    let y = b.as_bytes();
    if x.len() != y.len() {
        return false;
    }
    let mut i: usize = 0;
    while i < x.len()
        invariant
            i <= x@.len() == y@.len(),
            x@ == encode_utf8(a@),
            y@ == encode_utf8(b@),
            forall|j: int| 0 <= j < i ==> x@[j] == y@[j],
        decreases x@.len() - i,
    {
        if x[i] != y[i] {
            return false;
        }
        i += 1;
    }
    proof {
        assert(x@ =~= y@);
        vstd::utf8::encode_utf8_decode_utf8(a@);
        vstd::utf8::encode_utf8_decode_utf8(b@);
    }
    true
}

/// The text held by an optional string.
pub open spec fn opt_text(o: Option<String>) -> Option<Seq<char>> {
    match o {
        Some(s) => Some(s@),
        None => None,
    }
}

/// The texts held by a sequence of strings.
pub open spec fn texts(v: Seq<String>) -> Seq<Seq<char>> {
    v.map_values(|s: String| s@)
}

/// Whether a list of strings holds a text.
pub fn list_has(list: &Vec<String>, item: &str) -> (res: bool)
    ensures
        res == texts(list@).contains(item@),
{
    let mut i: usize = 0;
    while i < list.len()
        invariant
            i <= list@.len(),
            forall|j: int| 0 <= j < i ==> texts(list@)[j] != item@,
        decreases list@.len() - i,
    {
        if same_text(list[i].as_str(), item) {
            proof { assert(texts(list@)[i as int] == item@); }
            return true;
        }
        i += 1;
    }
    false
}

// ---------------------------------------------------------------------------
// Searching
// ---------------------------------------------------------------------------

/// `needle` occurs in `s` at position `i`.
pub open spec fn occurs_at(s: Seq<char>, needle: Seq<char>, i: int) -> bool {
    0 <= i && i + needle.len() <= s.len() && s.subrange(i, i + needle.len()) == needle
}

/// `needle` occurs somewhere in `s`.
pub open spec fn contains_text(s: Seq<char>, needle: Seq<char>) -> bool {
    exists|i: int| occurs_at(s, needle, i)
}

/// `s` begins with `prefix`.
pub open spec fn has_prefix(s: Seq<char>, prefix: Seq<char>) -> bool {
    occurs_at(s, prefix, 0)
}

/// Position of the first occurrence of `needle` at or after `from`.
pub open spec fn find_text(s: Seq<char>, needle: Seq<char>, from: int) -> Option<int>
    decreases s.len() + 1 - from,
{
    if from < 0 || from + needle.len() > s.len() {
        None
    } else if occurs_at(s, needle, from) {
        Some(from)
    } else {
        find_text(s, needle, from + 1)
    }
}

/// `find_text` gives the least occurrence at or after `from`, or none when
/// there is none.
pub proof fn lemma_find_text(s: Seq<char>, needle: Seq<char>, from: int)
    requires
        0 <= from,
    ensures
        match find_text(s, needle, from) {
            Some(i) => from <= i && occurs_at(s, needle, i) && forall|j: int|
                from <= j < i ==> !occurs_at(s, needle, j),
            None => forall|j: int| from <= j ==> !occurs_at(s, needle, j),
        },
    decreases s.len() + 1 - from,
{
    if from + needle.len() > s.len() {
    } else if occurs_at(s, needle, from) {
    } else {
        lemma_find_text(s, needle, from + 1);
    }
}

/// Whether `needle` stands in `hay` at position `at`.
pub fn chars_occur_at(hay: &Vec<char>, needle: &Vec<char>, at: usize) -> (res: bool)
    ensures
        res == occurs_at(hay@, needle@, at as int),
{
    if needle.len() > hay.len() || at > hay.len() - needle.len() {
        return false;
    }
    let total: usize = hay.len();
    let mut k: usize = 0;
    while k < needle.len()
        invariant
            k <= needle@.len(),
            at + needle@.len() <= hay@.len() == total,
            forall|j: int| 0 <= j < k ==> hay@[at + j] == needle@[j],
        decreases needle@.len() - k,
    {
        if hay[at + k] != needle[k] {
            proof {
                assert(hay@.subrange(at as int, at + needle@.len())[k as int] != needle@[k as int]);
            }
            return false;
        }
        k += 1;
    }
    proof { assert(hay@.subrange(at as int, at + needle@.len()) =~= needle@); }
    true
}

/// Position of the first occurrence of `needle` in `hay` at or after `from`.
pub fn find_chars(hay: &Vec<char>, needle: &Vec<char>, from: usize) -> (res: Option<usize>)
    ensures
        match res {
            Some(i) => find_text(hay@, needle@, from as int) == Some(i as int),
            None => find_text(hay@, needle@, from as int) is None,
        },
{
    if needle.len() > hay.len() {
        return None;
    }
    let last: usize = hay.len() - needle.len();
    let mut i: usize = from;
    while i <= last
        invariant
            from <= i,
            i <= last ==> find_text(hay@, needle@, from as int) == find_text(hay@, needle@, i as int),
            i > last ==> find_text(hay@, needle@, from as int) is None,
            last + needle@.len() == hay@.len(),
        decreases last + 1 - i,
    {
        if chars_occur_at(hay, needle, i) {
            return Some(i);
        }
        if i == last {
            proof {
                reveal_with_fuel(find_text, 2);
            }
            return None;
        }
        i += 1;
    }
    None
}

/// Whether `needle` occurs in `hay`, both given as characters.
pub fn chars_contain(hay: &Vec<char>, needle: &Vec<char>) -> (res: bool)
    ensures
        res == contains_text(hay@, needle@),
{
    proof { lemma_find_text(hay@, needle@, 0); }
    match find_chars(hay, needle, 0) {
        Some(i) => {
            proof { assert(occurs_at(hay@, needle@, i as int)); }
            true
        },
        None => false,
    }
}

/// Whether `needle` occurs in `s`.
pub fn contains(s: &str, needle: &str) -> (res: bool)
    ensures
        res == contains_text(s@, needle@),
{
    chars_contain(&to_chars(s), &to_chars(needle))
}

/// Whether `s` begins with `prefix`.
pub fn starts_with(s: &str, prefix: &str) -> (res: bool)
    ensures
        res == has_prefix(s@, prefix@),
{
    chars_occur_at(&to_chars(s), &to_chars(prefix), 0)
}

/// Position of the last occurrence of `needle` that starts before `n`.
pub open spec fn find_last_text(s: Seq<char>, needle: Seq<char>, n: int) -> Option<int>
    decreases n,
{
    if n <= 0 {
        None
    } else if occurs_at(s, needle, n - 1) {
        Some(n - 1)
    } else {
        find_last_text(s, needle, n - 1)
    }
}

/// Position of the last occurrence of `needle` in `hay`.
pub fn find_last_chars(hay: &Vec<char>, needle: &Vec<char>) -> (res: Option<usize>)
    ensures
        match res {
            Some(i) => find_last_text(hay@, needle@, hay@.len() as int) == Some(i as int)
                && occurs_at(hay@, needle@, i as int),
            None => find_last_text(hay@, needle@, hay@.len() as int) is None,
        },
{
    let mut n: usize = hay.len();
    while n > 0
        invariant
            n <= hay@.len(),
            find_last_text(hay@, needle@, hay@.len() as int) == find_last_text(
                hay@,
                needle@,
                n as int,
            ),
        decreases n,
    {
        if chars_occur_at(hay, needle, n - 1) {
            return Some(n - 1);
        }
        n -= 1;
    }
    None
}

/// Position of the first `c` at or after `i`, or the length when there is none.
pub open spec fn next_char(s: Seq<char>, c: char, i: int) -> int
    decreases s.len() - i,
{
    if i >= s.len() {
        s.len() as int
    } else if s[i] == c {
        i
    } else {
        next_char(s, c, i + 1)
    }
}

/// Bounds and content of `next_char`.
pub proof fn lemma_next_char(s: Seq<char>, c: char, i: int)
    requires
        0 <= i <= s.len(),
    ensures
        i <= next_char(s, c, i) <= s.len(),
        next_char(s, c, i) < s.len() ==> s[next_char(s, c, i)] == c,
        forall|j: int| i <= j < next_char(s, c, i) ==> s[j] != c,
    decreases s.len() - i,
{
    if i < s.len() && s[i] != c {
        lemma_next_char(s, c, i + 1);
    }
}

/// Position of the first `c` at or after `i`, or the length.
pub fn find_next_char(s: &Vec<char>, c: char, i: usize) -> (res: usize)
    requires
        i <= s@.len(),
    ensures
        res == next_char(s@, c, i as int),
        i <= res <= s@.len(),
        res < s@.len() ==> s@[res as int] == c,
        forall|j: int| i <= j < res ==> s@[j] != c,
{
    let mut j: usize = i;
    while j < s.len()
        invariant
            i <= j <= s@.len(),
            next_char(s@, c, i as int) == next_char(s@, c, j as int),
            forall|k: int| i <= k < j ==> s@[k] != c,
        decreases s@.len() - j,
    {
        if s[j] == c {
            return j;
        }
        j += 1;
    }
    j
}

/// Start of the run of characters before `i` that holds no `c`: one past the
/// last `c` before `i`, or `0`.
pub open spec fn after_previous_char(s: Seq<char>, c: char, i: int) -> int
    decreases i,
{
    if i <= 0 {
        0
    } else if s[i - 1] == c {
        i
    } else {
        after_previous_char(s, c, i - 1)
    }
}

/// One past the last `c` before `i`, or `0`.
pub fn find_after_previous_char(s: &Vec<char>, c: char, i: usize) -> (res: usize)
    requires
        i <= s@.len(),
    ensures
        res == after_previous_char(s@, c, i as int),
        res <= i,
        res > 0 ==> s@[res - 1] == c,
        forall|j: int| res <= j < i ==> s@[j] != c,
{
    let mut j: usize = i;
    while j > 0
        invariant
            j <= i <= s@.len(),
            after_previous_char(s@, c, i as int) == after_previous_char(s@, c, j as int),
            forall|k: int| j <= k < i ==> s@[k] != c,
        decreases j,
    {
        if s[j - 1] == c {
            return j;
        }
        j -= 1;
    }
    j
}

/// End of the run of characters from `i` whose being whitespace is `ws`.
pub open spec fn run_end(s: Seq<char>, i: int, ws: bool) -> int
    decreases s.len() - i,
{
    if i >= s.len() || is_whitespace(s[i]) != ws {
        i
    } else {
        run_end(s, i + 1, ws)
    }
}

/// End of the whitespace (or non-whitespace) run that starts at `i`.
pub fn find_run_end(s: &Vec<char>, i: usize, ws: bool) -> (res: usize)
    requires
        i <= s@.len(),
    ensures
        res == run_end(s@, i as int, ws),
        i <= res <= s@.len(),
{
    let mut j: usize = i;
    while j < s.len()
        invariant
            i <= j <= s@.len(),
            run_end(s@, i as int, ws) == run_end(s@, j as int, ws),
        decreases s@.len() - j,
    {
        if char_is_whitespace(s[j]) != ws {
            return j;
        }
        j += 1;
    }
    j
}

/// Start of the run of characters that ends before `i` whose being whitespace
/// is `ws`.
pub open spec fn run_start(s: Seq<char>, i: int, ws: bool) -> int
    decreases i,
{
    if i <= 0 || is_whitespace(s[i - 1]) != ws {
        i
    } else {
        run_start(s, i - 1, ws)
    }
}

/// Start of the whitespace (or non-whitespace) run that ends before `i`.
pub fn find_run_start(s: &Vec<char>, i: usize, ws: bool) -> (res: usize)
    requires
        i <= s@.len(),
    ensures
        res == run_start(s@, i as int, ws),
        res <= i,
{
    let mut j: usize = i;
    while j > 0
        invariant
            j <= i <= s@.len(),
            run_start(s@, i as int, ws) == run_start(s@, j as int, ws),
        decreases j,
    {
        if char_is_whitespace(s[j - 1]) != ws {
            return j;
        }
        j -= 1;
    }
    j
}

/// `s` without leading and trailing whitespace.
pub open spec fn trimmed(s: Seq<char>) -> Seq<char> {
    let a = run_end(s, 0, true);
    let b = run_start(s, s.len() as int, true);
    if a <= b {
        s.subrange(a, b)
    } else {
        Seq::empty()
    }
}

/// Drops leading and trailing whitespace.
pub fn trim(s: &str) -> (res: String)
    ensures
        res@ == trimmed(s@),
{
    let chars = to_chars(s);
    let a = find_run_end(&chars, 0, true);
    let b = find_run_start(&chars, chars.len(), true);
    if a <= b {
        from_chars(&chars, a, b)
    } else {
        String::new()
    }
}

/// Whether nothing but whitespace stands in `s`.
pub fn is_blank(s: &str) -> (res: bool)
    ensures
        res == (trimmed(s@).len() == 0),
{
    trim(s).as_str().is_empty()
}

// ---------------------------------------------------------------------------
// Building
// ---------------------------------------------------------------------------

/// The parts of `s` between the occurrences of `sep`.
pub open spec fn split_char(s: Seq<char>, sep: char) -> Seq<Seq<char>>
    decreases s.len(),
{
    let i = next_char(s, sep, 0);
    if i >= s.len() || i < 0 {
        seq![s]
    } else {
        seq![s.take(i)] + split_char(s.skip(i + 1), sep)
    }
}

/// The parts of `s` between the occurrences of `sep`, taken from the left.
pub open spec fn split_text(s: Seq<char>, sep: Seq<char>) -> Seq<Seq<char>>
    decreases s.len(),
{
    match find_text(s, sep, 0) {
        Some(i) => if sep.len() > 0 && 0 <= i && i + sep.len() <= s.len() {
            seq![s.take(i)] + split_text(s.skip(i + sep.len()), sep)
        } else {
            seq![s]
        },
        None => seq![s],
    }
}

/// `parts` one after another with `sep` between them.
pub open spec fn joined(parts: Seq<Seq<char>>, sep: Seq<char>) -> Seq<char>
    decreases parts.len(),
{
    if parts.len() == 0 {
        Seq::empty()
    } else if parts.len() == 1 {
        parts[0]
    } else {
        joined(parts.drop_last(), sep) + sep + parts.last()
    }
}

/// The texts of `parts` one after another.
pub open spec fn concatenated(parts: Seq<Seq<char>>) -> Seq<char>
    decreases parts.len(),
{
    if parts.len() == 0 {
        Seq::empty()
    } else {
        concatenated(parts.drop_last()) + parts.last()
    }
}

/// Splits a text at every `sep`.
pub fn split_at_char(s: &str, sep: char) -> (res: Vec<String>)
    ensures
        texts(res@) == split_char(s@, sep),
        res@.len() > 0,
{
    let chars = to_chars(s);
    let mut out: Vec<String> = Vec::new();
    let mut start: usize = 0;
    proof { assert(s@.skip(0) =~= s@); }
    loop
        invariant
            chars@ == s@,
            start <= chars@.len(),
            texts(out@) + split_char(s@.skip(start as int), sep) =~= split_char(s@, sep),
        decreases chars@.len() - start,
    {
        let end = find_next_char(&chars, sep, start);
        let ghost rest = s@.skip(start as int);
        proof { lemma_next_char_shift(s@, sep, start as int, 0); }
        let part = from_chars(&chars, start, end);
        let ghost before = out@;
        out.push(part);
        proof {
            assert(texts(out@) =~= texts(before).push(part@));
            assert(rest.take(end - start) =~= part@);
        }
        if end == chars.len() {
            proof {
                assert(part@ =~= rest);
                assert(texts(out@) =~= texts(before) + seq![rest]);
            }
            return out;
        }
        proof {
            assert(rest.skip(end - start + 1) =~= s@.skip(end + 1));
            assert(texts(before) + (seq![part@] + split_char(s@.skip(end + 1), sep)) =~= texts(out@)
                + split_char(s@.skip(end + 1), sep));
        }
        start = end + 1;
    }
}

proof fn lemma_next_char_shift(s: Seq<char>, c: char, start: int, i: int)
    requires
        0 <= start <= s.len(),
        0 <= i,
        start + i <= s.len(),
    ensures
        next_char(s.skip(start), c, i) == next_char(s, c, start + i) - start,
    decreases s.len() - start - i,
{
    if start + i < s.len() && s[start + i] != c {
        lemma_next_char_shift(s, c, start, i + 1);
    }
}

/// Splits a text at every occurrence of a non-empty separator, from the left.
pub fn split_at_text(s: &str, sep: &str) -> (res: Vec<String>)
    requires
        sep@.len() > 0,
    ensures
        texts(res@) == split_text(s@, sep@),
{
    let chars = to_chars(s);
    let pat = to_chars(sep);
    let total: usize = chars.len();
    let mut out: Vec<String> = Vec::new();
    let mut start: usize = 0;
    proof { assert(s@.skip(0) =~= s@); }
    loop
        invariant
            chars@ == s@,
            chars@.len() == total,
            pat@ == sep@,
            sep@.len() > 0,
            start <= chars@.len(),
            texts(out@) + split_text(s@.skip(start as int), sep@) =~= split_text(s@, sep@),
        decreases chars@.len() - start,
    {
        let ghost rest = s@.skip(start as int);
        proof {
            lemma_find_text_shift(s@, sep@, start as int, 0);
            lemma_find_text(s@, sep@, start as int);
        }
        let ghost before = out@;
        match find_chars(&chars, &pat, start) {
            None => {
                let part = from_chars(&chars, start, chars.len());
                out.push(part);
                proof {
                    assert(part@ =~= rest);
                    assert(texts(out@) =~= texts(before) + seq![rest]);
                }
                return out;
            },
            Some(end) => {
                let part = from_chars(&chars, start, end);
                out.push(part);
                proof {
                    assert(rest.take(end - start) =~= part@);
                    assert(rest.skip(end - start + sep@.len()) =~= s@.skip(end + sep@.len()));
                    assert(texts(out@) =~= texts(before).push(part@));
                    assert(texts(before) + (seq![part@] + split_text(
                        s@.skip(end + sep@.len()),
                        sep@,
                    )) =~= texts(out@) + split_text(s@.skip(end + sep@.len()), sep@));
                }
                start = end + pat.len();
            },
        }
    }
}

proof fn lemma_find_text_shift(s: Seq<char>, needle: Seq<char>, start: int, i: int)
    requires
        0 <= start <= s.len(),
        0 <= i,
    ensures
        match find_text(s, needle, start + i) {
            Some(j) => find_text(s.skip(start), needle, i) == Some(j - start),
            None => find_text(s.skip(start), needle, i) is None,
        },
    decreases s.len() + 1 - start - i,
{
    let rest = s.skip(start);
    if start + i + needle.len() <= s.len() {
        assert(rest.subrange(i, i + needle.len()) =~= s.subrange(
            start + i,
            start + i + needle.len(),
        ));
        if !occurs_at(s, needle, start + i) {
            lemma_find_text_shift(s, needle, start, i + 1);
        }
    }
}

/// Joins texts with `sep` between them.
pub fn join(parts: &Vec<String>, sep: &str) -> (res: String)
    ensures
        res@ == joined(texts(parts@), sep@),
{
    let mut out = String::new();
    let mut i: usize = 0;
    while i < parts.len()
        invariant
            i <= parts@.len(),
            out@ == joined(texts(parts@).take(i as int), sep@),
        decreases parts@.len() - i,
    {
        proof {
            assert(texts(parts@).take(i + 1).drop_last() =~= texts(parts@).take(i as int));
        }
        if i > 0 {
            out.append(sep);
        }
        out.append(parts[i].as_str());
        i += 1;
    }
    proof { assert(texts(parts@).take(parts@.len() as int) =~= texts(parts@)); }
    out
}

/// `s` with every `from` replaced by `to`.
pub open spec fn replaced_char(s: Seq<char>, from: char, to: char) -> Seq<char> {
    s.map_values(|c: char| if c == from { to } else { c })
}

/// Replaces every `from` by `to`.
pub fn replace_char(s: &str, from: char, to: char) -> (res: String)
    ensures
        res@ == replaced_char(s@, from, to),
{
    let chars = to_chars(s);
    let mut out = String::new();
    let mut i: usize = 0;
    while i < chars.len()
        invariant
            i <= chars@.len(),
            chars@ == s@,
            out@ == replaced_char(s@.take(i as int), from, to),
        decreases chars@.len() - i,
    {
        let c = chars[i];
        out.push(if c == from { to } else { c });
        proof {
            assert(replaced_char(s@.take(i + 1), from, to) =~= replaced_char(
                s@.take(i as int),
                from,
                to,
            ).push(if c == from { to } else { c }));
        }
        i += 1;
    }
    proof { assert(s@.take(s@.len() as int) =~= s@); }
    out
}

/// A decimal digit.
pub open spec fn digit(d: nat) -> char {
    ((('0' as u32) + d) as u32) as char
}

/// The decimal notation of `n`.
pub open spec fn decimal(n: nat) -> Seq<char>
    decreases n,
{
    if n < 10 {
        seq![digit(n)]
    } else {
        decimal(n / 10).push(digit(n % 10))
    }
}

/// Writes a number in decimal notation.
pub fn decimal_text(n: u64) -> (res: String)
    ensures
        res@ == decimal(n as nat),
    decreases n,
{
    let d: u8 = (n % 10) as u8;
    let c = (48 + d) as char;
    let mut out = if n < 10 {
        String::new()
    } else {
        decimal_text(n / 10)
    };
    out.push(c);
    proof { assert(n < 10 ==> out@ =~= seq![c]); }
    out
}

} // verus!
