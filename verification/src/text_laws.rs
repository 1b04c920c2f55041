//! How texts are searched, cut and put together.

use vstd::prelude::*;

use crate::text::{
    ascii_lowercase, concatenated, contains_text, decimal, digit, find_last_text, find_text,
    first_chars, has_prefix, is_control, is_whitespace, joined, last_chars, lemma_find_text,
    lemma_next_char, next_char, occurs_at, replaced_char, run_end, run_start, split_char,
    split_text, trimmed,
};

verus! {

// ---------------------------------------------------------------------------
// Whitespace
// ---------------------------------------------------------------------------

/// Nothing but whitespace.
pub open spec fn all_blank(s: Seq<char>) -> bool {
    forall|i: int| 0 <= i < s.len() ==> is_whitespace(#[trigger] s[i])
}

/// A run of blanks, or of other characters, reaches as far as it can.
pub proof fn runs_reach_as_far_as_they_can(s: Seq<char>, i: int, ws: bool)
    requires
        0 <= i <= s.len(),
    ensures
        i <= run_end(s, i, ws) <= s.len(),
        forall|j: int| i <= j < run_end(s, i, ws) ==> is_whitespace(#[trigger] s[j]) == ws,
        run_end(s, i, ws) < s.len() ==> is_whitespace(s[run_end(s, i, ws)]) != ws,
        0 <= run_start(s, i, ws) <= i,
        forall|j: int| run_start(s, i, ws) <= j < i ==> is_whitespace(#[trigger] s[j]) == ws,
        run_start(s, i, ws) > 0 ==> is_whitespace(s[run_start(s, i, ws) - 1]) != ws,
{
    lemma_run_end(s, i, ws);
    lemma_run_start(s, i, ws);
}

proof fn lemma_run_end(s: Seq<char>, i: int, ws: bool)
    requires
        0 <= i <= s.len(),
    ensures
        i <= run_end(s, i, ws) <= s.len(),
        forall|j: int| i <= j < run_end(s, i, ws) ==> is_whitespace(#[trigger] s[j]) == ws,
        run_end(s, i, ws) < s.len() ==> is_whitespace(s[run_end(s, i, ws)]) != ws,
    decreases s.len() - i,
{
    if i < s.len() && is_whitespace(s[i]) == ws {
        lemma_run_end(s, i + 1, ws);
    }
}

proof fn lemma_run_start(s: Seq<char>, i: int, ws: bool)
    requires
        0 <= i <= s.len(),
    ensures
        0 <= run_start(s, i, ws) <= i,
        forall|j: int| run_start(s, i, ws) <= j < i ==> is_whitespace(#[trigger] s[j]) == ws,
        run_start(s, i, ws) > 0 ==> is_whitespace(s[run_start(s, i, ws) - 1]) != ws,
    decreases i,
{
    if i > 0 && is_whitespace(s[i - 1]) == ws {
        lemma_run_start(s, i - 1, ws);
    }
}

/// Trimming takes away blanks at both ends, and nothing else.
pub proof fn trimming_takes_outer_blanks(s: Seq<char>)
    ensures
        exists|before: Seq<char>, behind: Seq<char>|
            s == #[trigger] (before + trimmed(s) + behind) && all_blank(before) && all_blank(
                behind,
            ),
        trimmed(s).len() > 0 ==> !is_whitespace(trimmed(s)[0]) && !is_whitespace(
            trimmed(s).last(),
        ),
        trimmed(s).len() == 0 <==> all_blank(s),
{
    let n = s.len() as int;
    let a = run_end(s, 0, true);
    let b = run_start(s, n, true);
    lemma_run_end(s, 0, true);
    lemma_run_start(s, n, true);
    if a <= b {
        assert(s =~= s.take(a) + trimmed(s) + s.skip(b));
        assert(all_blank(s.take(a)));
        assert(all_blank(s.skip(b)));
        if a < b {
            assert(trimmed(s)[0] == s[a]);
            assert(trimmed(s).last() == s[b - 1]);
        } else {
            assert(all_blank(s));
        }
    } else {
        assert(a == n) by {
            if a < n {
                assert(is_whitespace(s[a]));
            }
        }
        assert(all_blank(s));
        assert(s =~= s + trimmed(s) + Seq::<char>::empty());
        assert(all_blank(Seq::<char>::empty()));
    }
}

// ---------------------------------------------------------------------------
// Searching
// ---------------------------------------------------------------------------

/// The last occurrence of a text is one, and no later one starts before the
/// bound; where none is found there is none.
pub proof fn the_last_occurrence_is_found(s: Seq<char>, needle: Seq<char>, n: int)
    requires
        0 <= n,
    ensures
        match find_last_text(s, needle, n) {
            Some(i) => 0 <= i < n && occurs_at(s, needle, i) && forall|j: int|
                i < j < n ==> !occurs_at(s, needle, j),
            None => forall|j: int| 0 <= j < n ==> !occurs_at(s, needle, j),
        },
    decreases n,
{
    if n > 0 && !occurs_at(s, needle, n - 1) {
        the_last_occurrence_is_found(s, needle, n - 1);
    }
}

// ---------------------------------------------------------------------------
// Splitting and joining
// ---------------------------------------------------------------------------

/// Joining two lists that are not empty puts one separator between them.
pub proof fn joined_lists_are_joined(a: Seq<Seq<char>>, b: Seq<Seq<char>>, sep: Seq<char>)
    requires
        a.len() > 0,
        b.len() > 0,
    ensures
        joined(a + b, sep) == joined(a, sep) + sep + joined(b, sep),
    decreases b.len(),
{
    assert((a + b).drop_last() =~= a + b.drop_last());
    if b.len() == 1 {
        assert(a + b.drop_last() =~= a);
    } else {
        joined_lists_are_joined(a, b.drop_last(), sep);
        assert(joined(a + b, sep) =~= joined(a, sep) + sep + joined(b, sep));
    }
}

/// Splitting at a character cuts at each of them: the parts hold none, and
/// joining them by it gives the text back.
pub proof fn joining_undoes_splitting(s: Seq<char>, sep: char)
    ensures
        split_char(s, sep).len() > 0,
        joined(split_char(s, sep), seq![sep]) == s,
        forall|k: int|
            0 <= k < split_char(s, sep).len() ==> !(#[trigger] split_char(s, sep)[k]).contains(sep),
    decreases s.len(),
{
    lemma_next_char(s, sep, 0);
    let i = next_char(s, sep, 0);
    let parts = split_char(s, sep);
    if i >= s.len() {
        assert(parts == seq![s]);
    } else {
        let rest = split_char(s.skip(i + 1), sep);
        joining_undoes_splitting(s.skip(i + 1), sep);
        let head = seq![s.take(i)];
        assert(parts == head + rest);
        joined_lists_are_joined(head, rest, seq![sep]);
        assert(s =~= s.take(i) + seq![sep] + s.skip(i + 1));
        assert forall|k: int| 0 <= k < parts.len() implies !(#[trigger] parts[k]).contains(
            sep,
        ) by {
            if k == 0 {
                assert(parts[0] == s.take(i));
            } else {
                assert(parts[k] == rest[k - 1]);
            }
        }
    }
}

/// Splitting undoes joining: parts that do not hold the character are found
/// again.
pub proof fn splitting_undoes_joining(parts: Seq<Seq<char>>, sep: char)
    requires
        parts.len() > 0,
        forall|k: int| 0 <= k < parts.len() ==> !(#[trigger] parts[k]).contains(sep),
    ensures
        split_char(joined(parts, seq![sep]), sep) == parts,
    decreases parts.len(),
{
    let s = joined(parts, seq![sep]);
    let head = parts[0];
    lemma_next_char(s, sep, 0);
    if parts.len() == 1 {
        assert(s == head);
        assert forall|j: int| 0 <= j < s.len() implies s[j] != sep by {
            if s[j] == sep {
                assert(parts[0].contains(sep));
            }
        }
        assert(next_char(s, sep, 0) == s.len());
        assert(split_char(s, sep) =~= parts);
    } else {
        let rest = parts.skip(1);
        assert(parts =~= seq![head] + rest);
        joined_lists_are_joined(seq![head], rest, seq![sep]);
        assert(s == head + seq![sep] + joined(rest, seq![sep]));
        assert(s[head.len() as int] == sep);
        assert forall|j: int| 0 <= j < head.len() implies s[j] != sep by {
            if s[j] == sep {
                assert(head[j] == sep);
                assert(parts[0].contains(sep));
            }
        }
        assert(next_char(s, sep, 0) == head.len());
        assert(s.take(head.len() as int) =~= head);
        assert(s.skip(head.len() as int + 1) =~= joined(rest, seq![sep]));
        assert forall|k: int| 0 <= k < rest.len() implies !(#[trigger] rest[k]).contains(sep) by {
            assert(rest[k] == parts[k + 1]);
        }
        splitting_undoes_joining(rest, sep);
    }
}

/// Splitting at a text cuts at each of its occurrences, taken from the left: no
/// part holds it, and joining the parts by it gives the text back.
pub proof fn joining_undoes_splitting_at_texts(s: Seq<char>, sep: Seq<char>)
    requires
        sep.len() > 0,
    ensures
        split_text(s, sep).len() > 0,
        joined(split_text(s, sep), sep) == s,
        forall|k: int|
            0 <= k < split_text(s, sep).len() ==> !contains_text(
                #[trigger] split_text(s, sep)[k],
                sep,
            ),
    decreases s.len(),
{
    lemma_find_text(s, sep, 0);
    let parts = split_text(s, sep);
    match find_text(s, sep, 0) {
        Some(i) => {
            let rest = split_text(s.skip(i + sep.len()), sep);
            joining_undoes_splitting_at_texts(s.skip(i + sep.len()), sep);
            let head = seq![s.take(i)];
            assert(parts == head + rest);
            joined_lists_are_joined(head, rest, sep);
            assert(s.subrange(i, i + sep.len()) == sep);
            assert(s =~= s.take(i) + s.subrange(i, i + sep.len()) + s.skip(i + sep.len()));
            assert forall|k: int| 0 <= k < parts.len() implies !contains_text(
                #[trigger] parts[k],
                sep,
            ) by {
                if k == 0 {
                    assert(parts[0] == s.take(i));
                    if contains_text(s.take(i), sep) {
                        let j = choose|j: int| occurs_at(s.take(i), sep, j);
                        assert(s.take(i).subrange(j, j + sep.len()) =~= s.subrange(
                            j,
                            j + sep.len(),
                        ));
                        assert(occurs_at(s, sep, j));
                    }
                } else {
                    assert(parts[k] == rest[k - 1]);
                }
            }
        },
        None => {
            assert(parts == seq![s]);
        },
    }
}

/// Texts put one after another keep their order and lose nothing.
pub proof fn concatenations_add_up(a: Seq<Seq<char>>, b: Seq<Seq<char>>, text: Seq<char>)
    ensures
        concatenated(a + b) == concatenated(a) + concatenated(b),
        concatenated(seq![text]) == text,
        concatenated(Seq::empty()) == Seq::<char>::empty(),
    decreases b.len(),
{
    assert(seq![text].drop_last() =~= Seq::empty());
    assert(concatenated(seq![text].drop_last()) =~= Seq::empty());
    assert(concatenated(seq![text]) =~= text);
    if b.len() == 0 {
        assert(a + b =~= a);
        assert(concatenated(a + b) =~= concatenated(a) + concatenated(b));
    } else {
        assert((a + b).drop_last() =~= a + b.drop_last());
        concatenations_add_up(a, b.drop_last(), text);
        assert(concatenated(a + b) =~= concatenated(a) + concatenated(b));
    }
}

// ---------------------------------------------------------------------------
// Ends of texts
// ---------------------------------------------------------------------------

/// The first and the last characters of a text are its two ends, as long as
/// asked for and no longer than the text.
pub proof fn ends_are_cut_to_size(s: Seq<char>, n: int)
    requires
        n >= 0,
    ensures
        first_chars(s, n) + s.skip(first_chars(s, n).len() as int) == s,
        s.take(s.len() - last_chars(s, n).len()) + last_chars(s, n) == s,
        n <= s.len() ==> first_chars(s, n).len() == n && last_chars(s, n).len() == n,
        n >= s.len() ==> first_chars(s, n) == s && last_chars(s, n) == s,
{
    assert(first_chars(s, n) + s.skip(first_chars(s, n).len() as int) =~= s);
    assert(s.take(s.len() - last_chars(s, n).len()) + last_chars(s, n) =~= s);
}

// ---------------------------------------------------------------------------
// Characters
// ---------------------------------------------------------------------------

/// Lowercasing changes capital letters of ASCII into the small ones and keeps
/// every other character; doing it twice is doing it once.
pub proof fn lowercasing_changes_capitals_only(s: Seq<char>)
    ensures
        ascii_lowercase(s).len() == s.len(),
        forall|i: int|
            0 <= i < s.len() ==> if 'A' <= s[i] <= 'Z' {
                'a' <= #[trigger] ascii_lowercase(s)[i] <= 'z' && ascii_lowercase(s)[i] as int - 'a'
                    as int == s[i] as int - 'A' as int
            } else {
                ascii_lowercase(s)[i] == s[i]
            },
        ascii_lowercase(ascii_lowercase(s)) == ascii_lowercase(s),
{
    assert(ascii_lowercase(ascii_lowercase(s)) =~= ascii_lowercase(s));
}

/// Replacing a character leaves none of it and keeps every other one in place.
pub proof fn replacing_changes_one_character(s: Seq<char>, from: char, to: char)
    ensures
        replaced_char(s, from, to).len() == s.len(),
        forall|i: int|
            0 <= i < s.len() && s[i] == from ==> #[trigger] replaced_char(s, from, to)[i] == to,
        forall|i: int|
            0 <= i < s.len() && s[i] != from ==> #[trigger] replaced_char(s, from, to)[i] == s[i],
        from != to ==> !replaced_char(s, from, to).contains(from),
        !s.contains(from) ==> replaced_char(s, from, to) == s,
{
    if !s.contains(from) {
        assert(replaced_char(s, from, to) =~= s);
    }
}

// ---------------------------------------------------------------------------
// Numbers
// ---------------------------------------------------------------------------

/// The number that a row of digits stands for.
pub open spec fn number_of(digits: Seq<char>) -> int
    decreases digits.len(),
{
    if digits.len() == 0 {
        0
    } else {
        10 * number_of(digits.drop_last()) + (digits.last() as int - '0' as int)
    }
}

/// The decimal notation of a number is a row of digits that stands for it, and
/// begins with a zero only where it is zero.
pub proof fn decimals_are_read_back(n: nat)
    ensures
        number_of(decimal(n)) == n,
        decimal(n).len() > 0,
        forall|i: int| 0 <= i < decimal(n).len() ==> '0' <= #[trigger] decimal(n)[i] <= '9',
        n > 0 ==> decimal(n)[0] != '0',
    decreases n,
{
    let d = digit(n % 10);
    assert(d as int == '0' as int + n % 10);
    if n < 10 {
        let one = seq![digit(n)];
        assert(decimal(n) == one);
        assert(one.drop_last() =~= Seq::empty());
        assert(number_of(one.drop_last()) == 0);
    } else {
        decimals_are_read_back(n / 10);
        let rest = decimal(n / 10);
        assert(decimal(n) == rest.push(d));
        assert(rest.push(d).drop_last() =~= rest);
        assert(decimal(n)[0] == rest[0]);
        assert forall|i: int| 0 <= i < decimal(n).len() implies '0' <= #[trigger] decimal(n)[i]
            <= '9' by {
            if i < rest.len() {
                assert(decimal(n)[i] == rest[i]);
            }
        }
    }
}

/// Blanks are the tab, the line and page breaks, the space, and the blanks of
/// Unicode; letters, digits and signs of ASCII are none.
pub proof fn blanks_are_these(c: char)
    ensures
        is_whitespace(c) == ({
            let n = c as int;
            ||| 9 <= n <= 13
            ||| n == 32 || n == 133 || n == 160 || n == 5760
            ||| 8192 <= n <= 8202
            ||| n == 8232 || n == 8233 || n == 8239 || n == 8287 || n == 12288
        }),
        is_control(c) == ({
            let n = c as int;
            n < 32 || 127 <= n < 160
        }),
{
}

/// A text begins with another exactly where something can be put behind that
/// one to make it.
pub proof fn prefixes_begin_texts(prefix: Seq<char>, rest: Seq<char>, s: Seq<char>)
    ensures
        has_prefix(prefix + rest, prefix),
        has_prefix(s, prefix) ==> s == prefix + s.skip(prefix.len() as int),
        contains_text(prefix + rest, prefix),
        contains_text(s, Seq::empty()),
{
    let all = prefix + rest;
    assert(all.subrange(0, prefix.len() as int) =~= prefix);
    assert(occurs_at(all, prefix, 0));
    if has_prefix(s, prefix) {
        assert(s =~= s.subrange(0, prefix.len() as int) + s.skip(prefix.len() as int));
    }
    assert(s.subrange(0, 0) =~= Seq::empty());
    assert(occurs_at(s, Seq::empty(), 0));
}

} // verus!
