//! How paths are read and put together.

use vstd::prelude::*;

use crate::paths::{
    components_end, first_component, is_absolute, is_null_segment, match_segments, normalized_path,
    path_below, stripped_prefix, without_dot_slash,
};
use crate::text::{contains_text, joined, lemma_next_char, next_char, replaced_char, split_char};
use crate::text_laws::{joining_undoes_splitting, splitting_undoes_joining};

verus! {

/// A path that is written without anything that does not count at its ends.
pub open spec fn is_tidy(rel: Seq<char>) -> bool {
    &&& !is_null_segment(split_char(rel, '/')[0])
    &&& !is_null_segment(split_char(rel, '/').last())
}

/// The components among the segments from `i` on.
pub open spec fn components_from(a: Seq<Seq<char>>, i: int) -> Seq<Seq<char>>
    decreases a.len() - i,
{
    if i >= a.len() {
        Seq::empty()
    } else if is_null_segment(a[i]) {
        components_from(a, i + 1)
    } else {
        seq![a[i]] + components_from(a, i + 1)
    }
}

/// The components of a path.
pub open spec fn components(path: Seq<char>) -> Seq<Seq<char>> {
    components_from(split_char(path, '/'), 0)
}

/// Splitting two texts with a separator between them splits each.
pub proof fn lemma_split_join(a: Seq<char>, b: Seq<char>, sep: char)
    ensures
        split_char(a + seq![sep] + b, sep) == split_char(a, sep) + split_char(b, sep),
    decreases a.len(),
{
    let s = a + seq![sep] + b;
    lemma_next_char(a, sep, 0);
    lemma_next_char(s, sep, 0);
    let i = next_char(a, sep, 0);
    if i >= a.len() {
        assert(s[a.len() as int] == sep);
        assert forall|j: int| 0 <= j < a.len() implies s[j] != sep by {
            assert(s[j] == a[j]);
        }
        assert(next_char(s, sep, 0) == a.len());
        assert(s.take(a.len() as int) =~= a);
        assert(s.skip(a.len() as int + 1) =~= b);
    } else {
        assert forall|j: int| 0 <= j < i implies s[j] != sep by {
            assert(s[j] == a[j]);
        }
        assert(s[i] == a[i]);
        assert(next_char(s, sep, 0) == i);
        assert(s.take(i) =~= a.take(i));
        assert(s.skip(i + 1) =~= a.skip(i + 1) + seq![sep] + b);
        lemma_split_join(a.skip(i + 1), b, sep);
        assert(split_char(s, sep) =~= split_char(a, sep) + split_char(b, sep));
    }
}

proof fn lemma_match_own(b: Seq<Seq<char>>, r: Seq<Seq<char>>, i: int, j: int)
    requires
        0 <= i <= j <= b.len(),
        forall|k: int| i <= k < j ==> is_null_segment(#[trigger] b[k]),
    ensures
        match_segments(b + r, i, b, j) matches Some(m) && i <= m <= b.len() && forall|k: int|
            m <= k < b.len() ==> is_null_segment(#[trigger] (b + r)[k]),
    decreases b.len() - j, j - i,
{
    let a = b + r;
    if j < b.len() {
        if is_null_segment(b[j]) {
            lemma_match_own(b, r, i, j + 1);
        } else if i < j {
            assert(a[i] == b[i]);
            lemma_match_own(b, r, i + 1, j);
        } else {
            assert(a[i] == b[j]);
            lemma_match_own(b, r, i + 1, j + 1);
        }
    } else {
        assert forall|k: int| i <= k < b.len() implies is_null_segment(#[trigger] a[k]) by {
            assert(a[k] == b[k]);
        }
    }
}

proof fn lemma_first_component(a: Seq<Seq<char>>, i: int, k: int)
    requires
        0 <= i <= k < a.len(),
        forall|j: int| i <= j < k ==> is_null_segment(#[trigger] a[j]),
        !is_null_segment(a[k]),
    ensures
        first_component(a, i) == k,
    decreases k - i,
{
    if i < k {
        lemma_first_component(a, i + 1, k);
    }
}

/// What lies below a directory is found relative to it: putting a path below a
/// directory and taking the directory off again gives the path back.
pub proof fn taking_a_directory_off_undoes_joining(base: Seq<char>, rel: Seq<char>)
    requires
        base.len() > 0,
        base.last() != '/',
        is_tidy(rel),
    ensures
        stripped_prefix(path_below(base, rel), base) == Some(rel),
{
    reveal_strlit("/");
    let path = base + seq!['/'] + rel;
    assert("/"@ =~= seq!['/']);
    assert(path_below(base, rel) == path);
    let a = split_char(path, '/');
    let b = split_char(base, '/');
    let r = split_char(rel, '/');
    lemma_split_join(base, rel, '/');
    assert(a == b + r);
    joining_undoes_splitting(base, '/');
    joining_undoes_splitting(rel, '/');
    assert(path[0] == base[0]);
    assert(a[0] == b[0]);
    let start: int = if is_absolute(base) || b[0] == seq!['.'] {
        1
    } else {
        0
    };
    lemma_match_own(b, r, start, start);
    let m = match_segments(a, start, b, start)->0;
    let k = b.len() as int;
    assert(a[k] == r[0]);
    lemma_first_component(a, m, k);
    assert(a.last() == r.last());
    assert(components_end(a, k, a.len() as int) == a.len());
    assert(a.subrange(k, a.len() as int) =~= r);
}

proof fn lemma_matched_components(a: Seq<Seq<char>>, i: int, b: Seq<Seq<char>>, j: int)
    requires
        0 <= i <= a.len(),
        0 <= j <= b.len(),
    ensures
        match_segments(a, i, b, j) matches Some(m) ==> i <= m <= a.len() && components_from(a, i)
            == components_from(b, j) + components_from(a, m),
    decreases b.len() - j, a.len() - i,
{
    if j >= b.len() {
        assert(components_from(b, j) + components_from(a, i) =~= components_from(a, i));
    } else if is_null_segment(b[j]) {
        lemma_matched_components(a, i, b, j + 1);
    } else if i >= a.len() {
    } else if is_null_segment(a[i]) {
        lemma_matched_components(a, i + 1, b, j);
    } else if a[i] == b[j] {
        lemma_matched_components(a, i + 1, b, j + 1);
        if let Some(m) = match_segments(a, i, b, j) {
            assert(components_from(a, i) =~= components_from(b, j) + components_from(a, m));
        }
    }
}

proof fn lemma_skip_nulls(a: Seq<Seq<char>>, i: int)
    requires
        0 <= i <= a.len(),
    ensures
        i <= first_component(a, i) <= a.len(),
        components_from(a, first_component(a, i)) == components_from(a, i),
    decreases a.len() - i,
{
    if i < a.len() && is_null_segment(a[i]) {
        lemma_skip_nulls(a, i + 1);
    }
}

proof fn lemma_drop_nulls(a: Seq<Seq<char>>, lo: int, k: int)
    requires
        0 <= lo <= k <= a.len(),
        forall|j: int| k <= j < a.len() ==> is_null_segment(#[trigger] a[j]),
    ensures
        lo <= components_end(a, lo, k) <= k,
        forall|j: int| components_end(a, lo, k) <= j < a.len() ==> is_null_segment(#[trigger] a[j]),
    decreases k - lo,
{
    if k > lo && is_null_segment(a[k - 1]) {
        lemma_drop_nulls(a, lo, k - 1);
    }
}

proof fn lemma_range_components(a: Seq<Seq<char>>, lo: int, hi: int, i: int)
    requires
        0 <= lo <= i <= hi <= a.len(),
        forall|j: int| hi <= j < a.len() ==> is_null_segment(#[trigger] a[j]),
    ensures
        components_from(a.subrange(lo, hi), i - lo) == components_from(a, i),
    decreases hi - i,
{
    if i < hi {
        lemma_range_components(a, lo, hi, i + 1);
        assert(a.subrange(lo, hi)[i - lo] == a[i]);
    } else {
        lemma_all_null(a, hi);
    }
}

proof fn lemma_all_null(a: Seq<Seq<char>>, i: int)
    requires
        0 <= i <= a.len(),
        forall|j: int| i <= j < a.len() ==> is_null_segment(#[trigger] a[j]),
    ensures
        components_from(a, i) == Seq::<Seq<char>>::empty(),
    decreases a.len() - i,
{
    if i < a.len() {
        lemma_all_null(a, i + 1);
    }
}

/// A path is relative to a directory only where the components of the directory
/// begin those of the path, and then the rest is what is left of them.
pub proof fn relative_paths_hold_the_rest(path: Seq<char>, base: Seq<char>)
    requires
        base.len() > 0,
    ensures
        stripped_prefix(path, base) matches Some(rel) ==> components(path) == components(base)
            + components(rel) && is_absolute(path) == is_absolute(base),
{
    let a = split_char(path, '/');
    let b = split_char(base, '/');
    joining_undoes_splitting(path, '/');
    joining_undoes_splitting(base, '/');
    if let Some(rel) = stripped_prefix(path, base) {
        let start: int = if is_absolute(base) || b[0] == seq!['.'] {
            1
        } else {
            0
        };
        lemma_matched_components(a, start, b, start);
        let m = match_segments(a, start, b, start)->0;
        if start == 1 {
            if is_absolute(base) {
                lemma_absolute_begins_empty(path);
                lemma_absolute_begins_empty(base);
            }
            assert(is_null_segment(a[0]));
            assert(is_null_segment(b[0]));
        }
        assert(components_from(a, 0) == components_from(a, start));
        assert(components_from(b, 0) == components_from(b, start));
        let lo = first_component(a, m);
        lemma_skip_nulls(a, m);
        let hi = components_end(a, lo, a.len() as int);
        lemma_drop_nulls(a, lo, a.len() as int);
        lemma_range_components(a, lo, hi, lo);
        let parts = a.subrange(lo, hi);
        assert(rel == joined(parts, seq!['/']));
        if parts.len() > 0 {
            assert forall|k: int| 0 <= k < parts.len() implies !(#[trigger] parts[k]).contains(
                '/',
            ) by {
                assert(parts[k] == a[lo + k]);
            }
            splitting_undoes_joining(parts, '/');
        } else {
            assert(rel.len() == 0);
            lemma_next_char(rel, '/', 0);
            assert(split_char(rel, '/') == seq![rel]);
            assert(is_null_segment(seq![rel][0]));
            lemma_all_null(seq![rel], 0);
            lemma_all_null(parts, 0);
        }
    }
}

proof fn lemma_absolute_begins_empty(path: Seq<char>)
    requires
        is_absolute(path),
    ensures
        split_char(path, '/')[0].len() == 0,
{
    lemma_next_char(path, '/', 0);
    assert(next_char(path, '/', 0) == 0);
    assert(path.take(0).len() == 0);
}

// ---------------------------------------------------------------------------
// Candidates
// ---------------------------------------------------------------------------

/// A leading `./` does not count.
pub proof fn leading_dots_do_not_count(
    candidate: Seq<char>,
    root: Option<Seq<char>>,
    existing: Seq<Seq<char>>,
)
    requires
        candidate.len() > 0,
        candidate[0] != '/' && candidate[0] != '\\',
    ensures
        normalized_path("./"@ + candidate, root, existing) == normalized_path(
            candidate,
            root,
            existing,
        ),
{
    reveal_strlit("./");
    let dotted = replaced_char("./"@ + candidate, '\\', '/');
    let cleaned = replaced_char(candidate, '\\', '/');
    assert(dotted =~= "./"@ + cleaned);
    assert(dotted.skip(2) =~= cleaned);
    assert(dotted[0] == '.' && dotted[1] == '/');
}

/// Backslashes are read as slashes.
pub proof fn backslashes_are_slashes(
    candidate: Seq<char>,
    root: Option<Seq<char>>,
    existing: Seq<Seq<char>>,
)
    ensures
        normalized_path(replaced_char(candidate, '\\', '/'), root, existing) == normalized_path(
            candidate,
            root,
            existing,
        ),
{
    let cleaned = replaced_char(candidate, '\\', '/');
    assert(replaced_char(cleaned, '\\', '/') =~= cleaned);
}

proof fn lemma_undotted(s: Seq<char>)
    ensures
        !(without_dot_slash(s).len() >= 2 && without_dot_slash(s)[0] == '.' && without_dot_slash(
            s,
        )[1] == '/'),
    decreases s.len(),
{
    if s.len() >= 2 && s[0] == '.' && s[1] == '/' {
        lemma_undotted(s.skip(2));
    }
}

/// A path that is taken is not empty, does not begin with `./`, names no parent
/// directory, and either has a directory part, is one of the well-known files,
/// or exists in the workspace.
pub proof fn taken_paths_are_proper(
    candidate: Seq<char>,
    root: Option<Seq<char>>,
    existing: Seq<Seq<char>>,
)
    ensures
        normalized_path(candidate, root, existing) matches Some(path) ==> {
            &&& candidate.len() > 0
            &&& path.len() > 0
            &&& !(path.len() >= 2 && path[0] == '.' && path[1] == '/')
            &&& !contains_text(path, ".."@)
            &&& path.contains('/') || path == "Cargo.toml"@ || path == "Cargo.lock"@ || path
                == "README.md"@ || path == "CHANGELOG.md"@ || path == "AGENTS.md"@ || path
                == "config.example.toml"@ || (root is Some && existing.contains(path))
        },
{
    let cleaned = replaced_char(candidate, '\\', '/');
    lemma_undotted(cleaned);
    if let Some(root) = root {
        if let Some(path) = stripped_prefix(cleaned, root) {
            lemma_undotted(path);
        }
    }
}

/// A relative path that names no parent directory stands for itself, where it
/// has a directory part, is a well-known file, or exists in the workspace.
pub proof fn proper_paths_are_taken(
    path: Seq<char>,
    root: Option<Seq<char>>,
    existing: Seq<Seq<char>>,
)
    requires
        path.len() > 0,
        path[0] != '/',
        !path.contains('\\'),
        !(path.len() >= 2 && path[0] == '.' && path[1] == '/'),
        !contains_text(path, ".."@),
        path.contains('/') || path == "Cargo.toml"@ || path == "Cargo.lock"@ || path
            == "README.md"@ || path == "CHANGELOG.md"@ || path == "AGENTS.md"@ || path
            == "config.example.toml"@ || (root is Some && existing.contains(path)),
    ensures
        normalized_path(path, root, existing) == Some(path),
{
    assert forall|i: int| 0 <= i < path.len() implies path[i] != '\\' by {
        if path[i] == '\\' {
            assert(path.contains('\\'));
        }
    }
    assert(replaced_char(path, '\\', '/') =~= path);
}

/// An absolute path is taken only below the root of the workspace, and then
/// stands for the same as its relative form.
pub proof fn absolute_paths_lie_below_the_root(
    root: Seq<char>,
    rel: Seq<char>,
    existing: Seq<Seq<char>>,
    absolute: Seq<char>,
)
    requires
        root.len() > 0,
        root[0] == '/',
        root.last() != '/',
        !root.contains('\\'),
        !rel.contains('\\'),
        is_tidy(rel),
        absolute.len() > 0,
        absolute[0] == '/',
    ensures
        normalized_path(path_below(root, rel), Some(root), existing) == normalized_path(
            rel,
            Some(root),
            existing,
        ),
        normalized_path(absolute, None, existing) is None,
{
    reveal_strlit("/");
    taking_a_directory_off_undoes_joining(root, rel);
    let path = path_below(root, rel);
    assert forall|i: int| 0 <= i < path.len() implies path[i] != '\\' by {
        if path[i] == '\\' {
            if i < root.len() {
                assert(root[i] == '\\');
                assert(root.contains('\\'));
            } else if i > root.len() {
                assert(rel[i - root.len() - 1] == '\\');
                assert(rel.contains('\\'));
            }
        }
    }
    assert(replaced_char(path, '\\', '/') =~= path);
    assert forall|i: int| 0 <= i < rel.len() implies rel[i] != '\\' by {
        if rel[i] == '\\' {
            assert(rel.contains('\\'));
        }
    }
    assert(replaced_char(rel, '\\', '/') =~= rel);
    assert(path[0] == '/');
    assert(rel.len() > 0 && rel[0] != '/') by {
        lemma_next_char(rel, '/', 0);
        if rel.len() == 0 {
            assert(split_char(rel, '/')[0].len() == 0);
        } else if rel[0] == '/' {
            lemma_absolute_begins_empty(rel);
        }
    }
    let cleaned = replaced_char(absolute, '\\', '/');
    assert(cleaned[0] == '/');
}

/// A path goes below a directory behind one slash, whether or not the directory
/// is written with one; below nothing it stays as it is.
pub proof fn paths_go_below_behind_one_slash(base: Seq<char>, rel: Seq<char>)
    ensures
        path_below(Seq::empty(), rel) == rel,
        path_below(base.push('/'), rel) == base.push('/') + rel,
        base.len() > 0 && base.last() != '/' ==> path_below(base, rel) == path_below(
            base.push('/'),
            rel,
        ),
{
    reveal_strlit("/");
    assert(Seq::<char>::empty() + rel =~= rel);
    assert(base + "/"@ =~= base.push('/'));
}

} // verus!
