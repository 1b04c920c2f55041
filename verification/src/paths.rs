//! Slash-separated paths and the repository paths that a conversation mentions.
//!
//! Paths follow the rules of `std::path` on Unix: empty and `.` segments inside
//! a path do not count, a leading `.` is a component of its own, and a path that
//! begins with `/` is absolute.

use vstd::prelude::*;

use crate::text::{
    contains, contains_text, from_chars, join, joined, list_has, opt_text, replace_char,
    replaced_char, same_text, split_at_char, split_char, texts, to_chars,
};

verus! {

/// A workspace: its root directory, and the paths below the root, relative to
/// it, that are known to exist. Only those without a slash are ever asked for.
pub struct Workspace {
    pub root: String,
    pub existing: Vec<String>,
}

// ---------------------------------------------------------------------------
// Prefixes
// ---------------------------------------------------------------------------

/// A segment that does not count as a component inside a path.
pub open spec fn is_null_segment(seg: Seq<char>) -> bool {
    seg.len() == 0 || seg == seq!['.']
}

/// `path` begins at the root directory.
pub open spec fn is_absolute(path: Seq<char>) -> bool {
    path.len() > 0 && path[0] == '/'
}

/// Matches the components of `b` from segment `j` on against those of `a` from
/// segment `i` on. Gives the segment of `a` at which the rest begins.
pub open spec fn match_segments(a: Seq<Seq<char>>, i: int, b: Seq<Seq<char>>, j: int) -> Option<int>
    decreases b.len() - j, a.len() - i,
{
    if j >= b.len() {
        Some(i)
    } else if is_null_segment(b[j]) {
        match_segments(a, i, b, j + 1)
    } else if i >= a.len() {
        None
    } else if is_null_segment(a[i]) {
        match_segments(a, i + 1, b, j)
    } else if a[i] == b[j] {
        match_segments(a, i + 1, b, j + 1)
    } else {
        None
    }
}

/// The first segment from `i` on that counts, or the number of segments.
pub open spec fn first_component(a: Seq<Seq<char>>, i: int) -> int
    decreases a.len() - i,
{
    if i < a.len() && is_null_segment(a[i]) {
        first_component(a, i + 1)
    } else {
        i
    }
}

/// One past the last segment between `i` and `k` that counts, or `i`.
pub open spec fn components_end(a: Seq<Seq<char>>, i: int, k: int) -> int
    decreases k - i,
{
    if k > i && is_null_segment(a[k - 1]) {
        components_end(a, i, k - 1)
    } else {
        k
    }
}

/// The path made of the segments from `i` on, without the segments at either
/// end that do not count.
pub open spec fn segments_path(a: Seq<Seq<char>>, i: int) -> Seq<char> {
    let lo = first_component(a, i);
    joined(a.subrange(lo, components_end(a, lo, a.len() as int)), seq!['/'])
}

/// `path` relative to `base`, when the components of `base` begin those of
/// `path`.
pub open spec fn stripped_prefix(path: Seq<char>, base: Seq<char>) -> Option<Seq<char>> {
    let a = split_char(path, '/');
    let b = split_char(base, '/');
    if base.len() == 0 {
        // The empty path has no component: only the end of `path` is tidied.
        let whole = joined(a.subrange(0, components_end(a, 1, a.len() as int)), seq!['/']);
        if whole.len() == 0 && is_absolute(path) {
            Some(seq!['/'])
        } else {
            Some(whole)
        }
    } else if is_absolute(base) != is_absolute(path) {
        None
    } else if !is_absolute(base) && (a[0] == seq!['.']) != (b[0] == seq!['.']) {
        None
    } else {
        let start: int = if is_absolute(base) || b[0] == seq!['.'] {
            1
        } else {
            0
        };
        match match_segments(a, start, b, start) {
            Some(i) => Some(segments_path(a, i)),
            None => None,
        }
    }
}

fn segment_is_null(seg: &String) -> (res: bool)
    ensures
        res == is_null_segment(seg@),
{
    let chars = to_chars(seg.as_str());
    if chars.len() == 0 {
        true
    } else if chars.len() == 1 && chars[0] == '.' {
        proof { assert(seg@ =~= seq!['.']); }
        true
    } else {
        false
    }
}

fn path_is_absolute(path: &str) -> (res: bool)
    ensures
        res == is_absolute(path@),
{
    let chars = to_chars(path);
    chars.len() > 0 && chars[0] == '/'
}

fn find_segment_match(a: &Vec<String>, start: usize, b: &Vec<String>) -> (res: Option<usize>)
    requires
        start <= a@.len(),
        start <= b@.len(),
    ensures
        match res {
            Some(i) => match_segments(texts(a@), start as int, texts(b@), start as int) == Some(
                i as int,
            ) && i <= a@.len(),
            None => match_segments(texts(a@), start as int, texts(b@), start as int) is None,
        },
{
    let ghost at = texts(a@);
    let ghost bt = texts(b@);
    let mut i: usize = start;
    let mut j: usize = start;
    while j < b.len()
        invariant
            i <= a@.len(),
            j <= b@.len(),
            at == texts(a@),
            bt == texts(b@),
            match_segments(at, start as int, bt, start as int) == match_segments(
                at,
                i as int,
                bt,
                j as int,
            ),
        decreases a@.len() - i + b@.len() - j,
    {
        if segment_is_null(&b[j]) {
            j += 1;
        } else if i >= a.len() {
            return None;
        } else if segment_is_null(&a[i]) {
            i += 1;
        } else if same_text(a[i].as_str(), b[j].as_str()) {
            i += 1;
            j += 1;
        } else {
            return None;
        }
    }
    Some(i)
}

fn find_components_end(a: &Vec<String>, lo: usize) -> (res: usize)
    requires
        lo <= a@.len(),
    ensures
        res == components_end(texts(a@), lo as int, a@.len() as int),
        lo <= res <= a@.len(),
{
    let mut k: usize = a.len();
    while k > lo
        invariant
            lo <= k <= a@.len(),
            components_end(texts(a@), lo as int, a@.len() as int) == components_end(
                texts(a@),
                lo as int,
                k as int,
            ),
        decreases k,
    {
        if !segment_is_null(&a[k - 1]) {
            return k;
        }
        k -= 1;
    }
    k
}

fn join_segments(a: &Vec<String>, lo: usize, hi: usize) -> (res: String)
    requires
        lo <= hi <= a@.len(),
    ensures
        res@ == joined(texts(a@).subrange(lo as int, hi as int), seq!['/']),
{
    let mut parts: Vec<String> = Vec::new();
    let mut k: usize = lo;
    while k < hi
        invariant
            lo <= k <= hi <= a@.len(),
            texts(parts@) == texts(a@).subrange(lo as int, k as int),
        decreases hi - k,
    {
        let ghost before = parts@;
        let part = a[k].clone();
        parts.push(part);
        k += 1;
        proof {
            assert(texts(parts@) =~= texts(before).push(part@));
            assert(texts(a@).subrange(lo as int, k as int) =~= texts(a@).subrange(
                lo as int,
                k - 1,
            ).push(part@));
        }
    }
    let mut slash = String::new();
    slash.push('/');
    proof { assert(slash@ =~= seq!['/']); }
    join(&parts, slash.as_str())
}

/// `path` relative to `base`, when the components of `base` begin those of
/// `path`.
pub fn strip_prefix(path: &str, base: &str) -> (res: Option<String>)
    ensures
        opt_text(res) == stripped_prefix(path@, base@),
{
    let a = split_at_char(path, '/');
    let b = split_at_char(base, '/');
    if base.is_empty() {
        let hi: usize = find_components_end(&a, 1);
        let whole = join_segments(&a, 0, hi);
        if whole.as_str().is_empty() && path_is_absolute(path) {
            let mut root = String::new();
            root.push('/');
            proof { assert(root@ =~= seq!['/']); }
            return Some(root);
        }
        return Some(whole);
    }
    let absolute = path_is_absolute(base);
    if absolute != path_is_absolute(path) {
        return None;
    }
    let mut dot = String::new();
    dot.push('.');
    proof {
        assert(dot@ =~= seq!['.']);
        assert(texts(a@)[0] == a@[0]@);
        assert(texts(b@)[0] == b@[0]@);
    }
    let a_dot = same_text(a[0].as_str(), dot.as_str());
    let b_dot = same_text(b[0].as_str(), dot.as_str());
    if !absolute && a_dot != b_dot {
        return None;
    }
    let start: usize = if absolute || b_dot {
        1
    } else {
        0
    };
    match find_segment_match(&a, start, &b) {
        None => None,
        Some(i) => {
            let mut lo: usize = i;
            while lo < a.len()
                invariant
                    i <= lo <= a@.len(),
                    first_component(texts(a@), i as int) == first_component(texts(a@), lo as int),
                ensures
                    i <= lo <= a@.len(),
                    first_component(texts(a@), i as int) == lo,
                decreases a@.len() - lo,
            {
                if !segment_is_null(&a[lo]) {
                    break;
                }
                lo += 1;
            }
            let hi = find_components_end(&a, lo);
            Some(join_segments(&a, lo, hi))
        },
    }
}

// ---------------------------------------------------------------------------
// Candidates
// ---------------------------------------------------------------------------

/// Files that are known by their name alone.
pub open spec fn is_root_file(path: Seq<char>) -> bool {
    ||| path == "Cargo.toml"@
    ||| path == "Cargo.lock"@
    ||| path == "README.md"@
    ||| path == "CHANGELOG.md"@
    ||| path == "AGENTS.md"@
    ||| path == "config.example.toml"@
}

/// A path that reads as one of a repository: a well-known file, or any path
/// with a directory part.
pub open spec fn reads_repo_relative(path: Seq<char>) -> bool {
    is_root_file(path) || path.contains('/')
}

/// Whether a path reads as one of a repository.
pub fn looks_repo_relative(path: &str) -> (res: bool)
    ensures
        res == reads_repo_relative(path@),
{
    if same_text(path, "Cargo.toml") || same_text(path, "Cargo.lock") || same_text(
        path,
        "README.md",
    ) || same_text(path, "CHANGELOG.md") || same_text(path, "AGENTS.md") || same_text(
        path,
        "config.example.toml",
    ) {
        return true;
    }
    has_char(path, '/')
}

/// Whether a character occurs in a text.
pub fn has_char(s: &str, c: char) -> (res: bool)
    ensures
        res == s@.contains(c),
{
    let chars = to_chars(s);
    let mut i: usize = 0;
    while i < chars.len()
        invariant
            i <= chars@.len(),
            chars@ == s@,
            forall|j: int| 0 <= j < i ==> s@[j] != c,
        decreases chars@.len() - i,
    {
        if chars[i] == c {
            return true;
        }
        i += 1;
    }
    false
}

/// `s` without the `./` that it may begin with, however often.
pub open spec fn without_dot_slash(s: Seq<char>) -> Seq<char>
    decreases s.len(),
{
    if s.len() >= 2 && s[0] == '.' && s[1] == '/' {
        without_dot_slash(s.skip(2))
    } else {
        s
    }
}

fn drop_dot_slash(s: &str) -> (res: String)
    ensures
        res@ == without_dot_slash(s@),
{
    let chars = to_chars(s);
    let total: usize = chars.len();
    let mut i: usize = 0;
    proof { assert(s@.skip(0) =~= s@); }
    while total - i >= 2 && chars[i] == '.' && chars[i + 1] == '/'
        invariant
            chars@ == s@,
            total == chars@.len(),
            i <= total,
            without_dot_slash(s@) == without_dot_slash(s@.skip(i as int)),
        decreases total - i,
    {
        proof { assert(s@.skip(i as int).skip(2) =~= s@.skip(i + 2)); }
        i += 2;
    }
    proof {
        assert(s@.skip(i as int) =~= s@.subrange(i as int, total as int));
    }
    from_chars(&chars, i, total)
}

/// The path that a candidate stands for, relative to the workspace: backslashes
/// are read as slashes, an absolute path must lie below the root, and leading
/// `./` is dropped.
pub open spec fn relative_candidate(candidate: Seq<char>, root: Option<Seq<char>>) -> Option<Seq<char>> {
    let cleaned = replaced_char(candidate, '\\', '/');
    if is_absolute(cleaned) {
        match root {
            Some(root) => match stripped_prefix(cleaned, root) {
                Some(path) => Some(without_dot_slash(path)),
                None => None,
            },
            None => None,
        }
    } else {
        Some(without_dot_slash(cleaned))
    }
}

/// The normal form of a path candidate. A candidate is rejected when it is
/// empty, lies outside the workspace, names a parent directory, or neither
/// exists in the workspace nor reads as a path of a repository.
pub open spec fn normalized_path(
    candidate: Seq<char>,
    root: Option<Seq<char>>,
    existing: Seq<Seq<char>>,
) -> Option<Seq<char>> {
    match relative_candidate(candidate, root) {
        Some(rel) => if candidate.len() == 0 || rel.len() == 0 || contains_text(rel, ".."@) {
            None
        } else if reads_repo_relative(rel) || (root is Some && existing.contains(rel)) {
            Some(rel)
        } else {
            None
        },
        None => None,
    }
}

/// Of the existing paths only those without a slash matter: the others read as
/// paths of a repository whether they exist or not.
pub proof fn only_plain_names_need_exist(
    candidate: Seq<char>,
    root: Option<Seq<char>>,
    existing: Seq<Seq<char>>,
    names: Seq<Seq<char>>,
)
    requires
        forall|name: Seq<char>|
            !name.contains('/') ==> #[trigger] existing.contains(name) == names.contains(name),
    ensures
        normalized_path(candidate, root, existing) == normalized_path(candidate, root, names),
{
}

/// The root of an optional workspace.
pub open spec fn workspace_root(workspace: Option<&Workspace>) -> Option<Seq<char>> {
    match workspace {
        Some(w) => Some(w.root@),
        None => None,
    }
}

/// The paths known to exist in an optional workspace.
pub open spec fn workspace_paths(workspace: Option<&Workspace>) -> Seq<Seq<char>> {
    match workspace {
        Some(w) => texts(w.existing@),
        None => Seq::empty(),
    }
}

/// The normal form of a path candidate in a workspace.
pub open spec fn workspace_path(candidate: Seq<char>, workspace: Option<&Workspace>) -> Option<Seq<char>> {
    normalized_path(candidate, workspace_root(workspace), workspace_paths(workspace))
}

/// Brings a path candidate into the form that working sets hold.
pub fn normalize_path_candidate(candidate: &str, workspace: Option<&Workspace>) -> (res: Option<String>)
    ensures
        opt_text(res) == workspace_path(candidate@, workspace),
{
    if candidate.is_empty() {
        return None;
    }
    let cleaned = replace_char(candidate, '\\', '/');
    let path = if path_is_absolute(cleaned.as_str()) {
        match workspace {
            None => return None,
            Some(w) => match strip_prefix(cleaned.as_str(), w.root.as_str()) {
                Some(p) => p,
                None => return None,
            },
        }
    } else {
        cleaned
    };
    let rel = drop_dot_slash(path.as_str());
    if rel.as_str().is_empty() || contains(rel.as_str(), "..") {
        return None;
    }
    if looks_repo_relative(rel.as_str()) {
        return Some(rel);
    }
    match workspace {
        Some(w) => if list_has(&w.existing, rel.as_str()) {
            Some(rel)
        } else {
            None
        },
        None => None,
    }
}

// ---------------------------------------------------------------------------
// Joining
// ---------------------------------------------------------------------------

/// A relative path below a directory.
pub open spec fn path_below(base: Seq<char>, rel: Seq<char>) -> Seq<char> {
    if base.len() == 0 || base.last() == '/' {
        base + rel
    } else {
        base + "/"@ + rel
    }
}

/// Puts a relative path below a directory.
pub fn join_path(base: &str, rel: &str) -> (res: String)
    ensures
        res@ == path_below(base@, rel@),
{
    let total = base.unicode_len();
    let mut out = base.to_owned();
    if total > 0 && base.get_char(total - 1) != '/' {
        out.append("/");
    }
    out.append(rel);
    out
}

} // verus!
