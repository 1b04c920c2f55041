//! Media attachments that the composer's text refers to.
//!
//! An attachment stands in the text as `[Attached kind: path]` or
//! `[Attached kind: description at path]`, on one line.

use vstd::prelude::*;

use crate::text::{
    find_chars, find_last_chars, find_last_text, find_next_char, find_text, from_chars, is_blank,
    lemma_find_text, lemma_next_char, next_char, occurs_at, to_chars, trim, trimmed,
};

verus! {

/// How an attachment begins.
pub const ATTACHMENT_PREFIX: &'static str = "[Attached ";

/// What stands between a kind and what follows.
pub const KIND_SEPARATOR: &'static str = ": ";

/// What stands between a description and a path.
pub const PATH_SEPARATOR: &'static str = " at ";

// ---------------------------------------------------------------------------
// Writing
// ---------------------------------------------------------------------------

/// The text that stands for an attachment. A blank description is left out.
pub open spec fn attachment_text(
    kind: Seq<char>,
    path: Seq<char>,
    description: Option<Seq<char>>,
) -> Seq<char> {
    match description {
        Some(d) if trimmed(d).len() > 0 => ATTACHMENT_PREFIX@ + kind + KIND_SEPARATOR@ + trimmed(d)
            + PATH_SEPARATOR@ + path + "]"@,
        _ => ATTACHMENT_PREFIX@ + kind + KIND_SEPARATOR@ + path + "]"@,
    }
}

/// The text of an optional borrowed string.
pub open spec fn opt_str(o: Option<&str>) -> Option<Seq<char>> {
    match o {
        Some(s) => Some(s@),
        None => None,
    }
}

/// The text that stands for an attachment.
pub fn media_attachment_reference(kind: &str, path: &str, description: Option<&str>) -> (res: String)
    ensures
        res@ == attachment_text(kind@, path@, opt_str(description)),
{
    let mut out = String::new();
    out.append(ATTACHMENT_PREFIX);
    out.append(kind);
    out.append(KIND_SEPARATOR);
    if let Some(description) = description {
        if !is_blank(description) {
            let text = trim(description);
            out.append(text.as_str());
            out.append(PATH_SEPARATOR);
        }
    }
    out.append(path);
    out.append("]");
    out
}

// ---------------------------------------------------------------------------
// Reading
// ---------------------------------------------------------------------------

/// An attachment that a text refers to, with its character positions.
#[derive(Debug)]
pub struct MediaAttachmentReference {
    pub kind: String,
    pub path: String,
    pub start: usize,
    pub end: usize,
}

/// The mathematical form of a [`MediaAttachmentReference`].
#[verifier::ext_equal]
pub struct AttachmentModel {
    pub kind: Seq<char>,
    pub path: Seq<char>,
    pub start: int,
    pub end: int,
}

impl View for MediaAttachmentReference {
    type V = AttachmentModel;

    open spec fn view(&self) -> AttachmentModel {
        AttachmentModel {
            kind: self.kind@,
            path: self.path@,
            start: self.start as int,
            end: self.end as int,
        }
    }
}

/// The models of a list of attachments.
pub open spec fn attachment_models(refs: Seq<MediaAttachmentReference>) -> Seq<AttachmentModel> {
    refs.map_values(|r: MediaAttachmentReference| r@)
}

/// The path in what follows an attachment's kind: what stands behind the last
/// separator, or all of it.
pub open spec fn attachment_path(rest: Seq<char>) -> Seq<char> {
    match find_last_text(rest, PATH_SEPARATOR@, rest.len() as int) {
        Some(i) => rest.skip(i + PATH_SEPARATOR@.len()),
        None => rest,
    }
}

/// The attachment that begins at `i`, where [`ATTACHMENT_PREFIX`] stands: its
/// bracket closes on the same line, and its kind is set off.
pub open spec fn attachment_at(s: Seq<char>, i: int) -> Option<AttachmentModel> {
    let from = i + ATTACHMENT_PREFIX@.len();
    let close = next_char(s, ']', from);
    if close < s.len() && close < next_char(s, '\n', from) {
        let body = s.subrange(from, close);
        match find_text(body, KIND_SEPARATOR@, 0) {
            Some(k) => Some(
                AttachmentModel {
                    kind: body.take(k),
                    path: attachment_path(body.skip(k + KIND_SEPARATOR@.len())),
                    start: i,
                    end: close + 1,
                },
            ),
            None => None,
        }
    } else {
        None
    }
}

/// The attachments that begin at or after `from`, one behind the other.
pub open spec fn attachments_from(s: Seq<char>, from: int) -> Seq<AttachmentModel>
    decreases s.len() + 1 - from,
{
    match find_text(s, ATTACHMENT_PREFIX@, from) {
        Some(i) => if from <= i < s.len() {
            match attachment_at(s, i) {
                Some(r) => if i < r.end <= s.len() {
                    seq![r] + attachments_from(s, r.end)
                } else {
                    Seq::empty()
                },
                None => attachments_from(s, i + 1),
            }
        } else {
            Seq::empty()
        },
        None => Seq::empty(),
    }
}

/// The attachments that a text refers to.
pub open spec fn attachments_in(s: Seq<char>) -> Seq<AttachmentModel> {
    attachments_from(s, 0)
}

/// `s` holds none of the characters that end an attachment.
pub open spec fn fits_attachment(s: Seq<char>) -> bool {
    forall|i: int| 0 <= i < s.len() ==> s[i] != ']' && s[i] != '\n'
}

proof fn lemma_separator_lengths()
    ensures
        ATTACHMENT_PREFIX@.len() == 10,
        KIND_SEPARATOR@.len() == 2,
        KIND_SEPARATOR@[0] == ':',
        PATH_SEPARATOR@.len() == 4,
        "]"@ == seq![']'],
{
    reveal_strlit("[Attached ");
    reveal_strlit(": ");
    reveal_strlit(" at ");
    reveal_strlit("]");
    assert("]"@ =~= seq![']']);
}

/// The attachments found lie in the text, one behind the other.
pub proof fn attachments_lie_in_order(s: Seq<char>, from: int, a: int, b: int)
    requires
        0 <= from <= s.len(),
        0 <= a < b < attachments_from(s, from).len(),
    ensures
        from <= attachments_from(s, from)[a].start < attachments_from(s, from)[a].end
            <= attachments_from(s, from)[b].start < attachments_from(s, from)[b].end <= s.len(),
{
    lemma_attachments_bounded(s, from, a);
    lemma_attachments_ordered(s, from, a, b);
    lemma_attachments_bounded(s, from, b);
}

pub(crate) proof fn lemma_attachments_bounded(s: Seq<char>, from: int, k: int)
    requires
        0 <= from <= s.len(),
        0 <= k < attachments_from(s, from).len(),
    ensures
        from <= attachments_from(s, from)[k].start < attachments_from(s, from)[k].end <= s.len(),
    decreases s.len() + 1 - from,
{
    let i = find_text(s, ATTACHMENT_PREFIX@, from)->0;
    match attachment_at(s, i) {
        Some(r) => {
            if k > 0 {
                lemma_attachments_bounded(s, r.end, k - 1);
            }
        },
        None => {
            lemma_attachments_bounded(s, i + 1, k);
        },
    }
}

proof fn lemma_attachments_ordered(s: Seq<char>, from: int, a: int, b: int)
    requires
        0 <= from <= s.len(),
        0 <= a < b < attachments_from(s, from).len(),
    ensures
        attachments_from(s, from)[a].end <= attachments_from(s, from)[b].start,
    decreases s.len() + 1 - from,
{
    let i = find_text(s, ATTACHMENT_PREFIX@, from)->0;
    match attachment_at(s, i) {
        Some(r) => {
            if a > 0 {
                lemma_attachments_ordered(s, r.end, a - 1, b - 1);
            } else {
                lemma_attachments_bounded(s, r.end, b - 1);
            }
        },
        None => {
            lemma_attachments_ordered(s, i + 1, a, b);
        },
    }
}

/// What is written for an attachment is read as that attachment again.
pub proof fn written_attachments_are_read_back(kind: Seq<char>, path: Seq<char>)
    requires
        fits_attachment(kind),
        fits_attachment(path),
        forall|i: int| 0 <= i < kind.len() ==> kind[i] != ':',
        find_last_text(path, PATH_SEPARATOR@, path.len() as int) is None,
    ensures
        attachments_in(attachment_text(kind, path, None)) == seq![
            AttachmentModel {
                kind,
                path,
                start: 0,
                end: attachment_text(kind, path, None).len() as int,
            },
        ],
{
    lemma_separator_lengths();
    let s = attachment_text(kind, path, None);
    let r = AttachmentModel { kind, path, start: 0, end: s.len() as int };
    lemma_written_attachment(kind, path);
    assert(find_text(s, ATTACHMENT_PREFIX@, 0) == Some(0int));
    assert(attachments_from(s, s.len() as int) =~= Seq::empty()) by {
        lemma_find_text(s, ATTACHMENT_PREFIX@, s.len() as int);
    }
    assert(attachments_from(s, 0) =~= seq![r] + attachments_from(s, s.len() as int));
}

proof fn lemma_written_attachment(kind: Seq<char>, path: Seq<char>)
    requires
        fits_attachment(kind),
        fits_attachment(path),
        forall|i: int| 0 <= i < kind.len() ==> kind[i] != ':',
        find_last_text(path, PATH_SEPARATOR@, path.len() as int) is None,
    ensures
        ({
            let s = attachment_text(kind, path, None);
            &&& occurs_at(s, ATTACHMENT_PREFIX@, 0)
            &&& attachment_at(s, 0) == Some(
                AttachmentModel { kind, path, start: 0, end: s.len() as int },
            )
        }),
{
    lemma_separator_lengths();
    let s = attachment_text(kind, path, None);
    let body = kind + KIND_SEPARATOR@ + path;
    let close = s.len() - 1;
    assert(s.subrange(0, 10) =~= ATTACHMENT_PREFIX@);
    assert(s.subrange(10, close) =~= body);
    lemma_written_body(kind, path);
    assert forall|i: int| 10 <= i < close implies s[i] != ']' && s[i] != '\n' by {
        assert(s[i] == s.subrange(10, close)[i - 10]);
    }
    assert(s[close] == ']');
    lemma_next_char(s, ']', 10);
    lemma_next_char(s, '\n', 10);
    assert(body.take(kind.len() as int) =~= kind);
    assert(body.skip(kind.len() as int + 2) =~= path);
}

proof fn lemma_written_body(kind: Seq<char>, path: Seq<char>)
    requires
        fits_attachment(kind),
        fits_attachment(path),
        forall|i: int| 0 <= i < kind.len() ==> kind[i] != ':',
    ensures
        fits_attachment(kind + KIND_SEPARATOR@ + path),
        find_text(kind + KIND_SEPARATOR@ + path, KIND_SEPARATOR@, 0) == Some(kind.len() as int),
{
    reveal_strlit(": ");
    let n = kind.len() as int;
    let body = kind + KIND_SEPARATOR@ + path;
    assert forall|i: int| 0 <= i < body.len() implies body[i] != ']' && body[i] != '\n' by {
        if i < n {
            assert(body[i] == kind[i]);
        } else if i < n + 2 {
            assert(body[i] == KIND_SEPARATOR@[i - n]);
        } else {
            assert(body[i] == path[i - n - 2]);
        }
    }
    assert(body.subrange(n, n + 2) =~= KIND_SEPARATOR@);
    lemma_find_text(body, KIND_SEPARATOR@, 0);
    assert forall|i: int| 0 <= i < n implies !occurs_at(body, KIND_SEPARATOR@, i) by {
        if occurs_at(body, KIND_SEPARATOR@, i) {
            assert(body.subrange(i, i + 2)[0] == KIND_SEPARATOR@[0]);
            assert(body[i] == kind[i]);
        }
    }
    assert(occurs_at(body, KIND_SEPARATOR@, n));
}

fn read_attachment(chars: &Vec<char>, i: usize) -> (res: Option<MediaAttachmentReference>)
    requires
        occurs_at(chars@, ATTACHMENT_PREFIX@, i as int),
    ensures
        match res {
            Some(r) => attachment_at(chars@, i as int) == Some(r@) && i < r.end <= chars@.len(),
            None => attachment_at(chars@, i as int) is None,
        },
{
    proof { lemma_separator_lengths(); }
    let total: usize = chars.len();
    proof { assert(i + 10 <= total); }
    let from: usize = i + 10;
    let close = find_next_char(chars, ']', from);
    let line = find_next_char(chars, '\n', from);
    if close >= chars.len() || close >= line {
        return None;
    }
    let body = to_chars(from_chars(chars, from, close).as_str());
    match find_chars(&body, &to_chars(KIND_SEPARATOR), 0) {
        None => None,
        Some(k) => {
            proof { lemma_find_text(body@, KIND_SEPARATOR@, 0); }
            let kind = from_chars(&body, 0, k);
            let rest = to_chars(from_chars(&body, k + 2, body.len()).as_str());
            let path_start: usize = match find_last_chars(&rest, &to_chars(PATH_SEPARATOR)) {
                Some(p) => p + 4,
                None => 0,
            };
            let path = from_chars(&rest, path_start, rest.len());
            proof {
                assert(kind@ =~= body@.take(k as int));
                assert(rest@ =~= body@.skip(k + 2));
                assert(path@ =~= attachment_path(rest@));
            }
            Some(MediaAttachmentReference { kind, path, start: i, end: close + 1 })
        },
    }
}

/// The attachments that a text refers to, in order.
pub fn media_attachment_references(input: &str) -> (res: Vec<MediaAttachmentReference>)
    ensures
        attachment_models(res@) == attachments_in(input@),
{
    let chars = to_chars(input);
    let prefix = to_chars(ATTACHMENT_PREFIX);
    let total: usize = chars.len();
    let mut out: Vec<MediaAttachmentReference> = Vec::new();
    let mut from: usize = 0;
    proof {
        lemma_separator_lengths();
        assert(attachment_models(out@) =~= Seq::empty());
    }
    loop
        invariant
            chars@ == input@,
            prefix@ == ATTACHMENT_PREFIX@,
            ATTACHMENT_PREFIX@.len() == 10,
            from <= chars@.len() == total,
            attachment_models(out@) + attachments_from(input@, from as int) =~= attachments_in(
                input@,
            ),
        decreases chars@.len() - from,
    {
        let ghost before = out@;
        proof { lemma_find_text(input@, ATTACHMENT_PREFIX@, from as int); }
        match find_chars(&chars, &prefix, from) {
            None => {
                return out;
            },
            Some(i) => {
                match read_attachment(&chars, i) {
                    Some(r) => {
                        from = r.end;
                        out.push(r);
                        proof {
                            assert(attachment_models(out@) =~= attachment_models(before).push(r@));
                            assert(attachment_models(before) + (seq![r@] + attachments_from(
                                input@,
                                r.end as int,
                            )) =~= attachment_models(out@) + attachments_from(
                                input@,
                                r.end as int,
                            ));
                        }
                    },
                    None => {
                        from = i + 1;
                    },
                }
            },
        }
    }
}

} // verus!
