//! Where inputs are stored that are too long to send.

use vstd::prelude::*;

use crate::text::first_chars;

verus! {

/// The directory of stored inputs, below the workspace.
pub const PASTES_DIR: &'static str = ".deepseek/pastes";

/// How a stored input begins, with its directory.
pub const PASTE_PREFIX: &'static str = ".deepseek/pastes/paste-";

/// A decimal digit or a sign.
pub open spec fn is_timestamp_char(c: char) -> bool {
    ('0' <= c <= '9') || c == '-' || c == '+'
}

/// A lowercase hexadecimal digit.
pub open spec fn is_hex_char(c: char) -> bool {
    ('0' <= c <= '9') || ('a' <= c <= 'f')
}

/// `chrono::Local::now` and its `format("%Y-%m-%d-%H%M%S")`: which time it is
/// depends on the clock and the time zone; the text is made of digits and
/// signs, at least four for the year and two for each of the other parts.
#[verifier::external_body]
fn local_timestamp() -> (res: String)
    ensures
        res@.len() >= 17,
        forall|i: int| 0 <= i < res@.len() ==> is_timestamp_char(#[trigger] res@[i]),
{
    chrono::Local::now().format("%Y-%m-%d-%H%M%S").to_string()
}

/// `uuid::Uuid::new_v4` and its text: which identifier it is depends on chance;
/// the text has 36 characters, hexadecimal digits in groups set off by hyphens,
/// the first group of eight digits.
#[verifier::external_body]
fn random_identifier() -> (res: String)
    ensures
        res@.len() == 36,
        forall|i: int| 0 <= i < 8 ==> is_hex_char(#[trigger] res@[i]),
{
    uuid::Uuid::new_v4().to_string()
}

/// The path of an input stored at a time, told from others by the beginning of
/// an identifier.
pub open spec fn paste_path(timestamp: Seq<char>, identifier: Seq<char>) -> Seq<char> {
    PASTE_PREFIX@ + timestamp + "-"@ + first_chars(identifier, 8) + ".md"@
}

/// The path of an input stored at a time, relative to the workspace.
pub fn paste_rel_path(timestamp: &str, identifier: &str) -> (res: String)
    ensures
        res@ == paste_path(timestamp@, identifier@),
{
    let mut out = String::new();
    out.append(PASTE_PREFIX);
    out.append(timestamp);
    out.append("-");
    let total = identifier.unicode_len();
    let end: usize = if total < 8 {
        total
    } else {
        8
    };
    proof {
        assert(identifier@.subrange(0, end as int) =~= first_chars(identifier@, 8));
    }
    out.append(identifier.substring_char(0, end));
    out.append(".md");
    out
}

/// A path for an input that is stored now.
pub fn new_paste_path() -> (res: String)
    ensures
        exists|timestamp: Seq<char>, identifier: Seq<char>|
            res@ == #[trigger] paste_path(timestamp, identifier) && timestamp.len() >= 17
                && identifier.len() == 36 && (forall|i: int|
                0 <= i < timestamp.len() ==> is_timestamp_char(#[trigger] timestamp[i])) && (forall|
                i: int,
            |
                0 <= i < 8 ==> is_hex_char(#[trigger] identifier[i])),
{
    let timestamp = local_timestamp();
    let identifier = random_identifier();
    paste_rel_path(timestamp.as_str(), identifier.as_str())
}

} // verus!
