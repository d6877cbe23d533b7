//! Session tokens: a server that starts again in the same working directory knows its own token
//! and takes its running emulator back; a token of another directory is never used again.

use vstd::prelude::*;
use crate::encoding;
use crate::path_safety;
use crate::text;

verus! {

/// The mark of a working directory: the start of its digest.
pub open spec fn mark_of(directory: Seq<u8>) -> Seq<char> {
    encoding::hex_text(encoding::sha256_of(directory)).take(16)
}

/// The mark of a working directory.
pub fn directory_mark(directory: &[u8]) -> (r: String)
    ensures
        r@ == mark_of(directory@),
        r@.len() == 16,
{
    let digest = encoding::sha256_digest(directory);
    let hex = encoding::hex_encode(digest.as_slice());
    let chars = text::chars_of(hex.as_str());
    let r = text::slice_text(chars.as_slice(), 0, 16);
    assert(hex@.subrange(0, 16) =~= hex@.take(16));
    r
}

/// A token of a directory: its mark, and what makes the token unique.
pub open spec fn token_of(mark: Seq<char>, unique: Seq<char>) -> Seq<char> {
    (mark + "-"@) + unique
}

/// Makes a token of a directory.
pub fn new_session_token(mark: &str, unique: &str) -> (r: String)
    ensures
        r@ == token_of(mark@, unique@),
{
    text::join(text::join(mark, "-").as_str(), unique)
}

/// Whether a token is one of the directory with a mark.
pub open spec fn is_own(token: Seq<char>, mark: Seq<char>) -> bool {
    text::has_prefix(token, mark + "-"@)
}

/// Whether a token is one of the directory with a mark.
pub fn session_token_is_own(token: &str, mark: &str) -> (r: bool)
    ensures
        r == is_own(token@, mark@),
{
    text::starts_with(token, text::join(mark, "-").as_str())
}

/// The token to be used again: the one that was kept, where it is an own one.
pub fn reusable_session_token(kept: Option<&str>, mark: &str) -> (r: Option<String>)
    ensures
        match kept {
            Some(s) if is_own(text::trimmed(s@), mark@) => r matches Some(t) && t@
                == text::trimmed(s@),
            _ => r is None,
        },
{
    match kept {
        Some(s) => {
            let token = text::trim(s);
            if session_token_is_own(token.as_str(), mark) {
                Some(token)
            } else {
                None
            }
        },
        None => None,
    }
}

/// The file in which the token of a port is kept, below a directory.
pub fn session_token_path(directory: &str, port: u16) -> (r: String)
    ensures
        r@ == path_safety::below(
            directory@,
            ("emucap-session-"@ + text::decimal(port as int)) + ".token"@,
        ),
{
    let name = text::join("emucap-session-", text::decimal_of(port as u64).as_str());
    path_safety::join_below(directory, text::join(name.as_str(), ".token").as_str())
}

/// A token is known again by the directory that made it.
pub proof fn made_tokens_are_own(mark: Seq<char>, unique: Seq<char>)
    ensures
        is_own(token_of(mark, unique), mark),
{
    let token = token_of(mark, unique);
    assert(token.take((mark + "-"@).len() as int) =~= mark + "-"@);
}

/// No token is one of two directories: marks of one length that differ share no token.
pub proof fn foreign_tokens_are_not_own(token: Seq<char>, mark: Seq<char>, other: Seq<char>)
    requires
        mark.len() == other.len(),
        mark != other,
        is_own(token, mark),
    ensures
        !is_own(token, other),
{
    if is_own(token, other) {
        assert(mark =~= (mark + "-"@).take(mark.len() as int));
        assert(other =~= (other + "-"@).take(other.len() as int));
        assert(mark + "-"@ == other + "-"@);
    }
}

} // verus!
