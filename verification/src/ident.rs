//! Identifiers: drawing fresh ones and reading them from text.

use vstd::prelude::*;
use crate::record::opt_text;

verus! {

/// The canonical text of the identifier that `text` denotes, or `None` where
/// `text` denotes none. It names what `uuid::Uuid::parse_str` makes of the
/// text, printed the way the `uuid` crate prints an identifier: the parser
/// takes several spellings, and all spellings of one identifier have one
/// canonical text.
pub uninterp spec fn canonical_id(text: Seq<char>) -> Option<Seq<char>>;

/// Draws a fresh identifier with `uuid::Uuid::new_v4` and prints it with the
/// crate's `Display`. The draw is random, so nothing is claimed about which
/// identifier comes back, nor that two draws differ; the one claim is that
/// its printed form reads back, through the crate's parser, as itself. The
/// draw fails only where the system has no random bytes to give.
#[verifier::external_body]
pub(crate) fn fresh_id() -> (id: String)
    ensures
        canonical_id(id@) == Some(id@),
{
    uuid::Uuid::new_v4().to_string()
}

/// Reads `text` with `uuid::Uuid::parse_str` and prints the identifier it
/// found with the crate's `Display`. The result is `None` exactly where the
/// parser rejects the text, and a printed identifier reads back as itself.
#[verifier::external_body]
pub(crate) fn read_id(text: &str) -> (id: Option<String>)
    ensures
        canonical_id(text@) == opt_text(id),
        id matches Some(found) ==> canonical_id(found@) == Some(found@),
{
    match uuid::Uuid::parse_str(text) {
        Ok(found) => Some(found.to_string()),
        Err(_) => None,
    }
}

} // verus!
