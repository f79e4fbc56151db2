//! Textual matching: case-insensitive search and status-name comparison.
//!
//! Case folding comes from the standard library and is named rather than
//! restated: `lower_of` and `upper_of` stand for what `str::to_lowercase`
//! and `str::to_uppercase` return.

use vstd::prelude::*;

use crate::model::BlockView;
use crate::model::Transaction;
use crate::model::TransactionStatus;
use crate::model::TransactionView;

verus! {

/// Whether `needle` occurs in `hay` as a contiguous run of characters.
pub open spec fn is_substring(hay: Seq<char>, needle: Seq<char>) -> bool {
    exists|k: int|
        0 <= k && k + needle.len() <= hay.len() && #[trigger] hay.subrange(k, k + needle.len())
            == needle
}

/// The characters that `str::to_lowercase` yields for the given characters.
pub uninterp spec fn lower_of(s: Seq<char>) -> Seq<char>;

/// The characters that `str::to_uppercase` yields for the given characters.
pub uninterp spec fn upper_of(s: Seq<char>) -> Seq<char>;

/// Relies on str's PartialEq: true exactly when the characters are equal.
#[verifier::external_body]
pub(crate) fn str_eq(a: &str, b: &str) -> (r: bool)
    ensures
        r == (a@ == b@),
{
    a == b
}

/// Relies on str::contains with a str pattern: a byte-level substring match,
/// which on UTF-8 text coincides with a character-level substring match.
#[verifier::external_body]
pub(crate) fn str_contains(hay: &str, needle: &str) -> (r: bool)
    ensures
        r == is_substring(hay@, needle@),
{
    hay.contains(needle)
}

/// Relies on str::to_lowercase: the result depends on the characters alone,
/// and an empty string stays empty.
#[verifier::external_body]
pub(crate) fn to_lowercase(s: &str) -> (r: String)
    ensures
        r@ == lower_of(s@),
        s@.len() == 0 ==> r@.len() == 0,
{
    s.to_lowercase()
}

/// Relies on str::to_uppercase: the result depends on the characters alone,
/// and an empty string stays empty.
#[verifier::external_body]
pub(crate) fn to_uppercase(s: &str) -> (r: String)
    ensures
        r@ == upper_of(s@),
        s@.len() == 0 ==> r@.len() == 0,
{
    s.to_uppercase()
}

/// The name of a transaction status, as a status filter must give it.
pub open spec fn status_spec_name(st: TransactionStatus) -> Seq<char> {
    match st {
        TransactionStatus::Pending => "Pending"@,
        TransactionStatus::Applying => "Applying"@,
        TransactionStatus::Applied => "Applied"@,
        TransactionStatus::PartiallyApplied => "PartiallyApplied"@,
        TransactionStatus::Committed => "Committed"@,
        TransactionStatus::Reverted => "Reverted"@,
        TransactionStatus::Failed => "Failed"@,
    }
}

/// The name of a transaction status.
pub fn status_name(st: TransactionStatus) -> (r: &'static str)
    ensures
        r@ == status_spec_name(st),
{
    match st {
        TransactionStatus::Pending => "Pending",
        TransactionStatus::Applying => "Applying",
        TransactionStatus::Applied => "Applied",
        TransactionStatus::PartiallyApplied => "PartiallyApplied",
        TransactionStatus::Committed => "Committed",
        TransactionStatus::Reverted => "Reverted",
        TransactionStatus::Failed => "Failed",
    }
}

/// Whether a status has the given name, ignoring case.
pub open spec fn status_matches(st: TransactionStatus, filter: Seq<char>) -> bool {
    upper_of(status_spec_name(st)) == upper_of(filter)
}

/// Compares a status against a textual filter, ignoring case.
pub fn status_matches_filter(st: TransactionStatus, filter: &str) -> (r: bool)
    ensures
        r == status_matches(st, filter@),
{
    let name_upper = to_uppercase(status_name(st));
    let filter_upper = to_uppercase(filter);
    name_upper == filter_upper
}

/// Whether a block matches an already-lowercased search needle: by its inline
/// content if it has one, else by its file's path if it has a file.
pub open spec fn block_matches_search(b: BlockView, needle: Seq<char>) -> bool {
    match b.content {
        Some(c) => is_substring(lower_of(c), needle),
        None => match b.file {
            Some(f) => is_substring(lower_of(f.path), needle),
            None => false,
        },
    }
}

/// Whether a transaction matches an already-lowercased search needle: by
/// description, author, or any of its blocks.
pub open spec fn tx_matches_search(t: TransactionView, needle: Seq<char>) -> bool {
    ||| is_substring(lower_of(t.description), needle)
    ||| is_substring(lower_of(t.author), needle)
    ||| exists|k: int| 0 <= k < t.blocks.len() && block_matches_search(t.blocks[k], needle)
}

/// Case-insensitive search across description, author and blocks.
/// `needle_lower` is the search text, already lowercased by the caller.
pub fn transaction_matches_search(t: &Transaction, needle_lower: &str) -> (r: bool)
    ensures
        r == tx_matches_search(t@, needle_lower@),
{
    let d = to_lowercase(t.description.as_str());
    if str_contains(d.as_str(), needle_lower) {
        return true;
    }
    let a = to_lowercase(t.author.as_str());
    if str_contains(a.as_str(), needle_lower) {
        return true;
    }
    let mut k: usize = 0;
    while k < t.blocks.len()
        invariant
            k <= t.blocks.len(),
            !is_substring(lower_of(t@.description), needle_lower@),
            !is_substring(lower_of(t@.author), needle_lower@),
            forall|m: int| 0 <= m < k ==> !block_matches_search(t@.blocks[m], needle_lower@),
        decreases t.blocks.len() - k,
    {
        let b = &t.blocks[k];
        proof {
            assert(b@ == t@.blocks[k as int]);
        }
        match &b.content {
            Some(c) => {
                let c_lower = to_lowercase(c.as_str());
                if str_contains(c_lower.as_str(), needle_lower) {
                    return true;
                }
            },
            None => {
                match &b.file {
                    Some(f) => {
                        let p_lower = to_lowercase(f.path.as_str());
                        if str_contains(p_lower.as_str(), needle_lower) {
                            return true;
                        }
                    },
                    None => {},
                }
            },
        }
        k = k + 1;
    }
    false
}

} // verus!
