//! Idempotent host-config merge: a named host-alias block is appended to
//! the config text at most once across repeated runs, detected by a
//! substring presence check before the append.

use vstd::prelude::*;
use crate::text::{contains_seq, contains_substring, lemma_contains_appended};

verus! {

/// The host-alias configuration block for one remote: host alias, agent and
/// keychain flags, and the identity-file path.
pub open spec fn host_block(alias: Seq<char>, identity_file: Seq<char>) -> Seq<char> {
    "Host "@ + alias + "\n  AddKeysToAgent yes\n  UseKeychain yes\n  IdentityFile "@
        + identity_file + "\n"@
}

/// The config text after a merge: unchanged when the block is already
/// present, the block appended otherwise.
pub open spec fn spec_merge(content: Seq<char>, block: Seq<char>) -> Seq<char> {
    if contains_seq(content, block) {
        content
    } else {
        content + block
    }
}

/// Render the host-alias block for one remote.
pub fn build_host_block(alias: &str, identity_file: &str) -> (r: String)
    ensures
        r@ == host_block(alias@, identity_file@),
{
    let mut s = String::new();
    s.append("Host ");
    s.append(alias);
    s.append("\n  AddKeysToAgent yes\n  UseKeychain yes\n  IdentityFile ");
    s.append(identity_file);
    s.append("\n");
    proof {
        assert(s@ =~= host_block(alias@, identity_file@));
    }
    s
}

/// Merge a block into the config text, appending it only when no equivalent
/// block is present.  Returns the merged text and whether an append
/// happened.
pub fn merge_host_block(content: &str, block: &str) -> (r: (String, bool))
    ensures
        r.0@ == spec_merge(content@, block@),
        r.1 == !contains_seq(content@, block@),
{
    if contains_substring(content, block) {
        (content.to_owned(), false)
    } else {
        let mut merged = content.to_owned();
        merged.append(block);
        (merged, true)
    }
}

/// A merged text always contains the block.
pub proof fn lemma_merge_contains(content: Seq<char>, block: Seq<char>)
    ensures
        contains_seq(spec_merge(content, block), block),
{
    if !contains_seq(content, block) {
        lemma_contains_appended(content, block);
    }
}

/// Idempotent config merge: merging the same block twice changes nothing
/// after the first merge, so repeated runs append the block at most once.
pub proof fn lemma_merge_idempotent(content: Seq<char>, block: Seq<char>)
    ensures
        spec_merge(spec_merge(content, block), block) == spec_merge(content, block),
{
    lemma_merge_contains(content, block);
}

} // verus!
