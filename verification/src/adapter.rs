//! Pure side of the package-manager adapter: classifying the output of the
//! external manager's version, update and list queries.  The surrounding
//! application runs the processes and hands their exit status and captured
//! output to these functions.

use vstd::prelude::*;
use crate::text::{contains_seq, split_char, trim, trim_str, views_of, contains_substring};

verus! {

/// The names in one listing line block: each line trimmed, empty lines
/// dropped.
pub open spec fn names_of_lines(lines: Seq<Seq<char>>) -> Seq<Seq<char>>
    decreases lines.len(),
{
    if lines.len() == 0 {
        Seq::empty()
    } else {
        let t = trim(lines[0]);
        let rest = names_of_lines(lines.drop_first());
        if t.len() > 0 {
            seq![t] + rest
        } else {
            rest
        }
    }
}

/// The installed names a successful list query reports: one name per output
/// line, trimmed, blank lines ignored.
pub open spec fn list_output_names(out: Seq<char>) -> Seq<Seq<char>> {
    names_of_lines(split_char(out, '\n'))
}

/// Parse the output of the external manager's list query.  A failed query
/// degrades to "assume nothing installed", which is safe: it can only cause
/// redundant install attempts, never a destructive action.
pub fn parse_installed_list(exit_ok: bool, stdout: &str) -> (names: Vec<String>)
    ensures
        exit_ok ==> views_of(names@) == list_output_names(stdout@),
        !exit_ok ==> names@.len() == 0,
{
    let mut names: Vec<String> = Vec::new();
    if !exit_ok {
        return names;
    }
    let lines = crate::text::split_str(stdout, '\n');
    let ghost all: Seq<Seq<char>> = views_of(lines@);
    let mut i: usize = 0;
    proof {
        assert(all.skip(0) =~= all);
    }
    while i < lines.len()
        invariant
            0 <= i <= lines.len(),
            all == views_of(lines@),
            views_of(names@) + names_of_lines(all.skip(i as int)) == names_of_lines(all),
        decreases lines.len() - i,
    {
        let t = trim_str(lines[i].as_str());
        proof {
            let rem = all.skip(i as int);
            assert(rem[0] == lines@[i as int]@);
            assert(rem.drop_first() =~= all.skip(i + 1));
        }
        if t.unicode_len() > 0 {
            let owned = t.to_owned();
            proof {
                let rem = all.skip(i as int);
                assert(views_of(names@.push(owned)) =~= views_of(names@).push(trim(rem[0])));
                assert(views_of(names@).push(trim(rem[0])) + names_of_lines(all.skip(i + 1))
                    =~= views_of(names@) + names_of_lines(rem));
            }
            names.push(owned);
        }
        i += 1;
    }
    proof {
        assert(names_of_lines(all.skip(lines@.len() as int)) =~= Seq::<Seq<char>>::empty());
        assert(views_of(names@) + Seq::<Seq<char>>::empty() =~= views_of(names@));
    }
    names
}

/// Parse the output of the external manager's version query: the trimmed
/// version banner on success, nothing on failure.
pub fn parse_version_output(exit_ok: bool, stdout: &str) -> (r: Option<String>)
    ensures
        exit_ok ==> r is Some && r->Some_0@ == trim(stdout@),
        !exit_ok ==> r is None,
{
    if exit_ok {
        Some(trim_str(stdout).to_owned())
    } else {
        None
    }
}

/// Outcome of the external manager's self-update command.
#[derive(PartialEq, Eq, Structural, Clone, Copy, Debug)]
pub enum UpdateStatus {
    /// The update ran and reported that nothing was out of date.
    AlreadyUpToDate,
    /// The update ran and brought the manager to the latest version.
    Updated,
    /// The update command exited non-zero.
    Failed,
}

/// Classify the update command's exit status and standard output.  Success
/// is split by the manager's "Already up-to-date." banner; any non-zero
/// exit is a failure.
pub fn update_status(exit_ok: bool, stdout: &str) -> (r: UpdateStatus)
    ensures
        r is AlreadyUpToDate <==> exit_ok && contains_seq(stdout@, "Already up-to-date."@),
        r is Updated <==> exit_ok && !contains_seq(stdout@, "Already up-to-date."@),
        r is Failed <==> !exit_ok,
{
    if exit_ok {
        if contains_substring(stdout, "Already up-to-date.") {
            UpdateStatus::AlreadyUpToDate
        } else {
            UpdateStatus::Updated
        }
    } else {
        UpdateStatus::Failed
    }
}

} // verus!
