//! Idempotent version-control identity configuration: two scalar values on
//! the external tool's global configuration.  The application runs the two
//! set commands; these functions decide and report, naming the failed
//! setting, and a failure here never blocks the rest of the program.

use vstd::prelude::*;

verus! {

/// A global configuration value that could not be set.
#[derive(Clone, Debug)]
pub struct GitConfigError {
    /// The configuration key, such as `user.name`.
    pub setting: String,
    /// The value that was being assigned.
    pub value: String,
}

/// Report one global configuration assignment: `applied` says whether the
/// external set command exited zero.
pub fn configure_git_details(config: &str, value: &str, applied: bool) -> (r: Result<
    (),
    GitConfigError,
>)
    ensures
        applied <==> r is Ok,
        !applied ==> (r matches Err(e) && e.setting@ == config@ && e.value@ == value@),
{
    if applied {
        Ok(())
    } else {
        Err(GitConfigError { setting: config.to_owned(), value: value.to_owned() })
    }
}

/// Report the identity assignment: user name first, then email, stopping at
/// the first failed setting as the set commands themselves do.
pub fn set_details(user: &str, email: &str, name_applied: bool, email_applied: bool) -> (r: Result<
    (),
    GitConfigError,
>)
    ensures
        r is Ok <==> name_applied && email_applied,
        !name_applied ==> (r matches Err(e) && e.setting@ == "user.name"@ && e.value@ == user@),
        name_applied && !email_applied ==> (r matches Err(e) && e.setting@ == "user.email"@
            && e.value@ == email@),
{
    match configure_git_details("user.name", user, name_applied) {
        Err(e) => return Err(e),
        Ok(()) => {},
    }
    match configure_git_details("user.email", email, email_applied) {
        Err(e) => return Err(e),
        Ok(()) => {},
    }
    Ok(())
}

} // verus!
