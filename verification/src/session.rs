//! What the pages decide about the user who is logged in.
use vstd::prelude::*;

verus! {

/// The name by which the home page greets a visitor who is not logged in.
pub const GUEST_NAME: &'static str = "游客";

/// The name by which the home page greets the user.
pub fn visitor_name(user: Option<String>) -> (res: String)
    ensures
        res@ == (match user {
            Some(u) => u@,
            None => GUEST_NAME@,
        }),
{
    match user {
        Some(u) => u,
        None => GUEST_NAME.to_owned(),
    }
}

/// Whether a page behind the login sends the visitor to the login page:
/// once the page has read the stored login, and no user is logged in.
pub fn must_log_in(initialized: bool, logged_in: bool) -> (res: bool)
    ensures
        res == (initialized && !logged_in),
{
    initialized && !logged_in
}

} // verus!
