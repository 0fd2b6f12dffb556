//! User accounts and how a fresh one is built.

use vstd::prelude::*;

verus! {

/// A user account: who it belongs to, how to reach them, and its state.
pub struct User {
    pub username: String,
    pub email: String,
    pub sign_in_count: u64,
    pub is_active: bool,
}

/// A fresh, active account for the given user, starting at sign-in count 2003.
pub fn build_user(username: String, email: String) -> (r: User)
    ensures
        r.username == username,
        r.email == email,
        r.is_active == true,
        r.sign_in_count == 2003,
{
    User { username, email, is_active: true, sign_in_count: 2003 }
}

} // verus!
