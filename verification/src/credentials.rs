//! A user and a password, as a plain pair.

use vstd::prelude::*;

verus! {

/// The name of a user and the password that goes with it.
#[derive(Debug, Clone, PartialEq, Eq)]
pub struct Credentials {
    pub user: String,
    pub passwd: String,
}

impl Credentials {
    /// The pair of `user` and `passwd`.
    pub fn new(user: String, passwd: String) -> (c: Self)
        ensures
            c.user == user,
            c.passwd == passwd,
    {
        Self { user, passwd }
    }
}

} // verus!
