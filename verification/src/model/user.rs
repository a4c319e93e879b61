//! A user and the roles that decide what the user may do.

use vstd::prelude::*;
use vstd::string::StringExecFns;
use crate::util::text::{split_on, split_spec};

verus! {

/// Someone who may log in.
pub struct User {
    pub id: i64,
    pub email: String,
    pub pass: String,
    pub roles: Vec<String>,
}

/// A user as the store keeps it: the roles in one text, parted by commas.
pub struct UserDB {
    pub id: i64,
    pub email: String,
    pub pass: String,
    pub roles: String,
}

impl User {
    /// Whether one of the roles is `admin`.
    pub open spec fn has_admin_role(&self) -> bool {
        exists|i: int| 0 <= i < self.roles@.len() && (#[trigger] self.roles@[i])@ == "admin"@
    }

    /// The user that a stored record describes: each piece between two
    /// commas of its roles is a role.
    pub fn from_db(user: &UserDB) -> (u: User)
        ensures
            u.id == user.id,
            u.email == user.email,
            u.pass == user.pass,
            u.roles@.len() == split_spec(user.roles@, ',').len(),
            forall|i: int|
                0 <= i < u.roles@.len() ==> (#[trigger] u.roles@[i])@ == split_spec(
                    user.roles@,
                    ',',
                )[i],
    {
        User {
            id: user.id,
            email: user.email.clone(),
            pass: user.pass.clone(),
            roles: split_on(user.roles.as_str(), ','),
        }
    }

    /// Whether one of the roles is `admin`.
    pub fn is_admin(&self) -> (yes: bool)
        ensures
            yes == self.has_admin_role(),
    {
        let admin = String::from_str("admin");
        let mut i: usize = 0;
        while i < self.roles.len()
            invariant
                i <= self.roles.len(),
                admin@ == "admin"@,
                forall|j: int| 0 <= j < i ==> (#[trigger] self.roles@[j])@ != "admin"@,
            decreases self.roles.len() - i,
        {
            if self.roles[i] == admin {
                return true;
            }
            i += 1;
        }
        false
    }
}

} // verus!
