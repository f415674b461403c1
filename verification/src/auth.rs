//! Authentication data: credentials and user lookup against the configured
//! user list.

use vstd::prelude::*;

verus! {

/// The data required to authenticate a user.
#[derive(Debug)]
pub struct Credentials {
    /// The username.
    username: String,
    /// The password.
    password: String,
}

impl Credentials {
    /// The username of the credentials.
    pub closed spec fn spec_username(self) -> Seq<char> {
        self.username@
    }

    /// The password of the credentials.
    pub closed spec fn spec_password(self) -> Seq<char> {
        self.password@
    }

    /// Creates credentials from a username and a password.
    pub fn new(username: String, password: String) -> (r: Credentials)
        ensures
            r.spec_username() == username@,
            r.spec_password() == password@,
    {
        Credentials { username, password }
    }

    /// A loggable form of the credentials: the username only, never the
    /// password.
    pub fn to_loggable_string(&self) -> (r: String)
        ensures
            r@ == self.spec_username(),
    {
        self.username.clone()
    }
}

/// User data functionality: the user fields used for authentication, and
/// lookup against a configured user list.
#[derive(Debug)]
pub struct User {
    /// The username.
    pub username: String,
}

/// Whether a user list maps each username to at most one password.
pub open spec fn unique_usernames(users: Seq<(String, String)>) -> bool {
    forall|i: int, j: int|
        0 <= i < j < users.len() ==> (#[trigger] users[i]).0@ != (#[trigger] users[j]).0@
}

impl User {
    /// The identifier of the user: the username.
    pub fn id(&self) -> (r: &String)
        ensures
            r@ == self.username@,
    {
        &self.username
    }

    /// A loggable form of the user: the username.
    pub fn to_loggable_string(&self) -> (r: String)
        ensures
            r@ == self.username@,
    {
        self.username.clone()
    }

    /// Looks a user up by credentials in the configured user list (username
    /// and password pairs): the user is returned exactly when the list
    /// holds the username with the matching password.
    #[verifier::loop_isolation(false)]
    pub fn find_by_credentials(users: &Vec<(String, String)>, credentials: &Credentials) -> (r:
        Option<User>)
        requires
            unique_usernames(users@),
        ensures
            match r {
                Some(u) => {
                    &&& u.username@ == credentials.spec_username()
                    &&& exists|i: int|
                        0 <= i < users@.len() && (#[trigger] users@[i]).0@
                            == credentials.spec_username() && users@[i].1@
                            == credentials.spec_password()
                },
                None => forall|i: int|
                    0 <= i < users@.len() ==> (#[trigger] users@[i]).0@
                        != credentials.spec_username() || users@[i].1@
                        != credentials.spec_password(),
            },
    {
        let n: usize = users.len();
        let mut i: usize = 0;
        while i < n
            invariant
                0 <= i <= n,
                forall|j: int| 0 <= j < i ==> (#[trigger] users@[j]).0@ != credentials.username@,
            decreases n - i,
        {
            if users[i].0 == credentials.username {
                if users[i].1 == credentials.password {
                    return Some(User { username: credentials.username.clone() });
                } else {
                    return None;
                }
            }
            i = i + 1;
        }
        None
    }

    /// Looks a user up by identifier in the configured user list: the user
    /// is returned exactly when the list holds the username.
    #[verifier::loop_isolation(false)]
    pub fn find_by_id(users: &Vec<(String, String)>, id: &String) -> (r: Option<User>)
        requires
            unique_usernames(users@),
        ensures
            match r {
                Some(u) => {
                    &&& u.username@ == id@
                    &&& exists|i: int| 0 <= i < users@.len() && (#[trigger] users@[i]).0@ == id@
                },
                None => forall|i: int| 0 <= i < users@.len() ==> (#[trigger] users@[i]).0@ != id@,
            },
    {
        let n: usize = users.len();
        let mut i: usize = 0;
        while i < n
            invariant
                0 <= i <= n,
                forall|j: int| 0 <= j < i ==> (#[trigger] users@[j]).0@ != id@,
            decreases n - i,
        {
            if users[i].0 == *id {
                return Some(User { username: id.clone() });
            }
            i = i + 1;
        }
        None
    }
}

} // verus!
