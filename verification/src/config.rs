//! Login configuration: the credential pair the networking collaborator
//! needs, with presence validation.

use vstd::prelude::*;

verus! {

/// Optionally-present login credentials.
#[derive(Debug)]
pub struct UserConfig {
    username: Option<String>,
    password: Option<String>,
}

impl UserConfig {
    /// The configured username, if set.
    pub closed spec fn spec_username(&self) -> Option<Seq<char>> {
        self.username.deep_view()
    }

    /// The configured password, if set.
    pub closed spec fn spec_password(&self) -> Option<Seq<char>> {
        self.password.deep_view()
    }

    /// A configuration from credentials as read from the environment.
    pub fn new(username: Option<String>, password: Option<String>) -> (c: UserConfig)
        ensures
            c.spec_username() == username.deep_view(),
            c.spec_password() == password.deep_view(),
    {
        UserConfig { username, password }
    }

    /// Succeeds exactly when both credentials are present; the error names
    /// the first missing one, the username checked first.
    pub fn validate(&self) -> (r: Result<(), &'static str>)
        ensures
            r is Ok <==> (self.spec_username() is Some && self.spec_password() is Some),
            self.spec_username() is None ==> r == Result::<(), &'static str>::Err(
                "Username not set",
            ),
            (self.spec_username() is Some && self.spec_password() is None) ==> r == Result::<
                (),
                &'static str,
            >::Err("Password not set"),
    {
        if self.username.is_none() {
            return Err("Username not set");
        }
        if self.password.is_none() {
            return Err("Password not set");
        }
        Ok(())
    }

    /// The configured username, if set.
    pub fn get_username(&self) -> (r: Option<&String>)
        ensures
            r.deep_view() == self.spec_username(),
    {
        self.username.as_ref()
    }

    /// The configured password, if set.
    pub fn get_password(&self) -> (r: Option<&String>)
        ensures
            r.deep_view() == self.spec_password(),
    {
        self.password.as_ref()
    }
}

} // verus!
