use vstd::prelude::*;

verus! {

/// The outcome of comparing a supplied token against the configured secret.
#[derive(Clone, Copy, Debug, PartialEq, Eq, Structural)]
pub enum Authorization {
    Authorized,
    Unauthorized,
}

/// The process-wide shared secret that protected endpoints compare against.
pub struct Gate {
    configured: String,
}

impl Gate {
    pub closed spec fn secret(&self) -> Seq<char> {
        self.configured@
    }

    pub fn new(configured: String) -> (r: Gate)
        ensures
            r.secret() == configured@,
    {
        Gate { configured }
    }

    /// Exact string equality of the supplied token with the secret.
    pub fn authorize(&self, supplied: &String) -> (r: Authorization)
        ensures
            (r == Authorization::Authorized) <==> (supplied@ == self.secret()),
    {
        if *supplied == self.configured {
            Authorization::Authorized
        } else {
            Authorization::Unauthorized
        }
    }
}

} // verus!
