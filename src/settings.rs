//! The user's configuration.
use vstd::prelude::*;
use vstd::string::StringExecFns;

verus! {

/// The user's configuration.
#[derive(Debug)]
pub struct Settings {
    pub tagpacker: Tagpacker,
}

/// How to address the remote bookmark source.
#[derive(Debug)]
pub struct Tagpacker {
    pub user_id: String,
}

impl Settings {
    /// The address of the list of the user's links at the remote source.
    pub fn links_endpoint(&self) -> (r: String)
        ensures
            r@ == "https://tagpacker.com/api/users/"@ + self.tagpacker.user_id@ + "/links"@,
    {
        let mut r = String::from_str("https://tagpacker.com/api/users/");
        r.append(self.tagpacker.user_id.as_str());
        r.append("/links");
        r
    }
}

} // verus!
