use vstd::prelude::*;

verus! {

/// Credentials for the game-data provider.
#[derive(Debug, Clone, Copy)]
pub struct RivenWrapper<'a> {
    riot_api_key: &'a str,
}

impl<'a> RivenWrapper<'a> {
    /// The key's text.
    pub closed spec fn key(&self) -> Seq<char> {
        self.riot_api_key@
    }

    pub fn new(riot_api_key: &'a str) -> (r: RivenWrapper<'a>)
        ensures
            r.key() == riot_api_key@,
    {
        RivenWrapper { riot_api_key }
    }

    /// The key that provider clients are made with.
    pub fn api_key(&self) -> (r: &'a str)
        ensures
            r@ == self.key(),
    {
        self.riot_api_key
    }
}

} // verus!
