use vstd::prelude::*;

verus! {

/// What a client asks the map for: the amenity to look for and the city to look in.
#[derive(Debug, Clone)]
pub struct Request {
    pub query: String,
    pub city: String,
}

/// A user name with its password, as a client sends them.
#[derive(Debug, Clone)]
pub struct CredentialsPayload {
    pub username: String,
    pub password: String,
}

} // verus!
