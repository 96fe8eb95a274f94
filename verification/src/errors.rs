use vstd::prelude::*;

verus! {

/// Why a request could not be served.
#[derive(Debug, Clone, Copy, PartialEq, Eq, Structural)]
pub enum Error {
    /// The map service answered with a status outside 200..=299.
    Response,
    /// A user with the requested name already exists.
    Signup,
    /// No user matches the given credentials or token.
    Login,
    /// The request carries no authentication cookie.
    AuthToken,
    /// The authentication cookie does not have the shape `user-<id>.<exp>.<sign>`.
    AuthFailTokenWrongFormat,
    /// A coordinate that a user saved is no longer stored.
    Unknown,
    /// The authentication cookie's signature is not the server's signature of its token.
    AuthFailSignature,
    /// A coordinate id sent by the client is not a decimal `i64`.
    ParseInt,
    /// A flow got an answer of another kind than the step it asked for.
    UnexpectedAnswer,
}

} // verus!
