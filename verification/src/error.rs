use vstd::prelude::*;

verus! {

/// Why a handshake cannot go on. Every variant ends the connection.
#[derive(Clone, Copy, Debug, PartialEq, Eq, Structural)]
pub enum AuthError {
    /// The server confirmed a player name other than the one asked for.
    IdentityMismatch,
    /// The server offers no way to log in that this client knows.
    UnsupportedAuthMethod,
    /// The server's public value is a multiple of the group prime.
    AuthMathError,
    /// The server accepted a login that was never completed.
    UnexpectedAcceptance,
}

} // verus!
