use vstd::prelude::*;

verus! {

use crate::task::str_eq;

/// What the authorization gate decides for one request.
#[derive(Clone, Copy, PartialEq, Eq, Structural, Debug)]
pub enum AuthDecision {
    /// Exactly one key header, carrying the expected secret: the handler runs.
    Accept,
    /// Exactly one key header with any other value: fall through, as if no
    /// route had matched.
    Forward,
    /// No key header, or more than one: a client error.
    Reject,
}

/// How the key-header values of a request are judged against the secret.
pub open spec fn auth_model(values: Seq<Seq<char>>, secret: Seq<char>) -> AuthDecision {
    if values.len() != 1 {
        AuthDecision::Reject
    } else if values[0] == secret {
        AuthDecision::Accept
    } else {
        AuthDecision::Forward
    }
}

/// Decide a request from the values carried under the api-key header — the
/// header name is matched case-insensitively by the transport that collects
/// them — compared case-sensitively against the expected secret.
pub fn authorize(values: &Vec<String>, secret: &str) -> (r: AuthDecision)
    ensures
        r == auth_model(values.deep_view(), secret@),
{
    if values.len() != 1 {
        AuthDecision::Reject
    } else if str_eq(values[0].as_str(), secret) {
        AuthDecision::Accept
    } else {
        AuthDecision::Forward
    }
}

} // verus!
