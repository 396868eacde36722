//! Auth gate: classifies each request from its optional session cookie,
//! with no server-side session store.

use vstd::prelude::*;

use crate::token::{lemma_token_injective, spec_token, verify};

verus! {

/// Per-request classification of a caller.
///
/// `Unauthenticated` means no session cookie was presented; `Rejected`
/// means a cookie was presented but failed verification.
#[derive(PartialEq, Eq, Structural, Clone, Copy, Debug)]
pub enum AuthVerdict {
    Authenticated,
    Unauthenticated,
    Rejected,
}

/// The verdict for a presented cookie (as a sequence of characters) and
/// the configured password.
pub open spec fn spec_authenticate(cookie: Option<Seq<char>>, password: Seq<char>) -> AuthVerdict {
    match cookie {
        None => AuthVerdict::Unauthenticated,
        Some(t) => if t == spec_token(password) {
            AuthVerdict::Authenticated
        } else {
            AuthVerdict::Rejected
        },
    }
}

/// Classify a request: no cookie is `Unauthenticated`, a cookie holding
/// the token issued for `password` is `Authenticated`, any other cookie
/// is `Rejected`. Never fails: a malformed cookie is a normal outcome.
pub fn authenticate(cookie: &Option<String>, password: &str) -> (v: AuthVerdict)
    ensures
        v == spec_authenticate(cookie.deep_view(), password@),
{
    match cookie {
        None => AuthVerdict::Unauthenticated,
        Some(t) => {
            if verify(t.as_str(), password) {
                AuthVerdict::Authenticated
            } else {
                AuthVerdict::Rejected
            }
        },
    }
}

/// Without a cookie the verdict is `Unauthenticated`, whatever the
/// configured password.
pub proof fn lemma_authenticate_none(password: Seq<char>)
    ensures
        spec_authenticate(None, password) == AuthVerdict::Unauthenticated,
{
}

/// A cookie holding the token issued for the configured password is
/// always `Authenticated`.
pub proof fn lemma_authenticate_issued(password: Seq<char>)
    ensures
        spec_authenticate(Some(spec_token(password)), password) == AuthVerdict::Authenticated,
{
}

/// A cookie holding a token issued for a different credential is always
/// `Rejected`.
pub proof fn lemma_authenticate_mismatch(submitted: Seq<char>, password: Seq<char>)
    requires
        submitted != password,
    ensures
        spec_authenticate(Some(spec_token(submitted)), password) == AuthVerdict::Rejected,
{
    lemma_token_injective(submitted, password);
}

} // verus!
