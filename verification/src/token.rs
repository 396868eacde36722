//! Session token codec: encodes a credential into a cookie value whose
//! authenticity is checked on every request, without server-side state.

use vstd::prelude::*;

verus! {

/// The marker that every issued token starts with; a cookie value
/// without it is malformed and never verifies.
pub open spec fn token_prefix() -> Seq<char> {
    "session:"@
}

/// The token issued for a credential: the prefix followed by the
/// credential itself.
pub open spec fn spec_token(password: Seq<char>) -> Seq<char> {
    token_prefix() + password
}

/// Two distinct credentials always yield distinct tokens, and a token
/// determines the credential it was issued for.
pub proof fn lemma_token_injective(p1: Seq<char>, p2: Seq<char>)
    ensures
        (spec_token(p1) == spec_token(p2)) <==> (p1 == p2),
{
    if spec_token(p1) == spec_token(p2) {
        let n = token_prefix().len() as int;
        assert(p1 =~= spec_token(p1).skip(n));
        assert(p2 =~= spec_token(p2).skip(n));
    }
}

/// Encode a credential as a session token.
pub fn issue(password: &str) -> (t: String)
    ensures
        t@ == spec_token(password@),
{
    let mut t: String = "session:".to_owned();
    t.append(password);
    t
}

/// Check a presented token against the expected credential: true exactly
/// when the token is the one `issue` produces for that credential, false
/// on any malformed, tampered or mismatched input.
pub fn verify(token: &str, expected: &str) -> (r: bool)
    ensures
        r == (token@ == spec_token(expected@)),
{
    let issued = issue(expected);
    let presented: String = token.to_owned();
    presented == issued
}

} // verus!
