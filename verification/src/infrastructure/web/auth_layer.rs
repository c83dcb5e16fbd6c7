use vstd::prelude::*;

use crate::application::ports::auth::Authenticator;
use crate::domain::DomainError;

verus! {

/// The scheme that credentials are expected in: `Authorization: Bearer <token>`.
pub open spec fn bearer_prefix() -> Seq<char> {
    "Bearer "@
}

/// The token of an `Authorization` header value: what follows `Bearer `, when
/// the value starts with it.
pub open spec fn bearer_token(header: Seq<char>) -> Option<Seq<char>> {
    if header.len() >= bearer_prefix().len() && header.subrange(0, bearer_prefix().len() as int)
        == bearer_prefix() {
        Some(header.subrange(bearer_prefix().len() as int, header.len() as int))
    } else {
        None
    }
}

/// The credential a request carries, given its `Authorization` header value
/// (`None` when the header is missing or is not visible ASCII).
pub open spec fn credential_of(authorization: Option<&str>) -> Option<Seq<char>> {
    match authorization {
        Some(header) => bearer_token(header@),
        None => None,
    }
}

/// What the authentication layer makes of an authenticator's answer: the
/// principal goes on, a refusal is answered `401 Unauthorized`.
pub open spec fn admission<P, E>(answer: Result<P, E>, outcome: Result<P, u16>) -> bool {
    match answer {
        Ok(principal) => outcome == Ok::<P, u16>(principal),
        Err(_) => outcome == Err::<P, u16>(UNAUTHORIZED),
    }
}

/// The status a request without valid credentials is answered.
pub const UNAUTHORIZED: u16 = 401;

/// `Authorization: Bearer <token>` by default: a project with another
/// credential scheme (cookie, API key in a header of its own) replaces this
/// function and the rest of the authentication layer stays.
pub fn extract_credential(authorization: Option<&str>) -> (credential: Option<String>)
    ensures
        match credential {
            Some(token) => credential_of(authorization) == Some(token@),
            None => credential_of(authorization) is None,
        },
{
    let header = match authorization {
        Some(header) => header,
        None => return None,
    };
    let prefix = "Bearer ";
    proof {
        reveal_strlit("Bearer ");
    }
    let n = header.unicode_len();
    if n < 7 {
        return None;
    }
    let mut i: usize = 0;
    while i < 7
        invariant
            i <= 7 <= n,
            n == header@.len(),
            prefix@ == bearer_prefix(),
            prefix@.len() == 7,
            authorization == Some(header),
            forall|k: int| 0 <= k < i ==> #[trigger] header@[k] == prefix@[k],
        decreases 7 - i,
    {
        if header.get_char(i) != prefix.get_char(i) {
            assert(header@.subrange(0, 7)[i as int] != bearer_prefix()[i as int]);
            return None;
        }
        i = i + 1;
    }
    assert(header@.subrange(0, 7) =~= bearer_prefix());
    Some(String::from_str(header.substring_char(7, n)))
}

/// The decision of the authentication layer: a request without a bearer
/// credential, or whose credential the authenticator refuses, is answered
/// `401 Unauthorized`; otherwise the principal goes on with the request.
pub fn authenticate_request<A: Authenticator>(authenticator: &A, authorization: Option<&str>) -> (outcome: Result<A::P, u16>)
    ensures
        credential_of(authorization) is None ==> outcome == Err::<A::P, u16>(UNAUTHORIZED),
        credential_of(authorization) is Some ==> exists|answer: Result<A::P, DomainError>|
            #![trigger authenticator.authenticates(credential_of(authorization)->0, answer)]
            authenticator.authenticates(credential_of(authorization)->0, answer) && admission(
                answer,
                outcome,
            ),
{
    let raw = match extract_credential(authorization) {
        Some(raw) => raw,
        None => return Err(UNAUTHORIZED),
    };
    let answer = authenticator.authenticate(raw.as_str());
    assert(authenticator.authenticates(credential_of(authorization)->0, answer));
    match answer {
        Ok(principal) => Ok(principal),
        Err(_) => Err(UNAUTHORIZED),
    }
}

/// A bearer credential is read back exactly as it was written.
pub proof fn lemma_bearer_round_trip(token: Seq<char>)
    ensures
        bearer_token(bearer_prefix() + token) == Some(token),
{
    let header = bearer_prefix() + token;
    assert(header.subrange(0, bearer_prefix().len() as int) =~= bearer_prefix());
    assert(header.subrange(bearer_prefix().len() as int, header.len() as int) =~= token);
}

/// A header carries a credential exactly when its text is `Bearer ` (that
/// exact, case-sensitive prefix) followed by the credential; a header in any
/// other scheme, or without one, carries none.
pub proof fn lemma_credential_is_what_follows_bearer(header: &str, token: Seq<char>)
    ensures
        credential_of(Some(header)) == Some(token) <==> header@ == "Bearer "@ + token,
        credential_of(Some(header)) is None <==> !(exists|rest: Seq<char>| header@ == "Bearer "@ + rest),
{
    reveal_strlit("Bearer ");
    let h = header@;
    if h == "Bearer "@ + token {
        lemma_bearer_round_trip(token);
    }
    if credential_of(Some(header)) is Some {
        let rest = h.subrange(7, h.len() as int);
        assert(h =~= "Bearer "@ + rest);
    }
    if exists|rest: Seq<char>| h == "Bearer "@ + rest {
        let rest = choose|rest: Seq<char>| h == "Bearer "@ + rest;
        lemma_bearer_round_trip(rest);
    }
}

} // verus!
