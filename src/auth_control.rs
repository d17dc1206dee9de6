//! Access control: authentication from the `Authorization` header against
//! the store, then the resource's authorization policy.
use std::marker::PhantomData;
use vstd::prelude::*;

use crate::auth_data::{
    basic_scheme, header_text, header_verdict, is_visible_ascii, returns_verdict, AuthData,
    HeaderVerdict,
};
use crate::error::Error;
use crate::htpasswd_database::{accepts, HtpasswdDatabase};
use crate::text::is_first;
use crate::user_control_policy::{AnyLoggedUser, Anyone, UserControlPolicy};

verus! {

/// How a request authenticated.
#[derive(Clone, PartialEq, Eq, Hash, Debug)]
pub enum AuthResult {
    /// No credentials were sent.
    Anonymous,
    /// The credentials of this user were verified.
    LoggedUser { user: String },
}

impl View for AuthResult {
    type V = Option<Seq<char>>;

    /// The identity: `None` when anonymous, else the username.
    open spec fn view(&self) -> Option<Seq<char>> {
        match self {
            AuthResult::Anonymous => None,
            AuthResult::LoggedUser { user } => Some(user@),
        }
    }
}

/// Why a request is refused as unauthenticated.
#[derive(Debug)]
pub enum Denial {
    /// The header is not well-formed Basic credentials.
    MalformedHeader(Error),
    /// The header is well-formed, but the user is unknown or the password
    /// does not match.
    InvalidCredentials,
}

/// The result of access control for one request.
#[derive(Debug)]
pub enum Outcome {
    /// Admitted, with the identity to hand to the resource.
    Allowed(AuthResult),
    /// Not authenticated: a bad header or bad credentials.
    Unauthorized(Denial),
    /// Authenticated, but the policy does not admit this identity.
    Forbidden,
}

/// The result of access control for a request, in terms of the model.
pub enum Decision {
    Allow { identity: Option<Seq<char>> },
    RejectHeader { verdict: HeaderVerdict },
    RejectCredentials,
    Forbid,
}

/// The decision for a request with header value `header` (`None` where no
/// header was sent), against the users `m`, under policy `U`.
pub open spec fn decide<U: UserControlPolicy>(
    header: Option<Seq<u8>>,
    m: Map<Seq<char>, Seq<u8>>,
) -> Decision {
    let identity = match header {
        None => Ok(None),
        Some(h) => match header_verdict(h) {
            HeaderVerdict::Credentials { user, password } => if accepts(m, user, password) {
                Ok(Some(user))
            } else {
                Err(Decision::RejectCredentials)
            },
            v => Err(Decision::RejectHeader { verdict: v }),
        },
    };
    match identity {
        Err(d) => d,
        Ok(id) => if U::admits(id) {
            Decision::Allow { identity: id }
        } else {
            Decision::Forbid
        },
    }
}

/// `r` is the outcome that carries decision `d`.
pub open spec fn carries(r: Outcome, d: Decision) -> bool {
    match d {
        Decision::Allow { identity } => r matches Outcome::Allowed(a) && a@ == identity,
        Decision::RejectHeader { verdict } => r matches Outcome::Unauthorized(
            Denial::MalformedHeader(e),
        ) && returns_verdict(Err(e), verdict),
        Decision::RejectCredentials => r matches Outcome::Unauthorized(Denial::InvalidCredentials),
        Decision::Forbid => r matches Outcome::Forbidden,
    }
}

/// The view of an optional header value.
pub open spec fn header_view(header: Option<&[u8]>) -> Option<Seq<u8>> {
    match header {
        Some(h) => Some(h@),
        None => None,
    }
}

/// Without a header a request is anonymous: `Anyone` admits it and
/// `AnyLoggedUser` forbids it, whatever the store.
pub proof fn lemma_no_header_is_anonymous(m: Map<Seq<char>, Seq<u8>>)
    ensures
        decide::<Anyone>(None, m) == (Decision::Allow { identity: None }),
        decide::<AnyLoggedUser>(None, m) == Decision::Forbid,
{
}

/// Credentials that the store accepts give their user access under
/// `AnyLoggedUser`.
pub proof fn lemma_valid_credentials_admitted(h: Seq<u8>, m: Map<Seq<char>, Seq<u8>>)
    requires
        header_verdict(h) matches HeaderVerdict::Credentials { user, password } && accepts(
            m,
            user,
            password,
        ),
    ensures
        decide::<AnyLoggedUser>(Some(h), m) == (Decision::Allow {
            identity: Some(header_verdict(h)->Credentials_user),
        }),
{
}

/// Well-formed credentials that the store does not accept are unauthorized,
/// never forbidden, under any policy; an unknown user and a known user with a
/// wrong password get the same decision.
pub proof fn lemma_bad_credentials_unauthorized<U: UserControlPolicy>(
    h: Seq<u8>,
    m: Map<Seq<char>, Seq<u8>>,
)
    requires
        header_verdict(h) matches HeaderVerdict::Credentials { user, password } && !accepts(
            m,
            user,
            password,
        ),
    ensures
        decide::<U>(Some(h), m) == Decision::RejectCredentials,
{
}

/// A header whose scheme is not `Basic` is unauthorized as an unsupported
/// scheme that names the scheme, under any policy and store.
pub proof fn lemma_other_scheme_rejected<U: UserControlPolicy>(
    h: Seq<u8>,
    sp: int,
    m: Map<Seq<char>, Seq<u8>>,
)
    requires
        h.len() >= 7,
        forall|i: int| 0 <= i < h.len() ==> is_visible_ascii(#[trigger] h[i]),
        is_first(header_text(h), ' ', sp),
        header_text(h).subrange(0, sp) != basic_scheme(),
    ensures
        decide::<U>(Some(h), m) == (Decision::RejectHeader {
            verdict: HeaderVerdict::UnsupportedScheme { scheme: header_text(h).subrange(0, sp) },
        }),
{
    crate::text::lemma_first_index(header_text(h), ' ', sp);
}

/// A header that is not well-formed credentials, an empty password among
/// them, is rejected before the store is consulted: the decision is the same
/// for every store and every policy.
pub proof fn lemma_malformed_header_ignores_store<U: UserControlPolicy>(
    h: Seq<u8>,
    m1: Map<Seq<char>, Seq<u8>>,
    m2: Map<Seq<char>, Seq<u8>>,
)
    requires
        !(header_verdict(h) is Credentials),
    ensures
        decide::<U>(Some(h), m1) == (Decision::RejectHeader { verdict: header_verdict(h) }),
        decide::<U>(Some(h), m1) == decide::<U>(Some(h), m2),
{
}

/// An identity admitted by policy `U`, handed to the resource that `U`
/// protects.
#[derive(Debug)]
pub struct AuthControl<U: UserControlPolicy> {
    pub _phantom_data: PhantomData<U>,
    pub auth_result: AuthResult,
}

impl<U: UserControlPolicy> AuthControl<U> {
    /// Authenticates a request by its `Authorization` header value against
    /// the store, then applies policy `U`: a bad header or bad credentials
    /// are unauthorized, an identity that `U` does not admit is forbidden.
    pub fn authorize(header: Option<&[u8]>, db: &HtpasswdDatabase) -> (r: Outcome)
        requires
            db.wf(),
        ensures
            carries(r, decide::<U>(header_view(header), db@)),
    {
        let auth_result = match AuthData::from_header(header) {
            Ok(Some(auth_data)) => {
                if db.is_valid(auth_data.user.as_str(), auth_data.password.as_str()) {
                    AuthResult::LoggedUser { user: auth_data.user }
                } else {
                    return Outcome::Unauthorized(Denial::InvalidCredentials);
                }
            },
            Ok(None) => AuthResult::Anonymous,
            Err(e) => {
                return Outcome::Unauthorized(Denial::MalformedHeader(e));
            },
        };
        if U::allows(&auth_result) {
            Outcome::Allowed(auth_result)
        } else {
            Outcome::Forbidden
        }
    }

    /// The identity `auth_result`, once policy `U` admits it.
    pub fn granted(auth_result: AuthResult) -> (r: Option<AuthControl<U>>)
        ensures
            U::admits(auth_result@) ==> (r matches Some(c) && c.auth_result == auth_result),
            !U::admits(auth_result@) ==> r is None,
    {
        if U::allows(&auth_result) {
            Some(AuthControl { _phantom_data: PhantomData, auth_result })
        } else {
            None
        }
    }
}

} // verus!
