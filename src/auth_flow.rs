//! The decisions of one authentication attempt: parse the header, then, given
//! what the credential store holds for the identifier, settle the outcome and
//! the HTTP reply. The store lookup itself happens between the two steps.
use crate::basic_auth::{
    credential_text, extract_basic_credentials, splits_at_first_colon, well_formed_basic,
    BasicCredentials,
};
use crate::password::{password_matches, UserService};
use vstd::prelude::*;

verus! {

/// Body of the reply to a successful authentication.
pub const SUCCESS_BODY: &'static str = "{\"message\":\"Authentication successful\"}";

/// Body of the reply to a wrong secret or an unknown identifier.
pub const INVALID_CREDENTIALS_BODY: &'static str = "{\"error\":\"Invalid credentials\"}";

/// Body of the reply to an absent or malformed `Authorization` header.
pub const HEADER_REQUIRED_BODY: &'static str = "{\"error\":\"Authorization header required\"}";

/// How one authentication attempt ended.
#[derive(Clone, Debug, PartialEq, Eq)]
pub enum AuthOutcome {
    Authenticated(String),
    InvalidCredentials,
    MalformedRequest,
}

/// Mathematical counterpart of [`AuthOutcome`].
pub enum OutcomeView {
    Authenticated(Seq<char>),
    InvalidCredentials,
    MalformedRequest,
}

impl View for AuthOutcome {
    type V = OutcomeView;

    open spec fn view(&self) -> OutcomeView {
        match self {
            AuthOutcome::Authenticated(id) => OutcomeView::Authenticated(id@),
            AuthOutcome::InvalidCredentials => OutcomeView::InvalidCredentials,
            AuthOutcome::MalformedRequest => OutcomeView::MalformedRequest,
        }
    }
}

/// The next thing to do after the header has been read.
#[derive(Clone, Debug, PartialEq, Eq)]
pub enum AuthStep {
    /// Look the identifier up in the credential store, then call
    /// [`finish_authentication`].
    LookUp(BasicCredentials),
    /// The attempt is over.
    Finish(AuthOutcome),
}

/// The HTTP reply for an outcome.
#[derive(Clone, Debug, PartialEq, Eq)]
pub struct AuthReply {
    pub status: u16,
    pub body: String,
}

/// The outcome once the store has answered: the identifier is authenticated
/// exactly when a hash is stored for it and the secret matches that hash.
pub open spec fn decided_outcome(
    identifier: Seq<char>,
    secret: Seq<char>,
    stored_hash: Option<Seq<char>>,
) -> OutcomeView {
    match stored_hash {
        Some(h) => if password_matches(h, secret) {
            OutcomeView::Authenticated(identifier)
        } else {
            OutcomeView::InvalidCredentials
        },
        None => OutcomeView::InvalidCredentials,
    }
}

/// The HTTP status for an outcome.
pub open spec fn reply_status(o: OutcomeView) -> u16 {
    match o {
        OutcomeView::Authenticated(_) => 200,
        _ => 401,
    }
}

/// The reply body for an outcome; it never carries the identifier.
pub open spec fn reply_body(o: OutcomeView) -> Seq<char> {
    match o {
        OutcomeView::Authenticated(_) => SUCCESS_BODY@,
        OutcomeView::InvalidCredentials => INVALID_CREDENTIALS_BODY@,
        OutcomeView::MalformedRequest => HEADER_REQUIRED_BODY@,
    }
}

/// First step: read the `Authorization` header. Malformed or absent headers
/// end the attempt; otherwise the identifier must be looked up.
pub fn begin_authentication(header: Option<&str>) -> (r: AuthStep)
    ensures
        r is LookUp <==> well_formed_basic(header),
        r matches AuthStep::LookUp(c) ==> splits_at_first_colon(
            credential_text(header.unwrap()@).unwrap(),
            c.identifier@,
            c.secret@,
        ),
        r matches AuthStep::Finish(o) ==> o@ == OutcomeView::MalformedRequest,
{
    match extract_basic_credentials(header) {
        Ok(c) => AuthStep::LookUp(c),
        Err(_) => AuthStep::Finish(AuthOutcome::MalformedRequest),
    }
}

/// Second step: settle the outcome from the hash stored for the identifier,
/// `None` where the identifier is unknown.
pub fn finish_authentication(credentials: &BasicCredentials, stored_hash: Option<&str>) -> (r:
    AuthOutcome)
    ensures
        r@ == decided_outcome(
            credentials.identifier@,
            credentials.secret@,
            match stored_hash {
                Some(h) => Some(h@),
                None => None,
            },
        ),
{
    match stored_hash {
        Some(h) => {
            if UserService::verify_password(h, credentials.secret.as_str()) {
                AuthOutcome::Authenticated(credentials.identifier.clone())
            } else {
                AuthOutcome::InvalidCredentials
            }
        },
        None => AuthOutcome::InvalidCredentials,
    }
}

/// The HTTP reply for an outcome.
pub fn reply_for(outcome: &AuthOutcome) -> (r: AuthReply)
    ensures
        r.status == reply_status(outcome@),
        r.body@ == reply_body(outcome@),
{
    match outcome {
        AuthOutcome::Authenticated(_) => AuthReply { status: 200, body: SUCCESS_BODY.to_owned() },
        AuthOutcome::InvalidCredentials => AuthReply {
            status: 401,
            body: INVALID_CREDENTIALS_BODY.to_owned(),
        },
        AuthOutcome::MalformedRequest => AuthReply {
            status: 401,
            body: HEADER_REQUIRED_BODY.to_owned(),
        },
    }
}

/// A secret that matches the hash stored for an identifier authenticates that
/// identifier.
pub proof fn lemma_stored_secret_authenticates(
    identifier: Seq<char>,
    secret: Seq<char>,
    stored_hash: Seq<char>,
)
    requires
        password_matches(stored_hash, secret),
    ensures
        decided_outcome(identifier, secret, Some(stored_hash)) == OutcomeView::Authenticated(
            identifier,
        ),
        reply_status(decided_outcome(identifier, secret, Some(stored_hash))) == 200,
{
}

/// An unknown identifier and a wrong secret for a known one end the same way,
/// with the same status and body, so a reply never reveals whether an
/// identifier is registered.
pub proof fn lemma_unknown_identifier_indistinguishable(
    identifier: Seq<char>,
    secret: Seq<char>,
    stored_hash: Seq<char>,
)
    requires
        !password_matches(stored_hash, secret),
    ensures
        decided_outcome(identifier, secret, None) == decided_outcome(
            identifier,
            secret,
            Some(stored_hash),
        ),
        decided_outcome(identifier, secret, None) == OutcomeView::InvalidCredentials,
        reply_status(decided_outcome(identifier, secret, None)) == reply_status(
            decided_outcome(identifier, secret, Some(stored_hash)),
        ),
        reply_body(decided_outcome(identifier, secret, None)) == reply_body(
            decided_outcome(identifier, secret, Some(stored_hash)),
        ),
{
}

/// A malformed request is answered with the same status as bad credentials
/// but a body of its own.
pub proof fn lemma_malformed_reply_distinct()
    ensures
        reply_status(OutcomeView::MalformedRequest) == reply_status(
            OutcomeView::InvalidCredentials,
        ),
        reply_body(OutcomeView::MalformedRequest) != reply_body(OutcomeView::InvalidCredentials),
{
    reveal_strlit("{\"error\":\"Authorization header required\"}");
    reveal_strlit("{\"error\":\"Invalid credentials\"}");
    assert(HEADER_REQUIRED_BODY@[10] != INVALID_CREDENTIALS_BODY@[10]);
}

} // verus!
