//! The credential injector: decides whether the outbound request carries a
//! credential, and which, from the backend and the caller's verification.
use vstd::prelude::*;
use crate::backend::BackendType;
use crate::errors::CredentialConfigError;
use crate::text::string_eq;

verus! {

/// The per-backend credentials the configuration supplies; any of them may be
/// absent.
pub struct Credentials {
    pub github_token: Option<String>,
    pub gitlab_token: Option<String>,
    pub bitbucket_username: Option<String>,
    pub bitbucket_password: Option<String>,
}

/// The auth scheme the outbound request carries.
#[derive(Debug, PartialEq, Eq)]
pub enum AuthHeader {
    Bearer(String),
    Basic(String, String),
}

/// Whether the caller presented the shared secret: true exactly when a secret
/// is configured, a token came with the request, and the two are equal.
pub fn is_verified(secret: Option<&String>, token_param: Option<&String>) -> (r: bool)
    ensures
        r == (secret matches Some(s) && token_param matches Some(t) && s@ == t@),
{
    match (secret, token_param) {
        (Some(s), Some(t)) => string_eq(s, t),
        _ => false,
    }
}

/// An unverified request never carries a credential, whatever the backend.
/// A verified request carries the backend's configured credential — bearer
/// for GitHub and GitLab, basic for Bitbucket — and a missing credential is a
/// hard failure, never a silent fall-back to unauthenticated.
pub fn pick_credential(target: &BackendType, verified: bool, creds: &Credentials) -> (r: Result<
    Option<AuthHeader>,
    CredentialConfigError,
>)
    ensures
        !verified ==> r == Ok::<Option<AuthHeader>, CredentialConfigError>(None),
        verified && target is Github ==> r == (match creds.github_token {
            Some(t) => Ok::<Option<AuthHeader>, CredentialConfigError>(
                Some(AuthHeader::Bearer(t)),
            ),
            None => Err(CredentialConfigError::MissingCredential),
        }),
        verified && target is Gitlab ==> r == (match creds.gitlab_token {
            Some(t) => Ok::<Option<AuthHeader>, CredentialConfigError>(
                Some(AuthHeader::Bearer(t)),
            ),
            None => Err(CredentialConfigError::MissingCredential),
        }),
        verified && target is Bitbucket ==> r == (match (
            creds.bitbucket_username,
            creds.bitbucket_password,
        ) {
            (Some(u), Some(p)) => Ok::<Option<AuthHeader>, CredentialConfigError>(
                Some(AuthHeader::Basic(u, p)),
            ),
            _ => Err(CredentialConfigError::MissingCredential),
        }),
{
    if !verified {
        return Ok(None);
    }
    match target {
        BackendType::Github(_) => {
            match &creds.github_token {
                Some(t) => Ok(Some(AuthHeader::Bearer(t.clone()))),
                None => Err(CredentialConfigError::MissingCredential),
            }
        },
        BackendType::Gitlab(_) => {
            match &creds.gitlab_token {
                Some(t) => Ok(Some(AuthHeader::Bearer(t.clone()))),
                None => Err(CredentialConfigError::MissingCredential),
            }
        },
        BackendType::Bitbucket(_) => {
            match (&creds.bitbucket_username, &creds.bitbucket_password) {
                (Some(u), Some(p)) => Ok(Some(AuthHeader::Basic(u.clone(), p.clone()))),
                _ => Err(CredentialConfigError::MissingCredential),
            }
        },
    }
}

} // verus!
