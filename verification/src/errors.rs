//! The error taxonomy of the proxy core, and how each kind surfaces to the
//! caller: a status class and a short human-readable reason.
use vstd::prelude::*;

verus! {

/// The inbound path does not fit the active backend's pattern.
#[derive(Clone, Copy, Debug, PartialEq, Eq, Structural)]
pub enum PathParseError {
    NoMatch,
}

/// Failure of the GitLab project-id lookup.
#[derive(Clone, Copy, Debug, PartialEq, Eq, Structural)]
pub enum ResolutionError {
    /// The repository is in neither the cached directory nor a fresh rebuild.
    RepoNotFound,
    /// The provider-listing call itself failed; nothing could be rebuilt.
    ProviderUnavailable,
}

/// Failure to build the upstream URL: wraps a path-match or resolution fault.
#[derive(Clone, Copy, Debug, PartialEq, Eq, Structural)]
pub enum UrlBuildError {
    Path(PathParseError),
    Resolution(ResolutionError),
}

/// A verified request selected a backend whose credential is not configured.
#[derive(Clone, Copy, Debug, PartialEq, Eq, Structural)]
pub enum CredentialConfigError {
    MissingCredential,
}

/// Any terminal fault of one request, as the surrounding host sees it.
#[derive(Clone, Copy, Debug, PartialEq, Eq, Structural)]
pub enum ProxyError {
    MethodNotAllowed,
    Url(UrlBuildError),
    Credential(CredentialConfigError),
    /// The outbound content fetch failed or its body could not be decoded.
    UpstreamFetch,
}

impl ProxyError {
    /// Path and URL faults are the client's; credential configuration and
    /// upstream faults are the server's; a non-GET method has its own status.
    pub fn status_code(&self) -> (r: u16)
        ensures
            r == (match *self {
                ProxyError::MethodNotAllowed => 405u16,
                ProxyError::Url(_) => 400u16,
                ProxyError::Credential(_) => 500u16,
                ProxyError::UpstreamFetch => 500u16,
            }),
    {
        match *self {
            ProxyError::MethodNotAllowed => 405,
            ProxyError::Url(_) => 400,
            ProxyError::Credential(_) => 500,
            ProxyError::UpstreamFetch => 500,
        }
    }

    /// A short reason string, never internal detail.
    pub fn reason(&self) -> (r: &'static str)
        ensures
            self is MethodNotAllowed ==> r@ == "Method Not Allowed"@,
            self is Url ==> r@ == "cannot build upstream url"@,
            self is Credential ==> r@ == "backend credential missing"@,
            self is UpstreamFetch ==> r@ == "upstream access failed"@,
    {
        match *self {
            ProxyError::MethodNotAllowed => "Method Not Allowed",
            ProxyError::Url(_) => "cannot build upstream url",
            ProxyError::Credential(_) => "backend credential missing",
            ProxyError::UpstreamFetch => "upstream access failed",
        }
    }
}

} // verus!
