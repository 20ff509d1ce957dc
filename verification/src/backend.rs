//! The backend strategy: one variant per provider, selected once from
//! configuration, translating a matched path into the upstream raw-content
//! URL.
use vstd::prelude::*;
use vstd::string::StringExecFns;
use crate::encode::{encode_component, url_encoded};
use crate::errors::{PathParseError, UrlBuildError, ResolutionError};
use crate::path_match::{
    MatchedPath,
    github_parts,
    gitlab_parts,
    match_github_path,
    match_gitlab_path,
};
use crate::text::{lower_of, upper_of, uppercase, dec_of_i32, i32_to_dec, string_eq};

verus! {

/// The active backend, carrying its base URL.
pub enum BackendType {
    Github(String),
    Gitlab(String),
    Bitbucket(String),
}

impl BackendType {
    /// The configured base URL of this backend.
    pub open spec fn base(&self) -> Seq<char> {
        match *self {
            BackendType::Github(ref u) => u@,
            BackendType::Gitlab(ref u) => u@,
            BackendType::Bitbucket(ref u) => u@,
        }
    }

    /// The base URL as text (in place of a `Display` impl).
    pub fn base_url(&self) -> (r: &str)
        ensures
            r@ == self.base(),
    {
        match self {
            BackendType::Github(u) => u.as_str(),
            BackendType::Gitlab(u) => u.as_str(),
            BackendType::Bitbucket(u) => u.as_str(),
        }
    }
}

pub open spec fn github_default_base() -> Seq<char> {
    "https://raw.githubusercontent.com"@
}

pub open spec fn bitbucket_default_base() -> Seq<char> {
    "https://api.bitbucket.org"@
}

pub open spec fn gitlab_default_base() -> Seq<char> {
    "https://gitlab.com"@
}

/// Selects the backend from the configured identifier, compared
/// case-insensitively; anything unrecognized (the empty string included)
/// selects GitLab.
pub fn parse_backend_type(b_type: &str) -> (r: BackendType)
    ensures
        upper_of(b_type@) == "GITHUB"@ ==> (r matches BackendType::Github(u) && u@
            == github_default_base()),
        upper_of(b_type@) == "BITBUCKET"@ ==> (r matches BackendType::Bitbucket(u) && u@
            == bitbucket_default_base()),
        upper_of(b_type@) != "GITHUB"@ && upper_of(b_type@) != "BITBUCKET"@ ==> (r
            matches BackendType::Gitlab(u) && u@ == gitlab_default_base()),
{
    proof {
        reveal_strlit("GITHUB");
        reveal_strlit("BITBUCKET");
        assert("GITHUB"@.len() != "BITBUCKET"@.len());
    }
    let up = uppercase(b_type);
    let github_word: String = "GITHUB".to_owned();
    let bitbucket_word: String = "BITBUCKET".to_owned();
    if string_eq(&up, &github_word) {
        BackendType::Github("https://raw.githubusercontent.com".to_owned())
    } else if string_eq(&up, &bitbucket_word) {
        BackendType::Bitbucket("https://api.bitbucket.org".to_owned())
    } else {
        BackendType::Gitlab("https://gitlab.com".to_owned())
    }
}

/// What `parse_url` hands back: GitHub and Bitbucket URLs complete at once;
/// GitLab needs the numeric project id resolved first.
pub enum UrlOutcome {
    Built(String),
    /// Resolve `matched.repo_identifier` to a project id, then call
    /// [`BackendType::build_gitlab_url`].
    NeedsProjectId(MatchedPath),
}

/// The GitHub raw-content URL: base, lowercased `owner/repo`, branch and file
/// path, `/`-joined.
pub open spec fn spec_github_url(base: Seq<char>, path: Seq<char>) -> Seq<char> {
    let p = github_parts(path)->Some_0;
    base + seq!['/'] + lower_of(p.0) + seq!['/'] + p.1 + seq!['/'] + p.2
}

/// The Bitbucket URL: the inbound path passed through verbatim.
pub open spec fn spec_bitbucket_url(base: Seq<char>, path: Seq<char>) -> Seq<char> {
    base + seq!['/'] + path
}

/// The GitLab content-API URL for a resolved project id: the file path is
/// percent-encoded, the branch rides in the `ref` query parameter.
pub open spec fn spec_gitlab_url(
    base: Seq<char>,
    id: int,
    file_path: Seq<char>,
    branch: Seq<char>,
) -> Seq<char> {
    base + "/api/v4/projects/"@ + dec_of_i32(id) + "/repository/files/"@ + url_encoded(file_path)
        + "/raw?ref="@ + branch
}

impl BackendType {
    /// Translates the inbound path. GitHub and Bitbucket URLs are built
    /// outright; a GitLab path yields its matched components, which still
    /// need the project id. A path that does not fit the backend's pattern
    /// is the error, wrapped as a URL-build fault.
    pub fn parse_url(&self, path: &str) -> (r: Result<UrlOutcome, UrlBuildError>)
        ensures
            self is Bitbucket ==> (r matches Ok(UrlOutcome::Built(u)) && u@
                == spec_bitbucket_url(self.base(), path@)),
            self is Github ==> ((r matches Ok(UrlOutcome::Built(u)) && u@ == spec_github_url(
                self.base(),
                path@,
            )) <==> github_parts(path@) is Some),
            self is Github && github_parts(path@) is None ==> r == Err::<UrlOutcome, UrlBuildError>(
                UrlBuildError::Path(PathParseError::NoMatch),
            ),
            self is Gitlab ==> (r is Ok <==> gitlab_parts(path@) is Some),
            self is Gitlab && gitlab_parts(path@) is Some ==> (r
                matches Ok(UrlOutcome::NeedsProjectId(m)) && m.repo_identifier@ == lower_of(
                gitlab_parts(path@)->Some_0.0,
            ) && m.branch@ == gitlab_parts(path@)->Some_0.1 && m.file_path@ == gitlab_parts(
                path@,
            )->Some_0.2),
            self is Gitlab && gitlab_parts(path@) is None ==> r == Err::<UrlOutcome, UrlBuildError>(
                UrlBuildError::Path(PathParseError::NoMatch),
            ),
    {
        match self {
            BackendType::Bitbucket(base) => {
                let mut u: String = base.clone();
                u.append("/");
                u.append(path);
                proof {
                    reveal_strlit("/");
                    assert(u@ =~= spec_bitbucket_url(self.base(), path@));
                }
                Ok(UrlOutcome::Built(u))
            },
            BackendType::Github(base) => {
                match match_github_path(path) {
                    Ok(m) => {
                        let mut u: String = base.clone();
                        u.append("/");
                        u.append(m.repo_identifier.as_str());
                        u.append("/");
                        u.append(m.branch.as_str());
                        u.append("/");
                        u.append(m.file_path.as_str());
                        proof {
                            reveal_strlit("/");
                            assert(u@ =~= spec_github_url(self.base(), path@));
                        }
                        Ok(UrlOutcome::Built(u))
                    },
                    Err(_) => Err(UrlBuildError::Path(PathParseError::NoMatch)),
                }
            },
            BackendType::Gitlab(_) => {
                match match_gitlab_path(path) {
                    Ok(m) => Ok(UrlOutcome::NeedsProjectId(m)),
                    Err(_) => Err(UrlBuildError::Path(PathParseError::NoMatch)),
                }
            },
        }
    }

    /// Builds the GitLab content URL once the project id is known.
    pub fn build_gitlab_url(&self, matched: &MatchedPath, id: i32) -> (r: String)
        ensures
            r@ == spec_gitlab_url(self.base(), id as int, matched.file_path@, matched.branch@),
    {
        let encoded = encode_component(matched.file_path.as_str());
        let mut u: String = self.base_url().to_owned();
        u.append("/api/v4/projects/");
        u.append(i32_to_dec(id).as_str());
        u.append("/repository/files/");
        u.append(encoded.as_str());
        u.append("/raw?ref=");
        u.append(matched.branch.as_str());
        u
    }

    /// Maps a resolver failure into the URL-build fault the caller surfaces.
    pub fn wrap_resolution_error(e: ResolutionError) -> (r: UrlBuildError)
        ensures
            r == UrlBuildError::Resolution(e),
    {
        UrlBuildError::Resolution(e)
    }
}

} // verus!
