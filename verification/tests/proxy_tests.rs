use rawproxy::backend::{BackendType, UrlOutcome};
use rawproxy::credentials::{is_verified, pick_credential, AuthHeader, Credentials};
use rawproxy::directory::{RepoDirectory, RepoEntry};
use rawproxy::errors::{
    CredentialConfigError, PathParseError, ProxyError, ResolutionError, UrlBuildError,
};
use rawproxy::format::{handle_format, pick_format, FormatKind};
use rawproxy::resolver::{Repos, ResolveStep};

fn entry(id: i32, full_path: &str) -> RepoEntry {
    RepoEntry {
        id,
        path: full_path.rsplit('/').next().unwrap().to_string(),
        full_path: full_path.to_string(),
        default_branch: "main".to_string(),
    }
}

fn creds(
    github: Option<&str>,
    gitlab: Option<&str>,
    user: Option<&str>,
    pass: Option<&str>,
) -> Credentials {
    Credentials {
        github_token: github.map(|s| s.to_string()),
        gitlab_token: gitlab.map(|s| s.to_string()),
        bitbucket_username: user.map(|s| s.to_string()),
        bitbucket_password: pass.map(|s| s.to_string()),
    }
}

// --- resolver: cached key answers without a provider call -------------------

#[test]
fn cached_key_resolves_without_provider() {
    let dir = RepoDirectory::map_repo_info(vec![entry(7, "Group/Proj"), entry(9, "Other/Repo")]);
    let repos = Repos::new(Some(dir));
    // the fast path answers at once; it never asks for the listing
    match repos.get_id("group/proj") {
        ResolveStep::Resolved(id) => assert_eq!(id, 7),
        ResolveStep::NeedProviderListing => panic!("fast path must not ask for the listing"),
    }
}

#[test]
fn absent_cache_asks_for_listing() {
    let repos = Repos::new(None);
    assert!(matches!(
        repos.get_id("group/proj"),
        ResolveStep::NeedProviderListing
    ));
}

// --- resolver: stale cache, one rebuild, cache repopulated ------------------

#[test]
fn stale_cache_resolves_after_one_rebuild() {
    let stale = RepoDirectory::map_repo_info(vec![entry(7, "Group/Proj")]);
    let mut repos = Repos::new(Some(stale));
    assert!(matches!(
        repos.get_id("group/newborn"),
        ResolveStep::NeedProviderListing
    ));
    let fresh_listing = vec![entry(7, "Group/Proj"), entry(31, "Group/Newborn")];
    let got = repos.rebuild_and_get(Some(fresh_listing), "group/newborn");
    assert_eq!(got, Ok(31));
    // the rebuilt snapshot now holds the entry
    let snapshot = repos.directory().as_ref().expect("a rebuilt directory");
    assert_eq!(snapshot.lookup("group/newborn"), Some(31));
    assert_eq!(snapshot.lookup("group/proj"), Some(7));
}

// --- resolver: absent everywhere fails with RepoNotFound --------------------

#[test]
fn absent_everywhere_is_repo_not_found() {
    let mut repos = Repos::new(None);
    assert!(matches!(
        repos.get_id("nobody/nothing"),
        ResolveStep::NeedProviderListing
    ));
    let got = repos.rebuild_and_get(Some(vec![entry(7, "Group/Proj")]), "nobody/nothing");
    assert_eq!(got, Err(ResolutionError::RepoNotFound));
}

#[test]
fn provider_failure_is_provider_unavailable() {
    let mut repos = Repos::new(None);
    let got = repos.rebuild_and_get(None, "group/proj");
    assert_eq!(got, Err(ResolutionError::ProviderUnavailable));
}

// --- directory: case-insensitive lookup, replacement, uniqueness ------------

#[test]
fn lookup_is_case_insensitive() {
    let dir = RepoDirectory::map_repo_info(vec![entry(12, "Owner/Repo")]);
    assert_eq!(dir.lookup("owner/repo"), Some(12));
    assert_eq!(dir.lookup("Owner/Repo"), None); // queries are lowercased by the caller
}

#[test]
fn later_duplicate_replaces_earlier() {
    let dir = RepoDirectory::map_repo_info(vec![
        entry(1, "Dup/Name"),
        entry(2, "other/one"),
        entry(3, "dup/name"),
    ]);
    assert_eq!(dir.len(), 2);
    assert_eq!(dir.lookup("dup/name"), Some(3));
    assert_eq!(dir.lookup("other/one"), Some(2));
}

#[test]
fn empty_directory_finds_nothing() {
    let dir = RepoDirectory::new();
    assert_eq!(dir.len(), 0);
    assert_eq!(dir.lookup("anything/at-all"), None);
}

// --- backend: GitHub translation --------------------------------------------

#[test]
fn github_url_with_raw_anchor() {
    let backend = BackendType::Github("https://raw.githubusercontent.com".to_string());
    match backend.parse_url("/octocat/Hello-World/raw/main/README.md") {
        Ok(UrlOutcome::Built(u)) => {
            assert_eq!(u, "https://raw.githubusercontent.com/octocat/hello-world/main/README.md")
        }
        _ => panic!("expected a built URL"),
    }
}

#[test]
fn github_url_without_anchor() {
    let backend = BackendType::Github("https://raw.githubusercontent.com".to_string());
    match backend.parse_url("/Octo/Repo/dev/dir/file.txt") {
        Ok(UrlOutcome::Built(u)) => {
            assert_eq!(u, "https://raw.githubusercontent.com/octo/repo/dev/dir/file.txt")
        }
        _ => panic!("expected a built URL"),
    }
}

#[test]
fn github_short_path_is_path_error() {
    let backend = BackendType::Github("https://raw.githubusercontent.com".to_string());
    let r = backend.parse_url("/onlyowner/repo");
    assert!(matches!(
        r,
        Err(UrlBuildError::Path(PathParseError::NoMatch))
    ));
}

#[test]
fn github_four_segments_with_raw_treats_raw_as_branch() {
    // with nothing after it, a third segment `raw` can only be the branch
    let backend = BackendType::Github("https://raw.githubusercontent.com".to_string());
    match backend.parse_url("/a/b/raw/c") {
        Ok(UrlOutcome::Built(u)) => {
            assert_eq!(u, "https://raw.githubusercontent.com/a/b/raw/c")
        }
        _ => panic!("expected a built URL"),
    }
}

#[test]
fn github_trailing_slash_has_no_file_path() {
    let backend = BackendType::Github("https://raw.githubusercontent.com".to_string());
    assert!(matches!(
        backend.parse_url("/a/b/c/"),
        Err(UrlBuildError::Path(PathParseError::NoMatch))
    ));
}

// --- backend: GitLab translation ---------------------------------------------

#[test]
fn gitlab_url_with_resolved_id() {
    let backend = BackendType::Gitlab("https://gitlab.com".to_string());
    let matched = match backend.parse_url("/group/proj/-/raw/main/src/a b.rs") {
        Ok(UrlOutcome::NeedsProjectId(m)) => m,
        _ => panic!("expected a resolution request"),
    };
    assert_eq!(matched.repo_identifier, "group/proj");
    assert_eq!(matched.branch, "main");
    assert_eq!(matched.file_path, "src/a b.rs");
    let u = backend.build_gitlab_url(&matched, 42);
    assert_eq!(
        u,
        "https://gitlab.com/api/v4/projects/42/repository/files/src%2Fa%20b.rs/raw?ref=main"
    );
}

#[test]
fn gitlab_without_dash_segment() {
    let backend = BackendType::Gitlab("https://gitlab.com".to_string());
    let matched = match backend.parse_url("/Group/Proj/raw/dev/a/b/c.txt") {
        Ok(UrlOutcome::NeedsProjectId(m)) => m,
        _ => panic!("expected a resolution request"),
    };
    assert_eq!(matched.repo_identifier, "group/proj");
    assert_eq!(matched.branch, "dev");
    assert_eq!(matched.file_path, "a/b/c.txt");
}

#[test]
fn gitlab_later_raw_token_belongs_to_file() {
    let backend = BackendType::Gitlab("https://gitlab.com".to_string());
    let matched = match backend.parse_url("/g/p/raw/main/raw/x.txt") {
        Ok(UrlOutcome::NeedsProjectId(m)) => m,
        _ => panic!("expected a resolution request"),
    };
    assert_eq!(matched.branch, "main");
    assert_eq!(matched.file_path, "raw/x.txt");
}

#[test]
fn gitlab_path_without_anchor_is_path_error() {
    let backend = BackendType::Gitlab("https://gitlab.com".to_string());
    let r = backend.parse_url("/group/proj/main/file.txt");
    assert!(matches!(
        r,
        Err(UrlBuildError::Path(PathParseError::NoMatch))
    ));
}

#[test]
fn gitlab_trailing_slash_has_no_file_path() {
    let backend = BackendType::Gitlab("https://gitlab.com".to_string());
    assert!(matches!(
        backend.parse_url("/g/p/raw/main/"),
        Err(UrlBuildError::Path(PathParseError::NoMatch))
    ));
}

#[test]
fn gitlab_dash_without_anchor_is_path_error() {
    let backend = BackendType::Gitlab("https://gitlab.com".to_string());
    assert!(matches!(
        backend.parse_url("/g/p/-/main/file.txt"),
        Err(UrlBuildError::Path(PathParseError::NoMatch))
    ));
}

// --- backend: Bitbucket passthrough ------------------------------------------

#[test]
fn bitbucket_passes_path_through_verbatim() {
    let backend = BackendType::Bitbucket("https://api.bitbucket.org".to_string());
    match backend.parse_url("/2.0/repositories/team/repo/src/main/file.txt") {
        Ok(UrlOutcome::Built(u)) => assert_eq!(
            u,
            "https://api.bitbucket.org//2.0/repositories/team/repo/src/main/file.txt"
        ),
        _ => panic!("expected a built URL"),
    }
}

// --- backend selection --------------------------------------------------------

#[test]
fn backend_selection_is_case_insensitive() {
    assert!(matches!(
        rawproxy::backend::parse_backend_type("github"),
        BackendType::Github(_)
    ));
    assert!(matches!(
        rawproxy::backend::parse_backend_type("BitBucket"),
        BackendType::Bitbucket(_)
    ));
    assert!(matches!(
        rawproxy::backend::parse_backend_type("GITLAB"),
        BackendType::Gitlab(_)
    ));
    // anything unrecognized, the empty string included, selects GitLab
    assert!(matches!(
        rawproxy::backend::parse_backend_type(""),
        BackendType::Gitlab(_)
    ));
}

#[test]
fn backend_base_urls() {
    let b = rawproxy::backend::parse_backend_type("GITHUB");
    assert_eq!(b.base_url(), "https://raw.githubusercontent.com");
    let b = rawproxy::backend::parse_backend_type("bitbucket");
    assert_eq!(b.base_url(), "https://api.bitbucket.org");
    let b = rawproxy::backend::parse_backend_type("anything");
    assert_eq!(b.base_url(), "https://gitlab.com");
}

// --- the line transform -------------------------------------------------------

#[test]
fn adguardhome_transform() {
    let out = handle_format(".ads.example.com\n\nexample.org\n", FormatKind::AdguardHome);
    assert_eq!(out, "||ads.example.com^\nexample.org");
}

#[test]
fn plain_format_drops_blank_lines_only() {
    let out = handle_format("a\n\nb\nc\n", FormatKind::Plain);
    assert_eq!(out, "a\nb\nc");
}

#[test]
fn format_of_empty_body_is_empty() {
    assert_eq!(handle_format("", FormatKind::AdguardHome), "");
    assert_eq!(handle_format("\n\n", FormatKind::Plain), "");
}

#[test]
fn adguardhome_transform_of_bare_dot() {
    assert_eq!(handle_format(".", FormatKind::AdguardHome), "||^");
    assert_eq!(
        handle_format("dot.inside\n.lead", FormatKind::AdguardHome),
        "dot.inside\n||lead^"
    );
}

#[test]
fn pick_format_matches_type_parameter_case_insensitively() {
    assert_eq!(
        pick_format(Some(&"AdGuardHome".to_string())),
        FormatKind::AdguardHome
    );
    assert_eq!(
        pick_format(Some(&"adguardhome".to_string())),
        FormatKind::AdguardHome
    );
    assert_eq!(pick_format(Some(&"plain".to_string())), FormatKind::Plain);
    assert_eq!(pick_format(None), FormatKind::Plain);
}

// --- credential injection ------------------------------------------------------

#[test]
fn unverified_request_never_carries_credentials() {
    let c = creds(Some("ghtok"), Some("gltok"), Some("user"), Some("pass"));
    for backend in [
        BackendType::Github("x".to_string()),
        BackendType::Gitlab("x".to_string()),
        BackendType::Bitbucket("x".to_string()),
    ] {
        match pick_credential(&backend, false, &c) {
            Ok(None) => {}
            _ => panic!("unverified request must stay unauthenticated"),
        }
    }
}

#[test]
fn verified_github_gets_bearer_token() {
    let c = creds(Some("ghtok"), None, None, None);
    let backend = BackendType::Github("x".to_string());
    match pick_credential(&backend, true, &c) {
        Ok(Some(AuthHeader::Bearer(t))) => assert_eq!(t, "ghtok"),
        _ => panic!("expected a bearer credential"),
    }
}

#[test]
fn verified_gitlab_gets_bearer_token() {
    let c = creds(None, Some("gltok"), None, None);
    let backend = BackendType::Gitlab("x".to_string());
    match pick_credential(&backend, true, &c) {
        Ok(Some(AuthHeader::Bearer(t))) => assert_eq!(t, "gltok"),
        _ => panic!("expected a bearer credential"),
    }
}

#[test]
fn verified_bitbucket_gets_basic_pair() {
    let c = creds(None, None, Some("user"), Some("pass"));
    let backend = BackendType::Bitbucket("x".to_string());
    match pick_credential(&backend, true, &c) {
        Ok(Some(AuthHeader::Basic(u, p))) => {
            assert_eq!(u, "user");
            assert_eq!(p, "pass");
        }
        _ => panic!("expected a basic credential"),
    }
}

#[test]
fn verified_but_unconfigured_is_hard_failure() {
    let empty = creds(None, None, None, None);
    for backend in [
        BackendType::Github("x".to_string()),
        BackendType::Gitlab("x".to_string()),
        BackendType::Bitbucket("x".to_string()),
    ] {
        assert_eq!(
            pick_credential(&backend, true, &empty),
            Err(CredentialConfigError::MissingCredential)
        );
    }
    // one half of the basic pair is not enough
    let half = creds(None, None, Some("user"), None);
    assert_eq!(
        pick_credential(&BackendType::Bitbucket("x".to_string()), true, &half),
        Err(CredentialConfigError::MissingCredential)
    );
}

#[test]
fn verification_compares_secret_and_token() {
    let secret = "s3cr3t".to_string();
    assert!(is_verified(Some(&secret), Some(&"s3cr3t".to_string())));
    assert!(!is_verified(Some(&secret), Some(&"wrong".to_string())));
    assert!(!is_verified(Some(&secret), None));
    assert!(!is_verified(None, Some(&"s3cr3t".to_string())));
}

// --- error surface --------------------------------------------------------------

#[test]
fn error_status_classes() {
    assert_eq!(ProxyError::MethodNotAllowed.status_code(), 405);
    assert_eq!(
        ProxyError::Url(UrlBuildError::Path(PathParseError::NoMatch)).status_code(),
        400
    );
    assert_eq!(
        ProxyError::Url(UrlBuildError::Resolution(ResolutionError::RepoNotFound)).status_code(),
        400
    );
    assert_eq!(
        ProxyError::Credential(CredentialConfigError::MissingCredential).status_code(),
        500
    );
    assert_eq!(ProxyError::UpstreamFetch.status_code(), 500);
}

#[test]
fn error_reasons_are_short() {
    assert_eq!(ProxyError::MethodNotAllowed.reason(), "Method Not Allowed");
    assert_eq!(ProxyError::UpstreamFetch.reason(), "upstream access failed");
}
