//! Backend-specific extraction of `{repo identifier, branch, file path}` from
//! the inbound request path, as an explicit tokenizer over path segments: the
//! repo identifier is the first two components, the anchor token `raw` is
//! matched literally, and the trailing segments are the file path.
use vstd::prelude::*;
use vstd::string::{StrSliceExecFns, StringExecFns};
use crate::errors::PathParseError;
use crate::text::{
    lower_of,
    lowercase,
    spec_split,
    spec_join,
    split_by,
    join_with,
    string_eq,
    tail_from,
};

verus! {

/// The components a backend pattern extracts from an inbound path. For GitLab
/// the numeric project id must still be resolved before a URL can be built.
pub struct MatchedPath {
    /// `owner/repo`, already lowercased.
    pub repo_identifier: String,
    pub branch: String,
    pub file_path: String,
}

pub open spec fn raw_anchor() -> Seq<char> {
    seq!['r', 'a', 'w']
}

pub open spec fn dash_seg() -> Seq<char> {
    seq!['-']
}

/// Case-preserved `owner/repo`, branch and file path of a path shaped as
/// `/{owner}/{repo}/{optional "raw"}/{branch}/{file...}`; `None` when the
/// path does not fit.
pub open spec fn github_parts(path: Seq<char>) -> Option<(Seq<char>, Seq<char>, Seq<char>)> {
    if path.len() == 0 || path[0] != '/' {
        None
    } else {
        let segs = spec_split(path.drop_first(), '/');
        if segs.len() < 2 || segs[0].len() == 0 || segs[1].len() == 0 {
            None
        } else {
            let rid = segs[0] + seq!['/'] + segs[1];
            if segs.len() >= 5 && segs[2] == raw_anchor() {
                let branch = segs[3];
                let file = spec_join(segs.skip(4), seq!['/']);
                if branch.len() == 0 || file.len() == 0 {
                    None
                } else {
                    Some((rid, branch, file))
                }
            } else if segs.len() >= 4 {
                let branch = segs[2];
                let file = spec_join(segs.skip(3), seq!['/']);
                if branch.len() == 0 || file.len() == 0 {
                    None
                } else {
                    Some((rid, branch, file))
                }
            } else {
                None
            }
        }
    }
}

/// Case-preserved `owner/repo`, branch and file path of a path shaped as
/// `/{owner}/{repo}/{optional "-"}/raw/{branch}/{file...}`; the first `raw`
/// segment after the repo identifier is the anchor, so later `raw` tokens
/// belong to the file path. `None` when the path does not fit.
pub open spec fn gitlab_parts(path: Seq<char>) -> Option<(Seq<char>, Seq<char>, Seq<char>)> {
    if path.len() == 0 || path[0] != '/' {
        None
    } else {
        let segs = spec_split(path.drop_first(), '/');
        if segs.len() < 2 || segs[0].len() == 0 || segs[1].len() == 0 {
            None
        } else {
            let rid = segs[0] + seq!['/'] + segs[1];
            let i: int = if 2 < segs.len() && segs[2] == dash_seg() {
                3
            } else {
                2
            };
            if segs.len() >= i + 3 && segs[i] == raw_anchor() {
                let branch = segs[i + 1];
                let file = spec_join(segs.skip(i + 2), seq!['/']);
                if branch.len() == 0 || file.len() == 0 {
                    None
                } else {
                    Some((rid, branch, file))
                }
            } else {
                None
            }
        }
    }
}

/// Extracts the GitHub components of `path`, lowercasing the repo identifier.
pub fn match_github_path(path: &str) -> (r: Result<MatchedPath, PathParseError>)
    ensures
        r is Ok <==> github_parts(path@) is Some,
        r is Ok ==> r->Ok_0.repo_identifier@ == lower_of(github_parts(path@)->Some_0.0),
        r is Ok ==> r->Ok_0.branch@ == github_parts(path@)->Some_0.1,
        r is Ok ==> r->Ok_0.file_path@ == github_parts(path@)->Some_0.2,
{
    let n = path.unicode_len();
    if n == 0 || path.get_char(0) != '/' {
        return Err(PathParseError::NoMatch);
    }
    let rest = path.substring_char(1, n);
    proof {
        assert(rest@ =~= path@.drop_first());
    }
    let segs = split_by(rest, '/');
    let ghost sv = spec_split(path@.drop_first(), '/');
    proof {
        assert(segs.deep_view() == sv);
        assert(segs.deep_view().len() == segs@.len());
        assert(forall|k: int|
            0 <= k < segs@.len() ==> #[trigger] segs.deep_view()[k] == segs@[k]@);
    }
    if segs.len() < 2 {
        return Err(PathParseError::NoMatch);
    }
    if segs[0].as_str().unicode_len() == 0 || segs[1].as_str().unicode_len() == 0 {
        return Err(PathParseError::NoMatch);
    }
    let mut rid_raw: String = segs[0].clone();
    rid_raw.append("/");
    rid_raw.append(segs[1].as_str());
    proof {
        reveal_strlit("/");
        assert("/"@ =~= seq!['/']);
        assert(rid_raw@ == sv[0] + seq!['/'] + sv[1]);
    }
    let raw_lit: String = "raw".to_owned();
    proof {
        reveal_strlit("raw");
        assert("raw"@ =~= raw_anchor());
    }
    if segs.len() >= 5 && string_eq(&segs[2], &raw_lit) {
        let branch = segs[3].clone();
        let tail = tail_from(&segs, 4);
        let file = join_with(&tail, "/");
        proof {
            assert(file@ == spec_join(sv.skip(4), seq!['/']));
        }
        if branch.as_str().unicode_len() == 0 || file.as_str().unicode_len() == 0 {
            return Err(PathParseError::NoMatch);
        }
        let repo_identifier = lowercase(rid_raw.as_str());
        return Ok(MatchedPath { repo_identifier, branch, file_path: file });
    }
    if segs.len() >= 4 {
        let branch = segs[2].clone();
        let tail = tail_from(&segs, 3);
        let file = join_with(&tail, "/");
        proof {
            assert(file@ == spec_join(sv.skip(3), seq!['/']));
        }
        if branch.as_str().unicode_len() == 0 || file.as_str().unicode_len() == 0 {
            return Err(PathParseError::NoMatch);
        }
        let repo_identifier = lowercase(rid_raw.as_str());
        return Ok(MatchedPath { repo_identifier, branch, file_path: file });
    }
    Err(PathParseError::NoMatch)
}

/// Extracts the GitLab components of `path`, lowercasing the repo identifier.
pub fn match_gitlab_path(path: &str) -> (r: Result<MatchedPath, PathParseError>)
    ensures
        r is Ok <==> gitlab_parts(path@) is Some,
        r is Ok ==> r->Ok_0.repo_identifier@ == lower_of(gitlab_parts(path@)->Some_0.0),
        r is Ok ==> r->Ok_0.branch@ == gitlab_parts(path@)->Some_0.1,
        r is Ok ==> r->Ok_0.file_path@ == gitlab_parts(path@)->Some_0.2,
{
    let n = path.unicode_len();
    if n == 0 || path.get_char(0) != '/' {
        return Err(PathParseError::NoMatch);
    }
    let rest = path.substring_char(1, n);
    proof {
        assert(rest@ =~= path@.drop_first());
    }
    let segs = split_by(rest, '/');
    let ghost sv = spec_split(path@.drop_first(), '/');
    proof {
        assert(segs.deep_view() == sv);
        assert(segs.deep_view().len() == segs@.len());
        assert(forall|k: int|
            0 <= k < segs@.len() ==> #[trigger] segs.deep_view()[k] == segs@[k]@);
    }
    if segs.len() < 2 {
        return Err(PathParseError::NoMatch);
    }
    if segs[0].as_str().unicode_len() == 0 || segs[1].as_str().unicode_len() == 0 {
        return Err(PathParseError::NoMatch);
    }
    let mut rid_raw: String = segs[0].clone();
    rid_raw.append("/");
    rid_raw.append(segs[1].as_str());
    proof {
        reveal_strlit("/");
        assert("/"@ =~= seq!['/']);
        assert(rid_raw@ == sv[0] + seq!['/'] + sv[1]);
    }
    let dash_lit: String = "-".to_owned();
    let raw_lit: String = "raw".to_owned();
    proof {
        reveal_strlit("-");
        reveal_strlit("raw");
        assert("-"@ =~= dash_seg());
        assert("raw"@ =~= raw_anchor());
    }
    let idx: usize = if segs.len() > 2 && string_eq(&segs[2], &dash_lit) {
        3
    } else {
        2
    };
    if segs.len() >= idx + 3 && string_eq(&segs[idx], &raw_lit) {
        let branch = segs[idx + 1].clone();
        let tail = tail_from(&segs, idx + 2);
        let file = join_with(&tail, "/");
        proof {
            assert(file@ == spec_join(sv.skip(idx as int + 2), seq!['/']));
        }
        if branch.as_str().unicode_len() == 0 || file.as_str().unicode_len() == 0 {
            return Err(PathParseError::NoMatch);
        }
        let repo_identifier = lowercase(rid_raw.as_str());
        return Ok(MatchedPath { repo_identifier, branch, file_path: file });
    }
    Err(PathParseError::NoMatch)
}

} // verus!
