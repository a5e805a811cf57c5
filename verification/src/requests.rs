//! Builders for the authenticated API requests: URLs and header
//! values, each pinned to its exact character sequence.

use vstd::prelude::*;
use vstd::string::StringExecFns;
use crate::text::{dec_str, usize_to_string};

verus! {

/// The `Accept` value selecting the API's JSON media type.
pub fn accept_value() -> (r: &'static str)
    ensures
        r@ == "application/vnd.github.v3+json"@,
{
    "application/vnd.github.v3+json"
}

/// The user-agent identifier this tool sends.
pub fn user_agent_value() -> (r: &'static str)
    ensures
        r@ == "repo-deleter"@,
{
    "repo-deleter"
}

/// View of the authorization header carrying `token`.
pub open spec fn auth_header_view(token: Seq<char>) -> Seq<char> {
    "token "@ + token
}

/// The authorization header value for `token`.
pub fn auth_header(token: &str) -> (r: String)
    ensures
        r@ == auth_header_view(token@),
{
    let mut r = "token ".to_owned();
    r.append(token);
    r
}

/// View of the URL listing one page of the caller's repositories.
pub open spec fn list_url_view(per_page: int, page: int) -> Seq<char> {
    "https://api.github.com/user/repos?per_page="@ + dec_str(per_page) + "&page="@ + dec_str(page)
}

/// The URL requesting page `page` with `per_page` records per page.
pub fn list_url(per_page: usize, page: usize) -> (r: String)
    ensures
        r@ == list_url_view(per_page as int, page as int),
{
    let mut r = "https://api.github.com/user/repos?per_page=".to_owned();
    let pp = usize_to_string(per_page);
    r.append(pp.as_str());
    r.append("&page=");
    let pg = usize_to_string(page);
    r.append(pg.as_str());
    proof {
        assert(r@ =~= list_url_view(per_page as int, page as int));
    }
    r
}

/// View of the URL deleting the repository named `full_name`.
pub open spec fn delete_url_view(full_name: Seq<char>) -> Seq<char> {
    "https://api.github.com/repos/"@ + full_name
}

/// The URL deleting the repository with owner-qualified `full_name`.
pub fn delete_url(full_name: &str) -> (r: String)
    ensures
        r@ == delete_url_view(full_name@),
{
    let mut r = "https://api.github.com/repos/".to_owned();
    r.append(full_name);
    r
}

} // verus!
