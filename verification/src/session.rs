//! The stored session and the server addresses derived from it.
use vstd::prelude::*;
use crate::text::{trim_end_char, trim_end_matches_char};

verus! {

/// What `~/.csfx/config.json` holds.
#[derive(Debug, Clone, PartialEq, Eq)]
pub struct Config {
    pub server: String,
    pub token: Option<String>,
    pub compose_dir: Option<String>,
    pub ghcr_org: Option<String>,
}

/// The API root of a server: its address without trailing slashes, then `/api`.
pub open spec fn api_root(server: Seq<char>) -> Seq<char> {
    trim_end_char(server, '/') + "/api"@
}

/// The API root of `server`.
pub fn base_url(server: &str) -> (r: String)
    ensures
        r@ == api_root(server@),
{
    let mut r = trim_end_matches_char(server, '/');
    r.append("/api");
    r
}

/// The value of the `Authorization` header for `token`.
pub fn bearer(token: &str) -> (r: String)
    ensures
        r@ == "Bearer "@ + token@,
{
    let mut r = String::from_str("Bearer ");
    r.append(token);
    r
}

/// The message shown when no session is stored.
pub open spec fn not_authenticated() -> Seq<char> {
    "not authenticated, run: csf login"@
}

/// The server and token of the stored session, for the commands that talk
/// to the API; without a stored configuration or token, the message to
/// show.
pub fn credentials(config: Option<Config>) -> (r: Result<(String, String), String>)
    ensures
        match config {
            Some(c) => match c.token {
                Some(t) => r matches Ok((s, tok)) && s@ == c.server@ && tok@ == t@,
                None => r matches Err(m) && m@ == not_authenticated(),
            },
            None => r matches Err(m) && m@ == not_authenticated(),
        },
{
    match config {
        Some(c) => match c.token {
            Some(t) => Ok((c.server, t)),
            None => Err(String::from_str("not authenticated, run: csf login")),
        },
        None => Err(String::from_str("not authenticated, run: csf login")),
    }
}

/// The stored token, as `token` prints it; the message to show when there
/// is no configuration or no token.
pub fn stored_token(config: Option<Config>) -> (r: Result<String, String>)
    ensures
        match config {
            Some(c) => match c.token {
                Some(t) => r matches Ok(tok) && tok@ == t@,
                None => r matches Err(m) && m@ == "No token stored"@,
            },
            None => r matches Err(m) && m@ == "Not logged in"@,
        },
{
    match config {
        Some(c) => match c.token {
            Some(t) => Ok(t),
            None => Err(String::from_str("No token stored")),
        },
        None => Err(String::from_str("Not logged in")),
    }
}

/// A trailing slash on the server address does not change the API root.
pub proof fn law_trailing_slash_ignored(server: Seq<char>)
    ensures
        api_root(server.push('/')) == api_root(server),
{
    assert(server.push('/').drop_last() =~= server);
}

} // verus!
