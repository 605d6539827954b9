//! What the Git-hosting service is asked, worked out before anything is
//! sent: whose repository a URL names, which route answers for the bot's
//! account, and what a URL looks like once it carries a token.
use vstd::prelude::*;
use vstd::utf8::encode_utf8;
use crate::error::WorkspaceError;
use crate::text::{has_prefix, starts_with, trim_end_matches, without_suffix};
use crate::trusted::{
    base64_decode, base64_decoded, url_parse, url_path_of, url_segments, url_set_credentials,
    url_with_credentials, CREDENTIAL_BYTES_LIMIT,
};

verus! {

/// The user name under which an installation token is sent.
pub const TOKEN_USER: &'static str = "x-access-token";

/// What a URL without owner and repository answers.
pub open spec fn no_owner_text() -> Seq<char> {
    "Could not extract owner and repo from url"@
}

/// What a URL that takes no credentials answers.
pub open spec fn no_token_text() -> Seq<char> {
    "Could not set token on url"@
}

/// What a URL of another scheme answers.
pub open spec fn https_only_text() -> Seq<char> {
    "Only https urls are supported"@
}

/// Owner and repository, read off a URL's path segments: the first two,
/// the second without `.git`.
pub open spec fn owner_and_repo_of(segments: Result<Option<Seq<Seq<char>>>, Seq<char>>) -> Result<
    (Seq<char>, Seq<char>),
    Seq<char>,
> {
    match segments {
        Ok(Some(parts)) => if parts.len() >= 2 {
            Ok((parts[0], without_suffix(parts[1], ".git"@)))
        } else {
            Err(no_owner_text())
        },
        Ok(None) => Err(no_owner_text()),
        Err(text) => Err(text),
    }
}

/// Reads owner and repository off the path segments of a URL.
pub fn owner_and_repo(segments: Result<Option<Vec<String>>, String>) -> (r: Result<
    (String, String),
    WorkspaceError,
>)
    ensures
        match owner_and_repo_of(
            match segments {
                Ok(Some(parts)) => Ok(Some(parts.deep_view())),
                Ok(None) => Ok(None),
                Err(text) => Err(text@),
            },
        ) {
            Ok(pair) => r matches Ok(found) && found.0@ == pair.0 && found.1@ == pair.1,
            Err(text) => r matches Err(WorkspaceError::Validation(m)) && m@ == text,
        },
{
    match segments {
        Ok(Some(parts)) => {
            if parts.len() >= 2 {
                let owner = parts[0].clone();
                let repo = trim_end_matches(parts[1].as_str(), ".git");
                proof {
                    assert(parts.deep_view()[0] == parts[0]@);
                    assert(parts.deep_view()[1] == parts[1]@);
                }
                Ok((owner, repo))
            } else {
                Err(
                    WorkspaceError::Validation(
                        String::from_str("Could not extract owner and repo from url"),
                    ),
                )
            }
        },
        Ok(None) => Err(
            WorkspaceError::Validation(String::from_str("Could not extract owner and repo from url")),
        ),
        Err(text) => Err(WorkspaceError::Validation(text)),
    }
}

/// Whose repository a URL names.
pub fn extract_owner_and_repo(repo_url: &str) -> (r: Result<(String, String), WorkspaceError>)
    ensures
        match owner_and_repo_of(url_segments(repo_url@)) {
            Ok(pair) => r matches Ok(found) && found.0@ == pair.0 && found.1@ == pair.1,
            Err(text) => r matches Err(WorkspaceError::Validation(m)) && m@ == text,
        },
{
    match url_parse(repo_url) {
        Ok((_, segments)) => owner_and_repo(Ok(segments)),
        Err(text) => owner_and_repo(Err(text)),
    }
}

/// Decodes the application's private key, which is kept as Base64. A key
/// that does not decode is refused with the decoder's words.
pub fn decode_private_key(encoded: &str) -> (r: Result<Vec<u8>, WorkspaceError>)
    ensures
        match base64_decoded(encoded@) {
            Ok(bytes) => r matches Ok(b) && b@ == bytes,
            Err(text) => r matches Err(WorkspaceError::Validation(m)) && m@ == text,
        },
{
    match base64_decode(encoded) {
        Ok(bytes) => Ok(bytes),
        Err(text) => Err(WorkspaceError::Validation(text)),
    }
}

/// The route that answers for the account of the application named `app_name`.
pub open spec fn bot_user_route_text(app_name: Seq<char>) -> Seq<char> {
    "/users/"@ + app_name + "[bot]"@
}

/// Builds the route for the bot's account.
pub fn bot_user_route(app_name: &str) -> (route: String)
    ensures
        route@ == bot_user_route_text(app_name@),
{
    let mut route = String::from_str("/users/");
    route.append(app_name);
    route.append("[bot]");
    route
}

/// The route on which an installation's tokens are created: the path of the
/// URL that the service names for it.
pub fn access_token_route(access_tokens_url: &str) -> (r: Result<String, WorkspaceError>)
    ensures
        match url_path_of(access_tokens_url@) {
            Ok(path) => r matches Ok(p) && p@ == path,
            Err(text) => r matches Err(WorkspaceError::Validation(m)) && m@ == text,
        },
{
    match url_parse(access_tokens_url) {
        Ok((path, _)) => Ok(path),
        Err(text) => Err(WorkspaceError::Validation(text)),
    }
}

/// The URL that carries a token, given what setting the credentials gave.
/// Only `https` URLs get one.
pub open spec fn token_url_of(
    repo_url: Seq<char>,
    credentialed: Result<Option<Seq<char>>, Seq<char>>,
) -> Result<Seq<char>, Seq<char>> {
    if !has_prefix(repo_url, "https://"@) {
        Err(https_only_text())
    } else {
        match credentialed {
            Ok(Some(url)) => Ok(url),
            Ok(None) => Err(no_token_text()),
            Err(text) => Err(text),
        }
    }
}

/// Judges the outcome of setting credentials on `repo_url`.
pub fn token_url(repo_url: &str, credentialed: Result<Option<String>, String>) -> (r: Result<
    String,
    WorkspaceError,
>)
    ensures
        match token_url_of(
            repo_url@,
            match credentialed {
                Ok(Some(u)) => Ok(Some(u@)),
                Ok(None) => Ok(None),
                Err(text) => Err(text@),
            },
        ) {
            Ok(url) => r matches Ok(u) && u@ == url,
            Err(text) => r matches Err(WorkspaceError::Validation(m)) && m@ == text,
        },
{
    if !starts_with(repo_url, "https://") {
        return Err(WorkspaceError::Validation(String::from_str("Only https urls are supported")));
    }
    match credentialed {
        Ok(Some(url)) => Ok(url),
        Ok(None) => Err(WorkspaceError::Validation(String::from_str("Could not set token on url"))),
        Err(text) => Err(WorkspaceError::Validation(text)),
    }
}

/// What a URL or a token that is too long answers.
pub open spec fn too_long_text() -> Seq<char> {
    "The url or the token is too long"@
}

/// A text is short enough to go into a URL with credentials.
pub open spec fn fits(text: Seq<char>) -> bool {
    encode_utf8(text).len() <= CREDENTIAL_BYTES_LIMIT
}

/// Whether a text is short enough to go into a URL with credentials.
pub fn short_enough(text: &str) -> (r: bool)
    ensures
        r == fits(text@),
{
    text.as_bytes().len() <= CREDENTIAL_BYTES_LIMIT
}

/// Lets only `https` URLs pass. This is asked before anything is sent to
/// the hosting service.
pub fn require_https(repo_url: &str) -> (r: Result<(), WorkspaceError>)
    ensures
        has_prefix(repo_url@, "https://"@) ==> r is Ok,
        !has_prefix(repo_url@, "https://"@) ==> (r matches Err(WorkspaceError::Validation(m))
            && m@ == https_only_text()),
{
    if starts_with(repo_url, "https://") {
        Ok(())
    } else {
        Err(WorkspaceError::Validation(String::from_str("Only https urls are supported")))
    }
}

/// Puts a token into a repository's URL, as the password of `TOKEN_USER`.
/// A URL of another scheme is refused, then a URL or a token of more than
/// `CREDENTIAL_BYTES_LIMIT` bytes; for every other input the answer is what
/// setting the credentials gives.
pub fn add_token_to_url(repo_url: &str, token: &str) -> (r: Result<String, WorkspaceError>)
    ensures
        if !has_prefix(repo_url@, "https://"@) {
            r matches Err(WorkspaceError::Validation(m)) && m@ == https_only_text()
        } else if !(fits(repo_url@) && fits(TOKEN_USER@) && fits(token@)) {
            r matches Err(WorkspaceError::Validation(m)) && m@ == too_long_text()
        } else {
            match token_url_of(repo_url@, url_with_credentials(repo_url@, TOKEN_USER@, token@)) {
                Ok(url) => r matches Ok(u) && u@ == url,
                Err(text) => r matches Err(WorkspaceError::Validation(m)) && m@ == text,
            }
        },
{
    match require_https(repo_url) {
        Err(e) => Err(e),
        Ok(()) => {
            if short_enough(repo_url) && short_enough(TOKEN_USER) && short_enough(token) {
                token_url(repo_url, url_set_credentials(repo_url, TOKEN_USER, token))
            } else {
                Err(WorkspaceError::Validation(String::from_str("The url or the token is too long")))
            }
        },
    }
}

} // verus!
