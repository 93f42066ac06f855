//! What the API client is built from: the base URL and token a
//! configuration must hold, and the URL of each request.
use vstd::prelude::*;
use crate::config::{Config, ConfigView};
use crate::text::{copy_str, strip_leading, strip_trailing, trim_start_char, trim_end_char, dec};
use crate::render::labelled_number;

verus! {

/// Why a client cannot be built.
#[derive(PartialEq, Eq, Structural, Clone, Copy, Debug)]
pub enum ClientError {
    /// The configuration holds no Portainer URL.
    MissingUrl,
    /// The configuration holds no API token.
    MissingToken,
}

/// What a client is built from: the base URL and the API token, or why it
/// cannot be (the URL is checked first).
pub open spec fn settings(c: ConfigView) -> Result<(Seq<char>, Seq<char>), ClientError> {
    match c.portainer_url {
        None => Err(ClientError::MissingUrl),
        Some(u) => match c.api_token {
            None => Err(ClientError::MissingToken),
            Some(t) => Ok((u, t)),
        },
    }
}

/// The base URL and API token of a configuration.
pub fn client_settings(cfg: &Config) -> (r: Result<(String, String), ClientError>)
    ensures
        match settings(cfg@) {
            Ok((u, t)) => r matches Ok(p) && p.0@ == u && p.1@ == t,
            Err(e) => r == Err::<(String, String), ClientError>(e),
        },
{
    match &cfg.portainer_url {
        None => Err(ClientError::MissingUrl),
        Some(u) => match &cfg.api_token {
            None => Err(ClientError::MissingToken),
            Some(t) => Ok((copy_str(u.as_str()), copy_str(t.as_str()))),
        },
    }
}

/// The URL of an API path: the base without its trailing slashes, `/api/`,
/// and the path without its leading slashes.
pub open spec fn api_url(base: Seq<char>, path: Seq<char>) -> Seq<char> {
    strip_trailing(base, '/') + "/api/"@ + strip_leading(path, '/')
}

/// Builds the URL of an API path.
pub fn api_url_exec(base: &str, path: &str) -> (r: String)
    ensures
        r@ == api_url(base@, path@),
{
    let mut u = trim_end_char(base, '/');
    u.append("/api/");
    u.append(trim_start_char(path, '/').as_str());
    u
}

/// `endpoints/{id}`: the path of one endpoint.
pub fn endpoint_path(id: u32) -> (r: String)
    ensures
        r@ == "endpoints/"@ + dec(id as nat),
{
    labelled_number("endpoints/", id as u64)
}

/// `stacks/{id}{tail}`: the path of a request on one stack.
pub fn stack_path(id: u32, tail: &str) -> (r: String)
    ensures
        r@ == "stacks/"@ + dec(id as nat) + tail@,
{
    let mut t = labelled_number("stacks/", id as u64);
    t.append(tail);
    t
}

} // verus!
