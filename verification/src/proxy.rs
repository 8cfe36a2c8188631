//! Configuration of the MCP proxy that forwards tool calls to the platform
//! API, and the credentials it presents.
use vstd::prelude::*;
use crate::keys::handlers::bearer_token_of;

verus! {

/// Proxy configuration: the platform API key and base URL.
#[derive(Clone, Debug)]
pub struct Config {
    pub api_key: String,
    pub api_url: String,
}

/// Why a proxy configuration could not be formed.
#[derive(Debug, PartialEq)]
pub enum ConfigError {
    /// No API key was given.
    MissingApiKey,
}

impl ConfigError {
    /// The message reported for this error.
    pub fn message(&self) -> (m: &'static str)
        ensures
            m@ == "LIGHTARCHITECTS_API_KEY is required \u{2014} get one at https://lightarchitects.ai"@,
    {
        "LIGHTARCHITECTS_API_KEY is required \u{2014} get one at https://lightarchitects.ai"
    }
}

impl Config {
    /// The configuration of the given settings: the API key is required;
    /// the URL defaults to `"https://api.lightarchitects.ai"`.
    pub fn from_settings(api_key: Option<String>, api_url: Option<String>) -> (r: Result<Config, ConfigError>)
        ensures
            match api_key {
                None => r == Err::<Config, ConfigError>(ConfigError::MissingApiKey),
                Some(k) => r matches Ok(c) && c.api_key == k && c.api_url@ == match api_url {
                    Some(u) => u@,
                    None => "https://api.lightarchitects.ai"@,
                },
            },
    {
        let api_key = match api_key {
            Some(k) => k,
            None => return Err(ConfigError::MissingApiKey),
        };
        let api_url = match api_url {
            Some(u) => u,
            None => "https://api.lightarchitects.ai".to_owned(),
        };
        Ok(Config { api_key, api_url })
    }

    /// The tool listing endpoint: `<api_url>/v1/mcp/tools`.
    pub fn tools_url(&self) -> (r: String)
        ensures
            r@ == self.api_url@ + "/v1/mcp/tools"@,
    {
        let mut r = self.api_url.clone();
        r.append("/v1/mcp/tools");
        r
    }

    /// The tool call endpoint: `<api_url>/v1/mcp/call`.
    pub fn call_url(&self) -> (r: String)
        ensures
            r@ == self.api_url@ + "/v1/mcp/call"@,
    {
        let mut r = self.api_url.clone();
        r.append("/v1/mcp/call");
        r
    }

    /// The `Authorization` header value the proxy presents: `Bearer <api_key>`.
    pub fn authorization(&self) -> (r: String)
        ensures
            r@ == "Bearer "@ + self.api_key@,
    {
        let mut r = "Bearer ".to_owned();
        r.append(self.api_key.as_str());
        r
    }
}

/// The credentials the proxy presents are the ones the key service reads
/// back: the bearer token of `Bearer <key>` is the key.
pub proof fn lemma_authorization_round_trip(api_key: Seq<char>)
    ensures
        bearer_token_of("Bearer "@ + api_key) == Some(api_key),
{
    reveal_strlit("Bearer ");
    assert(("Bearer "@ + api_key).take(7) =~= "Bearer "@);
    assert(("Bearer "@ + api_key).skip(7) =~= api_key);
}

} // verus!
