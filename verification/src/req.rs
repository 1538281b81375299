use vstd::prelude::*;
use vstd::string::StringExecFns;

use crate::resp::{FinalToken, LoginToken, RefreshToken};
use crate::setting::Config;
use crate::text::str_equal;

verus! {

/// The grant kinds of the three token exchanges in the credential chain.
#[derive(Clone, Copy, Debug, PartialEq, Eq, Structural)]
pub enum GrantType {
    ClientCredentials,
    AccessToken,
    RefreshToken,
    Unknown,
}

/// The keyword a grant kind puts in a form body.
pub open spec fn grant_keyword_of(g: GrantType) -> Seq<char> {
    match g {
        GrantType::ClientCredentials => "client_credentials"@,
        GrantType::AccessToken => "access_token"@,
        GrantType::RefreshToken => "refresh_token"@,
        GrantType::Unknown => "unknown"@,
    }
}

/// The grant kind a keyword denotes.
pub open spec fn grant_of_keyword(s: Seq<char>) -> GrantType {
    if s == "client_credentials"@ {
        GrantType::ClientCredentials
    } else if s == "access_token"@ {
        GrantType::AccessToken
    } else if s == "refresh_token"@ {
        GrantType::RefreshToken
    } else {
        GrantType::Unknown
    }
}

impl GrantType {
    /// The keyword sent in a form body for this grant kind.
    pub fn as_grant_str(&self) -> (r: &'static str)
        ensures
            r@ == grant_keyword_of(*self),
    {
        match self {
            GrantType::ClientCredentials => "client_credentials",
            GrantType::AccessToken => "access_token",
            GrantType::RefreshToken => "refresh_token",
            GrantType::Unknown => "unknown",
        }
    }

    /// The grant kind a keyword denotes; anything unrecognized is
    /// `Unknown`.
    pub fn from_grant_str(value: &str) -> (r: Self)
        ensures
            r == grant_of_keyword(value@),
    {
        if str_equal(value, "client_credentials") {
            GrantType::ClientCredentials
        } else if str_equal(value, "access_token") {
            GrantType::AccessToken
        } else if str_equal(value, "refresh_token") {
            GrantType::RefreshToken
        } else {
            GrantType::Unknown
        }
    }
}

// The three token exchanges and the two data calls each split in two:
// the functions below construct the URL, form body and header values,
// and the caller puts them on the wire.

/// URL of the client-credentials exchange with the identity endpoint.
pub fn build_login_url(config: &Config) -> (r: String)
    ensures
        r@ == "https://login.microsoftonline.com/"@ + config.azure.tenant_id@
            + "/oauth2/v2.0/token"@,
{
    let mut s = String::from_str("https://login.microsoftonline.com/");
    s.append(config.azure_tenant_id());
    s.append("/oauth2/v2.0/token");
    s
}

/// Form body of the client-credentials exchange.
pub fn build_login_params(config: &Config) -> (r: Vec<(String, String)>)
    ensures
        r@.len() == 4,
        r@[0].0@ == "grant_type"@ && r@[0].1@ == "client_credentials"@,
        r@[1].0@ == "client_id"@ && r@[1].1@ == config.acr.image_manager_id@,
        r@[2].0@ == "client_secret"@ && r@[2].1@ == config.acr.image_manager_pwd@,
        r@[3].0@ == "scope"@ && r@[3].1@
            == "https://containerregistry.azure.net/.default openid offline_access profile"@,
{
    let mut v: Vec<(String, String)> = Vec::new();
    v.push(
        (
            String::from_str("grant_type"),
            String::from_str(GrantType::ClientCredentials.as_grant_str()),
        ),
    );
    v.push((String::from_str("client_id"), String::from_str(config.azure_acr_image_manager_id())));
    v.push(
        (String::from_str("client_secret"), String::from_str(config.azure_acr_image_manager_pwd())),
    );
    v.push(
        (
            String::from_str("scope"),
            String::from_str(
                "https://containerregistry.azure.net/.default openid offline_access profile",
            ),
        ),
    );
    v
}

/// URL of the exchange that turns a login token into a registry refresh
/// token.
pub fn build_exchange_url(config: &Config) -> (r: String)
    ensures
        r@ == "https://"@ + config.acr.endpoint@ + "/oauth2/exchange"@,
{
    let mut s = String::from_str("https://");
    s.append(config.azure_acr_endpoint());
    s.append("/oauth2/exchange");
    s
}

/// Form body of the access-token exchange: the login credential's token
/// and the registry host as the service.
pub fn build_exchange_params(login: &LoginToken, config: &Config) -> (r: Vec<(String, String)>)
    ensures
        r@.len() == 3,
        r@[0].0@ == "grant_type"@ && r@[0].1@ == "access_token"@,
        r@[1].0@ == "access_token"@ && r@[1].1@ == login.access_token@,
        r@[2].0@ == "service"@ && r@[2].1@ == config.acr.endpoint@,
{
    let mut v: Vec<(String, String)> = Vec::new();
    v.push(
        (String::from_str("grant_type"), String::from_str(GrantType::AccessToken.as_grant_str())),
    );
    v.push((String::from_str("access_token"), login.access_token.clone()));
    v.push((String::from_str("service"), String::from_str(config.azure_acr_endpoint())));
    v
}

/// URL for minting a scope-bound token from the refresh token.
pub fn build_scoped_token_url(config: &Config) -> (r: String)
    ensures
        r@ == "https://"@ + config.acr.endpoint@ + "/oauth2/token"@,
{
    let mut s = String::from_str("https://");
    s.append(config.azure_acr_endpoint());
    s.append("/oauth2/token");
    s
}

/// Form body of the refresh-token grant carrying the requested scope;
/// minted once per outbound call, since the scope is call-specific.
pub fn build_scoped_token_params(refresh: &RefreshToken, config: &Config, scope: &str) -> (r: Vec<
    (String, String),
>)
    ensures
        r@.len() == 4,
        r@[0].0@ == "grant_type"@ && r@[0].1@ == "refresh_token"@,
        r@[1].0@ == "refresh_token"@ && r@[1].1@ == refresh.refresh_token@,
        r@[2].0@ == "service"@ && r@[2].1@ == config.acr.endpoint@,
        r@[3].0@ == "scope"@ && r@[3].1@ == scope@,
{
    let mut v: Vec<(String, String)> = Vec::new();
    v.push(
        (String::from_str("grant_type"), String::from_str(GrantType::RefreshToken.as_grant_str())),
    );
    v.push((String::from_str("refresh_token"), refresh.refresh_token.clone()));
    v.push((String::from_str("service"), String::from_str(config.azure_acr_endpoint())));
    v.push((String::from_str("scope"), String::from_str(scope)));
    v
}

/// URL of a data call (catalog, tag list or delete) on the registry.
pub fn build_data_url(config: &Config, path: &str) -> (r: String)
    ensures
        r@ == "https://"@ + config.acr.endpoint@ + path@,
{
    let mut s = String::from_str("https://");
    s.append(config.azure_acr_endpoint());
    s.append(path);
    s
}

/// The Authorization header value carrying a scoped token.
pub fn build_bearer_header(token: &FinalToken) -> (r: String)
    ensures
        r@ == "Bearer "@ + token.access_token@,
{
    let mut s = String::from_str("Bearer ");
    s.append(token.access_token.as_str());
    s
}

/// The api-version query pair that every registry call carries.
pub fn api_version_param() -> (r: (String, String))
    ensures
        r.0@ == "api-version"@,
        r.1@ == "2021-07-01"@,
{
    (String::from_str("api-version"), String::from_str("2021-07-01"))
}

} // verus!
