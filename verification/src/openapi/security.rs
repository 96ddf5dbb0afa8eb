use vstd::prelude::*;

verus! {

/// A security scheme usable by the operations: HTTP authentication, an API
/// key, an OAuth2 flow set, or OpenID Connect discovery.
#[derive(Debug)]
pub enum SecurityScheme {
    APIKey { location: APIKeyLocation, name: String },
    Http { scheme: String, bearer_format: Option<String> },
    OAuth2 { flows: OAuth2Flows },
    OpenIDConnect { open_id_connect_url: String },
}

/// Where an API key is carried.
#[derive(Debug)]
pub enum APIKeyLocation {
    Query,
    Header,
    Cookie,
}

/// The OAuth2 flows a scheme offers.
#[derive(Debug)]
pub struct OAuth2Flows {
    pub implicit: Option<OAuth2Flow>,
    pub password: Option<OAuth2Flow>,
    pub client_credentials: Option<OAuth2Flow>,
    pub authorization_code: Option<OAuth2Flow>,
}

/// One OAuth2 flow, with its endpoints and scope mapping.
#[derive(Debug)]
pub enum OAuth2Flow {
    Implicit {
        authorization_url: String,
        refresh_url: Option<String>,
        scopes: Vec<(String, String)>,
    },
    Password { refresh_url: Option<String>, token_url: String, scopes: Vec<(String, String)> },
    ClientCredentials {
        refresh_url: Option<String>,
        token_url: String,
        scopes: Vec<(String, String)>,
    },
    AuthorizationCode {
        authorization_url: String,
        token_url: String,
        refresh_url: Option<String>,
        scopes: Vec<(String, String)>,
    },
}

} // verus!
