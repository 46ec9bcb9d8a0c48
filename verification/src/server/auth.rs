//! User authentication: the token check the gateway consults before it
//! binds a connection to a session, and the configured single-sign-on
//! providers. The web-redirect glue and the HTTP code exchange live
//! outside the verified core; this module holds the decisions they rest
//! on.

use vstd::prelude::*;

use crate::user::UserId;

verus! {

/// Configures an OAuth2 client that can be used for authentication.
#[derive(Clone, Debug)]
pub struct OauthClient {
    /// Provider identifier used in local application URLs.
    pub id: String,
    /// OAuth2 application client identifier.
    pub client_id: String,
    /// OAuth2 application client secret.
    pub client_secret: String,
    /// OAuth2 application authorization URI.
    pub auth_url: String,
    /// OAuth2 application token URI.
    pub token_url: String,
    /// Additional OAuth2 scopes the application requests from the
    /// provider.
    pub scopes: Vec<String>,
}

/// Configuration for the auth service.
#[derive(Clone, Debug)]
pub struct AuthConfig {
    /// OAuth2 clients that users can authenticate against.
    pub oauth2_clients: Vec<OauthClient>,
}

/// Service for managing user authentication.
pub struct AuthService {
    config: AuthConfig,
}

impl AuthService {
    /// The configured OAuth2 providers.
    pub closed spec fn spec_providers(self) -> Seq<OauthClient> {
        self.config.oauth2_clients@
    }

    /// Constructs the auth service from its configuration.
    pub fn new(config: AuthConfig) -> (a: Self)
        ensures
            a.spec_providers() == config.oauth2_clients@,
    {
        AuthService { config }
    }

    /// Validates the supplied authentication token. Token issuance is
    /// not implemented yet, so no token is valid: every caller is
    /// rejected, and no session can come into being through this check.
    pub fn validate_token(&self, token: &String) -> (r: Option<UserId>)
        ensures
            r is None,
    {
        None
    }

    /// Finds the configured OAuth2 provider with the given identifier:
    /// the decision at the heart of the web-authorization flow. The HTTP
    /// redirect and code exchange built on the found provider live
    /// outside the verified core.
    pub fn find_provider(&self, provider: &String) -> (r: Option<&OauthClient>)
        ensures
            match r {
                Some(c) => exists|i: int|
                    0 <= i < self.spec_providers().len() && self.spec_providers()[i] == *c
                        && c.id@ == provider@,
                None => forall|i: int|
                    0 <= i < self.spec_providers().len()
                        ==> #[trigger] self.spec_providers()[i].id@ != provider@,
            },
    {
        let n = self.config.oauth2_clients.len();
        let mut i: usize = 0;
        while i < n
            invariant
                0 <= i <= n,
                n == self.spec_providers().len(),
                forall|j: int|
                    0 <= j < i ==> #[trigger] self.spec_providers()[j].id@ != provider@,
            decreases n - i,
        {
            let c = &self.config.oauth2_clients[i];
            if c.id == *provider {
                return Some(c);
            }
            i = i + 1;
        }
        None
    }
}

} // verus!
