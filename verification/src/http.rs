//! The plain data shapes the web layer works with: the login page's
//! provider entries and the OAuth2 callback parameters. The HTTP routing,
//! rendering and cookie issuance built on them live outside the verified
//! core.

use vstd::prelude::*;

verus! {

/// Provides the authorization entry for logging in with an OAuth2
/// provider.
pub struct OAuth2Provider {
    /// Internal identifier for the provider.
    pub id: String,
    /// Name of the provider to show to the user.
    pub label: String,
}

/// The data behind the login page: the configured single-sign-on
/// providers, in display order.
pub struct LoginTemplate {
    pub oauth2_providers: Vec<OAuth2Provider>,
}

/// The query an OAuth2 provider calls back with after the user
/// authenticated there.
pub struct CallbackQuery {
    /// The authorization code to exchange for a token.
    pub code: String,
    /// The state parameter round-tripped through the provider.
    pub state: String,
}

} // verus!
