//! The coordinator: it derives what tokens are held to from a project
//! identifier, holds the verifier, and decides what each attempt to refresh
//! the keys comes to. Requests, waiting and locking are the caller's.

use crate::jwk::{JwkFetcher, Jwks, KeyFetchError};
use crate::jwk_verifier::{
    issued_by, key_is_usable, key_map, meant_for, JwkConfig, JwkVerifier,
};
use jsonwebtoken::TokenData;
use serde::de::DeserializeOwned;
use vstd::prelude::*;
use vstd::string::StringExecFns;

verus! {

/// What the issuer of a project's tokens is called: this, then the project
/// identifier.
pub const ISSUER_URL: &'static str = "https://securetoken.google.com/";

/// Where the keys are fetched from unless the caller names another endpoint.
pub const DEFAULT_PUBKEY_URL: &'static str =
    "https://www.googleapis.com/service_accounts/v1/jwk/securetoken@system.gserviceaccount.com";

/// Seconds to wait after a failed fetch before the next one.
pub const RETRY_DELAY: u64 = 10;

/// A coordinator that knows its project and its endpoint but has no keys
/// yet: what is settled before the first fetch.
#[derive(Debug, PartialEq, Eq)]
pub struct JwkAuthSetup {
    pub fetcher: JwkFetcher,
    pub config: JwkConfig,
}

/// The coordinator: the one verifier that the refresh and all verifications
/// share.
pub struct JwkAuth {
    verifier: JwkVerifier,
}

/// The configuration that tokens of the project `project_id` are held to:
/// they are meant for the project and issued under its name.
pub open spec fn project_config(project_id: Seq<char>, config: JwkConfig) -> bool {
    &&& config.audience@ == project_id
    &&& config.issuer@ == ISSUER_URL@ + project_id
}

/// The configuration for the tokens of one project.
pub fn config_for_project(project_id: String) -> (config: JwkConfig)
    ensures
        project_config(project_id@, config),
{
    let issuer = ISSUER_URL.to_owned().concat(project_id.as_str());
    let audience = project_id;
    JwkConfig { audience, issuer }
}

impl JwkAuthSetup {
    /// The coordinator, once the first fetch has brought `jwk_keys`.
    pub fn start(self, jwk_keys: Jwks) -> (auth: JwkAuth)
        ensures
            auth.keys_view() == key_map(jwk_keys.keys@),
            auth.config_view() == self.config,
    {
        JwkAuth {
            verifier: JwkVerifier::new(jwk_keys.keys, self.config.audience, self.config.issuer),
        }
    }
}

impl JwkAuth {
    /// The verifier that the coordinator holds.
    pub closed spec fn verifier_view(&self) -> JwkVerifier {
        self.verifier
    }

    /// The keys that the coordinator holds, by identifier.
    pub open spec fn keys_view(&self) -> Map<Seq<char>, crate::jwk::Jwk> {
        self.verifier_view().keys_view()
    }

    /// The configuration that the coordinator holds tokens to.
    pub open spec fn config_view(&self) -> JwkConfig {
        self.verifier_view().config_view()
    }

    /// Sets up a coordinator for the project `project_id` that fetches its
    /// keys from the default endpoint.
    pub fn new(project_id: String) -> (setup: JwkAuthSetup)
        ensures
            setup.fetcher.url@ == DEFAULT_PUBKEY_URL@,
            project_config(project_id@, setup.config),
    {
        let pubkey_url = DEFAULT_PUBKEY_URL.to_owned();
        Self::new_with_url(project_id, pubkey_url)
    }

    /// Sets up a coordinator for the project `project_id` that fetches its
    /// keys from `pubkey_url`.
    pub fn new_with_url(project_id: String, pubkey_url: String) -> (setup: JwkAuthSetup)
        ensures
            setup.fetcher.url == pubkey_url,
            project_config(project_id@, setup.config),
    {
        let config = config_for_project(project_id);
        let fetcher = JwkFetcher::new(pubkey_url);
        JwkAuthSetup { fetcher, config }
    }

    /// The verifier that the coordinator holds.
    pub fn jwk_verifier(&self) -> (held: &JwkVerifier)
        ensures
            *held == self.verifier_view(),
    {
        &self.verifier
    }

    /// Verifies `token` against the keys that the coordinator holds now, as
    /// its verifier does: there are claims only for a token that stands
    /// under the key which its header names.
    pub fn verify<C: DeserializeOwned>(&self, token: &str) -> (claims: Option<TokenData<C>>)
        ensures
            self.verifier_view().key_of_token(token@) is None ==> claims is None,
            self.verifier_view().key_of_token(token@) matches Some(key) && !key_is_usable(key)
                ==> claims is None,
            claims is Some ==> (self.verifier_view().key_of_token(token@) matches Some(key)
                && self.verifier_view().stands_under(token@, key)),
            !meant_for(token@, self.config_view().audience@) ==> claims is None,
            !issued_by(token@, self.config_view().issuer@) ==> claims is None,
    {
        self.verifier.verify(token)
    }

    /// Takes in the result of one fetch and says how many seconds to wait
    /// before the next. Fetched keys replace the keys held, all of them, and
    /// are good for their validity; a failed fetch changes nothing and is
    /// tried again after `RETRY_DELAY`.
    pub fn key_update(&mut self, fetch_result: Result<Jwks, KeyFetchError>) -> (delay: u64)
        ensures
            match fetch_result {
                Ok(jwk_keys) => {
                    &&& final(self).keys_view() == key_map(jwk_keys.keys@)
                    &&& delay == jwk_keys.validity
                },
                Err(_) => {
                    &&& final(self).keys_view() == old(self).keys_view()
                    &&& delay == RETRY_DELAY
                },
            },
            final(self).config_view() == old(self).config_view(),
    {
        match fetch_result {
            Ok(jwk_keys) => {
                self.verifier.set_keys(jwk_keys.keys);
                jwk_keys.validity
            },
            Err(_) => RETRY_DELAY,
        }
    }
}

} // verus!
