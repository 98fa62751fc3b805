//! Verification of signed tokens against a set of keys that is replaced as a
//! whole.

use crate::jwk::Jwk;
use crate::jwt::{
    algorithm_name, base64url_bytes, base64url_decodes, header_kid, is_algorithm_name,
    key_exponent, key_modulus, set_audience, set_issuer, signature_stands, token_audience,
    token_issuer, token_kid, validation_algorithms, validation_audience,
    validation_checks_signature_and_audience, validation_issuer,
};
use core::str::FromStr;
use jsonwebtoken::{decode, Algorithm, DecodingKey, TokenData, Validation};
use serde::de::DeserializeOwned;
use vstd::hash_map::StringHashMap;
use vstd::prelude::*;

verus! {

/// The claims that every token of the issuer carries.
#[derive(Debug, PartialEq, Eq)]
pub struct BasicClaims {
    pub aud: String,
    pub exp: i64,
    pub iss: String,
    pub sub: String,
    pub iat: i64,
}

/// Why a token was not accepted under a given key.
#[derive(Debug, PartialEq, Eq, Clone, Copy)]
pub enum VerificationError {
    /// The token did not stand up to the check: its signature, its audience,
    /// its issuer, its expiry or its shape is not as it must be.
    InvalidSignature,
    /// No decoding key can be made of the key's modulus and exponent.
    InvalidDecodingKey,
    /// The key's algorithm is none that is known by name.
    UnknownKeyAlgorithm,
}

/// Whom the tokens must be meant for, and who must have issued them.
#[derive(Debug, PartialEq, Eq)]
pub struct JwkConfig {
    pub audience: String,
    pub issuer: String,
}

/// The keys of one fetch, by key identifier, and the configuration that
/// tokens are held to.
pub struct JwkVerifier {
    keys: StringHashMap<Jwk>,
    config: JwkConfig,
}

/// The map that a list of keys stands for: each key under its identifier,
/// and of two keys with one identifier the later.
pub open spec fn key_map(keys: Seq<Jwk>) -> Map<Seq<char>, Jwk>
    decreases keys.len(),
{
    if keys.len() == 0 {
        Map::empty()
    } else {
        key_map(keys.drop_last()).insert(keys.last().kid@, keys.last())
    }
}

/// Whether a key can be put to use at all: its algorithm has a known name,
/// and its modulus and exponent decode as base64url.
pub open spec fn key_is_usable(key: Jwk) -> bool {
    &&& is_algorithm_name(key.alg@)
    &&& base64url_decodes(key.n@)
    &&& base64url_decodes(key.e@)
}

/// Whether `decoding_key` is made of the modulus and the exponent of `key`.
pub open spec fn made_of(decoding_key: DecodingKey, key: Jwk) -> bool {
    &&& key_modulus(decoding_key) == base64url_bytes(key.n@)
    &&& key_exponent(decoding_key) == base64url_bytes(key.e@)
}

/// Whether the signature of `token` stands under `key`: under a decoding key
/// made of its modulus and exponent, with the algorithm that it names.
pub open spec fn signed_with(token: Seq<char>, key: Jwk) -> bool {
    exists|decoding_key: DecodingKey| #[trigger]
        made_of(decoding_key, key) && signature_stands(token, decoding_key, seq![key.alg@])
}

/// Whether `token` is meant for `audience`, if it says whom it is meant for.
pub open spec fn meant_for(token: Seq<char>, audience: Seq<char>) -> bool {
    token_audience(token) matches Some(named) ==> named.contains(audience)
}

/// Whether `token` is issued by `issuer`, if it says who issued it.
pub open spec fn issued_by(token: Seq<char>, issuer: Seq<char>) -> bool {
    token_issuer(token) matches Some(named) ==> named.contains(issuer)
}

/// A key list as the map it stands for.
pub fn keys_to_map(keys: Vec<Jwk>) -> (map: StringHashMap<Jwk>)
    ensures
        map@ == key_map(keys@),
{
    let ghost all = keys@;
    let mut keys_as_map = StringHashMap::<Jwk>::new();
    for key in it: keys
        invariant
            it.seq() == all,
            keys_as_map@ == key_map(all.take(it.index())),
    {
        assert(all.take(it.index() + 1).drop_last() =~= all.take(it.index()));
        keys_as_map.insert(key.kid.clone(), key);
    }
    assert(all.take(all.len() as int) =~= all);
    keys_as_map
}

/// Whether some key of the list has this identifier.
pub open spec fn has_kid(keys: Seq<Jwk>, kid: Seq<char>) -> bool {
    exists|i: int| 0 <= i < keys.len() && (#[trigger] keys[i]).kid@ == kid
}

/// The key identifiers of a key map are those of the list it stands for.
pub proof fn lemma_key_map_domain(keys: Seq<Jwk>, kid: Seq<char>)
    ensures
        key_map(keys).contains_key(kid) <==> has_kid(keys, kid),
    decreases keys.len(),
{
    if keys.len() > 0 {
        let front = keys.drop_last();
        lemma_key_map_domain(front, kid);
        if has_kid(front, kid) {
            let i = choose|i: int| 0 <= i < front.len() && (#[trigger] front[i]).kid@ == kid;
            assert(keys[i].kid@ == kid);
        }
        if has_kid(keys, kid) {
            let i = choose|i: int| 0 <= i < keys.len() && (#[trigger] keys[i]).kid@ == kid;
            if i < front.len() {
                assert(front[i].kid@ == kid);
            }
        } else {
            assert(keys[keys.len() - 1].kid@ != kid);
        }
    }
}

/// Every key of a list is found in its map under its own identifier, unless
/// a later key of the list has the same identifier: the last one wins.
pub proof fn lemma_key_map_last_wins(keys: Seq<Jwk>, i: int)
    requires
        0 <= i < keys.len(),
        forall|j: int| i < j < keys.len() ==> (#[trigger] keys[j]).kid@ != keys[i].kid@,
    ensures
        key_map(keys).contains_key(keys[i].kid@),
        key_map(keys)[keys[i].kid@] == keys[i],
    decreases keys.len(),
{
    if i < keys.len() - 1 {
        let front = keys.drop_last();
        assert(keys[keys.len() - 1].kid@ != keys[i].kid@);
        assert forall|j: int| i < j < front.len() implies (#[trigger] front[j]).kid@
            != front[i].kid@ by {
            assert(front[j] == keys[j]);
        }
        lemma_key_map_last_wins(front, i);
    }
}

/// Each entry of a key map stands under the identifier that the key itself
/// carries.
pub proof fn lemma_key_map_keyed_by_kid(keys: Seq<Jwk>, kid: Seq<char>)
    requires
        key_map(keys).contains_key(kid),
    ensures
        key_map(keys)[kid].kid@ == kid,
    decreases keys.len(),
{
    if keys.len() > 0 && keys.last().kid@ != kid {
        lemma_key_map_keyed_by_kid(keys.drop_last(), kid);
    }
}

/// The key that a verifier with the map `keys` resolves `kid` to.
pub open spec fn resolve(keys: Map<Seq<char>, Jwk>, kid: Seq<char>) -> Option<Jwk> {
    if keys.contains_key(kid) {
        Some(keys[kid])
    } else {
        None
    }
}

/// A verifier that was built from a list of keys resolves the identifier of
/// every key of the list, to a key with that identifier: to that very key,
/// unless a later key of the list has the same identifier.
pub proof fn lemma_new_resolves_its_keys(verifier: JwkVerifier, keys: Seq<Jwk>, i: int)
    requires
        verifier.keys_view() == key_map(keys),
        0 <= i < keys.len(),
    ensures
        verifier.key(keys[i].kid@) is Some,
        verifier.key(keys[i].kid@).unwrap().kid@ == keys[i].kid@,
        (forall|j: int| i < j < keys.len() ==> (#[trigger] keys[j]).kid@ != keys[i].kid@)
            ==> verifier.key(keys[i].kid@) == Some(keys[i]),
{
    let kid = keys[i].kid@;
    lemma_key_map_domain(keys, kid);
    lemma_key_map_keyed_by_kid(keys, kid);
    if forall|j: int| i < j < keys.len() ==> (#[trigger] keys[j]).kid@ != keys[i].kid@ {
        lemma_key_map_last_wins(keys, i);
    }
}

/// Replacing the keys replaces them all: a verifier that held `old_keys` and
/// was given `new_keys` resolves every identifier of `new_keys`, and none
/// that only `old_keys` had.
pub proof fn lemma_set_keys_replaces(
    before: JwkVerifier,
    after: JwkVerifier,
    old_keys: Seq<Jwk>,
    new_keys: Seq<Jwk>,
    kid: Seq<char>,
)
    requires
        before.keys_view() == key_map(old_keys),
        after.keys_view() == key_map(new_keys),
    ensures
        has_kid(new_keys, kid) ==> after.key(kid) is Some,
        has_kid(old_keys, kid) && !has_kid(new_keys, kid) ==> before.key(kid) is Some
            && after.key(kid) is None,
{
    lemma_key_map_domain(old_keys, kid);
    lemma_key_map_domain(new_keys, kid);
}

/// The outcome of a decode as this library reports it: whatever failed in
/// it, the token's signature does not stand.
pub fn signature_checked<C>(
    decoded: Result<TokenData<C>, jsonwebtoken::errors::Error>,
) -> (checked: Result<TokenData<C>, VerificationError>)
    ensures
        checked == match decoded {
            Ok(token_data) => Ok::<TokenData<C>, VerificationError>(token_data),
            Err(_) => Err(VerificationError::InvalidSignature),
        },
{
    match decoded {
        Ok(token_data) => Ok(token_data),
        Err(_) => Err(VerificationError::InvalidSignature),
    }
}

/// What a caller is told of a check: the token's header and claims where
/// the check succeeded, and nothing where it failed, whatever the reason.
pub fn accepted_claims<C>(
    checked: Result<TokenData<C>, VerificationError>,
) -> (claims: Option<TokenData<C>>)
    ensures
        claims == match checked {
            Ok(token_data) => Some(token_data),
            Err(_) => None::<TokenData<C>>,
        },
{
    match checked {
        Ok(token_data) => Some(token_data),
        Err(_) => None,
    }
}

impl JwkVerifier {
    /// Every key stands under its own identifier.
    #[verifier::type_invariant]
    spec fn keyed_by_kid(&self) -> bool {
        forall|kid: Seq<char>| #[trigger]
            self.keys@.contains_key(kid) ==> self.keys@[kid].kid@ == kid
    }

    /// The keys that the verifier holds, by identifier.
    pub closed spec fn keys_view(&self) -> Map<Seq<char>, Jwk> {
        self.keys@
    }

    /// The configuration that the verifier holds tokens to.
    pub closed spec fn config_view(&self) -> JwkConfig {
        self.config
    }

    /// The key that `get_key` finds for an identifier.
    pub open spec fn key(&self, kid: Seq<char>) -> Option<Jwk> {
        resolve(self.keys_view(), kid)
    }

    /// What is known of a token that yielded claims under `key`: the key can
    /// be put to use, the token's signature stands under it, and the token
    /// is meant for this verifier's audience and issued by its issuer, as
    /// far as it says. Whether it has expired is not for the library to say.
    pub open spec fn stands_under(&self, token: Seq<char>, key: Jwk) -> bool {
        &&& key_is_usable(key)
        &&& signed_with(token, key)
        &&& meant_for(token, self.config_view().audience@)
        &&& issued_by(token, self.config_view().issuer@)
    }

    /// The key that a token asks to be checked with: the one that the
    /// verifier holds under the identifier in the token's header.
    pub open spec fn key_of_token(&self, token: Seq<char>) -> Option<Jwk> {
        match header_kid(token) {
            Some(kid) => self.key(kid),
            None => None,
        }
    }

    /// A verifier that holds `keys`, for tokens meant for `audience` and
    /// issued by `issuer`.
    pub fn new(keys: Vec<Jwk>, audience: String, issuer: String) -> (verifier: JwkVerifier)
        ensures
            verifier.keys_view() == key_map(keys@),
            verifier.config_view() == (JwkConfig { audience, issuer }),
    {
        proof {
            assert forall|kid: Seq<char>| #[trigger]
                key_map(keys@).contains_key(kid) implies key_map(keys@)[kid].kid@ == kid by {
                lemma_key_map_keyed_by_kid(keys@, kid);
            }
        }
        JwkVerifier { keys: keys_to_map(keys), config: JwkConfig { audience, issuer } }
    }

    /// The key with the identifier `key_id`, if the verifier holds one.
    pub fn get_key(&self, key_id: &str) -> (key: Option<&Jwk>)
        ensures
            match key {
                Some(found) => self.key(key_id@) == Some(*found) && found.kid@ == key_id@,
                None => self.key(key_id@) is None,
            },
    {
        proof {
            use_type_invariant(self);
        }
        self.keys.get(key_id)
    }

    /// The configuration that tokens are held to.
    pub fn get_config(&self) -> (config: Option<&JwkConfig>)
        ensures
            config == Some(&self.config_view()),
    {
        Some(&self.config)
    }

    /// The number of keys that the verifier holds.
    pub fn len(&self) -> (count: usize)
        ensures
            count == self.keys_view().len(),
    {
        self.keys.len()
    }

    /// Replaces the keys, all of them, by those of `keys`.
    pub fn set_keys(&mut self, keys: Vec<Jwk>)
        ensures
            final(self).keys_view() == key_map(keys@),
            final(self).config_view() == old(self).config_view(),
    {
        proof {
            assert forall|kid: Seq<char>| #[trigger]
                key_map(keys@).contains_key(kid) implies key_map(keys@)[kid].kid@ == kid by {
                lemma_key_map_keyed_by_kid(keys@, kid);
            }
        }
        self.keys = keys_to_map(keys);
    }

    /// What a token is held to under this verifier, for a key of the
    /// algorithm `algorithm`: it must be signed with that algorithm, and
    /// where it names an audience or an issuer, they must be this verifier's.
    pub fn validation_for(&self, algorithm: Algorithm) -> (validation: Validation)
        ensures
            validation_checks_signature_and_audience(validation),
            validation_algorithms(validation) == seq![algorithm_name(algorithm)],
            validation_audience(validation) == Some(set![self.config_view().audience@]),
            validation_issuer(validation) == Some(set![self.config_view().issuer@]),
    {
        let mut validation = Validation::new(algorithm);
        set_audience(&mut validation, self.config.audience.as_str());
        set_issuer(&mut validation, self.config.issuer.as_str());
        validation
    }

    /// The algorithm that `key` names, if it names one that is known.
    pub fn algorithm_for(key: &Jwk) -> (algorithm: Result<Algorithm, jsonwebtoken::errors::Error>)
        ensures
            algorithm is Ok <==> is_algorithm_name(key.alg@),
            algorithm matches Ok(found) ==> algorithm_name(found) == key.alg@,
    {
        Algorithm::from_str(key.alg.as_str())
    }

    /// The decoding key of the modulus and the exponent of `key`, if both
    /// decode.
    pub fn decoding_key_for(
        key: &Jwk,
    ) -> (decoding_key: Result<DecodingKey, jsonwebtoken::errors::Error>)
        ensures
            decoding_key is Ok <==> (base64url_decodes(key.n@) && base64url_decodes(key.e@)),
            decoding_key matches Ok(made) ==> made_of(made, *key),
    {
        DecodingKey::from_rsa_components(key.n.as_str(), key.e.as_str())
    }

    /// Hands `token` to `jsonwebtoken::decode`, with the decoding key given
    /// and with `validation_for(algorithm)`, and reports what comes back.
    /// Without a decoding key there is nothing to hand over. Whether the
    /// token stands is for the decode to say, which reads the clock. Where
    /// it lets the token stand, the signature stood under the key given
    /// with `algorithm`, and the token is meant for this verifier's audience
    /// and issued by its issuer, as far as it says.
    pub fn decode_token_with_decoding_key<C: DeserializeOwned>(
        &self,
        algorithm: Algorithm,
        decoding_key: Result<DecodingKey, jsonwebtoken::errors::Error>,
        token: &str,
    ) -> (decoded: Result<TokenData<C>, VerificationError>)
        ensures
            decoding_key is Err ==> decoded == Err::<TokenData<C>, VerificationError>(
                VerificationError::InvalidDecodingKey,
            ),
            decoding_key is Ok ==> decoded is Ok || decoded == Err::<
                TokenData<C>,
                VerificationError,
            >(VerificationError::InvalidSignature),
            decoded is Ok ==> (decoding_key matches Ok(made) && signature_stands(
                token@,
                made,
                seq![algorithm_name(algorithm)],
            )),
            decoded is Ok ==> meant_for(token@, self.config_view().audience@),
            decoded is Ok ==> issued_by(token@, self.config_view().issuer@),
    {
        let key = match decoding_key {
            Ok(key) => key,
            Err(_) => {
                return Err(VerificationError::InvalidDecodingKey);
            },
        };
        let validation = self.validation_for(algorithm);
        let decoded = decode::<C>(token, &key, &validation);
        proof {
            if decoded is Ok {
                let audience = self.config_view().audience@;
                let issuer = self.config_view().issuer@;
                match token_audience(token@) {
                    Some(named) => {
                        assert(!named.disjoint(set![audience]));
                        let one = choose|one: Seq<char>|
                            named.contains(one) && set![audience].contains(one);
                        assert(one == audience);
                    },
                    None => {},
                }
                match token_issuer(token@) {
                    Some(named) => {
                        assert(!named.disjoint(set![issuer]));
                        let one = choose|one: Seq<char>|
                            named.contains(one) && set![issuer].contains(one);
                        assert(one == issuer);
                    },
                    None => {},
                }
            }
        }
        signature_checked(decoded)
    }

    /// Checks `token` with `key`: with `algorithm_for(key)`, and with
    /// `decoding_key_for(key)`. The three ways to fail come in this order:
    /// the key's algorithm is not known by name; the key's modulus or
    /// exponent does not decode; the decode does not let the token stand.
    /// A token that it lets stand stands under `key`.
    pub fn decode_token_with_key<C: DeserializeOwned>(
        &self,
        key: &Jwk,
        token: &str,
    ) -> (decoded: Result<TokenData<C>, VerificationError>)
        ensures
            !is_algorithm_name(key.alg@) ==> decoded == Err::<TokenData<C>, VerificationError>(
                VerificationError::UnknownKeyAlgorithm,
            ),
            is_algorithm_name(key.alg@) && !key_is_usable(*key) ==> decoded == Err::<
                TokenData<C>,
                VerificationError,
            >(VerificationError::InvalidDecodingKey),
            key_is_usable(*key) ==> decoded is Ok || decoded == Err::<
                TokenData<C>,
                VerificationError,
            >(VerificationError::InvalidSignature),
            decoded is Ok ==> self.stands_under(token@, *key),
    {
        let algorithm = match Self::algorithm_for(key) {
            Ok(algorithm) => algorithm,
            Err(_) => {
                return Err(VerificationError::UnknownKeyAlgorithm);
            },
        };
        let decoding_key = Self::decoding_key_for(key);
        let ghost made = decoding_key;
        let decoded = self.decode_token_with_decoding_key(algorithm, decoding_key, token);
        proof {
            if decoded is Ok {
                assert(made_of(made->Ok_0, *key));
            }
        }
        decoded
    }

    /// Verifies `token` given the key identifier that its header names, if
    /// it names one: there are no claims without an identifier, without a
    /// key under that identifier, or with a key that cannot be put to use.
    /// Otherwise the key that `get_key` finds under the identifier, and no
    /// other, goes to `decode_token_with_key`, and the claims are what
    /// `accepted_claims` makes of the outcome: there are claims only for a
    /// token that stands under that key.
    pub fn verify_with_key_id<C: DeserializeOwned>(
        &self,
        kid: Option<String>,
        token: &str,
    ) -> (claims: Option<TokenData<C>>)
        ensures
            kid is None ==> claims is None,
            kid matches Some(id) && self.key(id@) is None ==> claims is None,
            kid matches Some(id) && self.key(id@) matches Some(key) && !key_is_usable(key)
                ==> claims is None,
            claims is Some ==> (kid matches Some(id) && self.key(id@) matches Some(key)
                && self.stands_under(token@, key)),
    {
        let token_kid = match kid {
            Some(id) => id,
            None => {
                return None;
            },
        };
        let jwk_key = match self.get_key(token_kid.as_str()) {
            Some(key) => key,
            None => {
                return None;
            },
        };
        accepted_claims(self.decode_token_with_key(jwk_key, token))
    }

    /// Verifies `token`: reads the key identifier in its header and goes on
    /// as `verify_with_key_id` does. There are claims only for a token whose
    /// header names a key that the verifier holds and can use, whose
    /// signature stands under that key, and which is meant for this
    /// verifier's audience and issued by its issuer, as far as it says.
    /// Whether such a token has expired, the decode decides by the clock.
    pub fn verify<C: DeserializeOwned>(&self, token: &str) -> (claims: Option<TokenData<C>>)
        ensures
            self.key_of_token(token@) is None ==> claims is None,
            self.key_of_token(token@) matches Some(key) && !key_is_usable(key) ==> claims is None,
            claims is Some ==> (self.key_of_token(token@) matches Some(key) && self.stands_under(
                token@,
                key,
            )),
            !meant_for(token@, self.config_view().audience@) ==> claims is None,
            !issued_by(token@, self.config_view().issuer@) ==> claims is None,
    {
        self.verify_with_key_id(token_kid(token), token)
    }
}

} // verus!
