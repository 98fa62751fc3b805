//! The calls into `jsonwebtoken`, with what the library takes from each of
//! them on trust.

use core::str::FromStr;
use jsonwebtoken::{Algorithm, DecodingKey, TokenData, Validation};
use serde::de::DeserializeOwned;
use vstd::prelude::*;

verus! {

/// `jsonwebtoken::TokenData`: a token's header and claims after a successful
/// decode. Nothing is read from it here.
#[verifier::external_type_specification]
#[verifier::external_body]
#[verifier::reject_recursive_types(T)]
pub struct ExTokenData<T>(TokenData<T>);

/// `jsonwebtoken::DecodingKey`: a key to check signatures with.
#[verifier::external_type_specification]
#[verifier::external_body]
pub struct ExDecodingKey(DecodingKey);

/// `jsonwebtoken::Algorithm`: a signature algorithm.
#[verifier::external_type_specification]
#[verifier::external_body]
pub struct ExAlgorithm(Algorithm);

/// `jsonwebtoken::Validation`: what a decode holds a token's claims to.
#[verifier::external_type_specification]
#[verifier::external_body]
pub struct ExValidation(Validation);

/// `jsonwebtoken::errors::Error`: why a call into the crate failed.
#[verifier::external_type_specification]
#[verifier::external_body]
pub struct ExError(jsonwebtoken::errors::Error);

/// The key identifier in the header of `token`, as `jsonwebtoken::decode_header`
/// reads it: `None` where the header cannot be decoded or names no key.
pub uninterp spec fn header_kid(token: Seq<char>) -> Option<Seq<char>>;

/// The bytes that `text` decodes to as base64 in the URL-safe alphabet without
/// padding, which is how `DecodingKey::from_rsa_components` reads a modulus
/// and an exponent. It says nothing of a text that does not decode.
pub uninterp spec fn base64url_bytes(text: Seq<char>) -> Seq<u8>;

/// The modulus of an RSA decoding key, in bytes.
pub uninterp spec fn key_modulus(key: DecodingKey) -> Seq<u8>;

/// The exponent of an RSA decoding key, in bytes.
pub uninterp spec fn key_exponent(key: DecodingKey) -> Seq<u8>;

/// The one name by which `Algorithm::from_str` knows `algorithm`.
pub uninterp spec fn algorithm_name(algorithm: Algorithm) -> Seq<char>;

/// The algorithms that a decode under `validation` lets a token be signed
/// with, by name.
pub uninterp spec fn validation_algorithms(validation: Validation) -> Seq<Seq<char>>;

/// The audiences that a decode under `validation` accepts; `None` where none
/// were named to it.
pub uninterp spec fn validation_audience(validation: Validation) -> Option<Set<Seq<char>>>;

/// The issuers that a decode under `validation` accepts; `None` where none
/// were named to it.
pub uninterp spec fn validation_issuer(validation: Validation) -> Option<Set<Seq<char>>>;

/// Whether a decode under `validation` checks the signature of a token, and
/// refuses one that names an audience other than those named to it. That is
/// so of a new validation.
pub uninterp spec fn validation_checks_signature_and_audience(validation: Validation) -> bool;

/// Whether the header of `token` names one of `algorithms` and the signature
/// of `token` is a signature of its header and claims that stands under
/// `key` with that algorithm, as `jsonwebtoken::decode` checks it.
pub uninterp spec fn signature_stands(
    token: Seq<char>,
    key: DecodingKey,
    algorithms: Seq<Seq<char>>,
) -> bool;

/// The audiences that the claims of `token` name, as `jsonwebtoken::decode`
/// reads them: `None` where they name none, or none that can be read.
pub uninterp spec fn token_audience(token: Seq<char>) -> Option<Set<Seq<char>>>;

/// The issuers that the claims of `token` name, as `jsonwebtoken::decode`
/// reads them: `None` where they name none, or none that can be read.
pub uninterp spec fn token_issuer(token: Seq<char>) -> Option<Set<Seq<char>>>;

/// Whether a validation that accepts the audiences `accepted` lets a token
/// pass that names the audiences `named`: a token that names none passes;
/// one that names some passes only where audiences were named to the
/// validation and one of them is among those of the token.
pub open spec fn audience_accepted(
    named: Option<Set<Seq<char>>>,
    accepted: Option<Set<Seq<char>>>,
) -> bool {
    match named {
        Some(named) => match accepted {
            Some(accepted) => !named.disjoint(accepted),
            None => false,
        },
        None => true,
    }
}

/// Whether a validation that accepts the issuers `accepted` lets a token
/// pass that names the issuers `named`: a token that names none passes, and
/// so does any token where no issuers were named to the validation;
/// otherwise one of those must be among the issuers of the token.
pub open spec fn issuer_accepted(
    named: Option<Set<Seq<char>>>,
    accepted: Option<Set<Seq<char>>>,
) -> bool {
    match named {
        Some(named) => match accepted {
            Some(accepted) => !named.disjoint(accepted),
            None => true,
        },
        None => true,
    }
}

/// The six bits that `c` stands for in the URL-safe base64 alphabet: `A` to
/// `Z`, `a` to `z`, `0` to `9`, `-` and `_`, in this order. `None` for any
/// other character.
pub open spec fn base64url_value(c: char) -> Option<int> {
    let code = c as u32 as int;
    if 0x41 <= code <= 0x5a {
        Some(code - 0x41)
    } else if 0x61 <= code <= 0x7a {
        Some(code - 0x61 + 26)
    } else if 0x30 <= code <= 0x39 {
        Some(code - 0x30 + 52)
    } else if code == 0x2d {
        Some(62)
    } else if code == 0x5f {
        Some(63)
    } else {
        None
    }
}

/// Whether `text` decodes as base64 in the URL-safe alphabet without padding:
/// every character is of the alphabet, the length is not one more than a
/// multiple of four, and the last character holds no bits that no byte takes
/// up.
pub open spec fn base64url_decodes(text: Seq<char>) -> bool {
    &&& forall|i: int| 0 <= i < text.len() ==> base64url_value(#[trigger] text[i]) is Some
    &&& text.len() % 4 != 1
    &&& text.len() % 4 == 2 ==> base64url_value(text.last()).unwrap() % 16 == 0
    &&& text.len() % 4 == 3 ==> base64url_value(text.last()).unwrap() % 4 == 0
}

/// The names of the signature algorithms that `jsonwebtoken` knows.
pub open spec fn is_algorithm_name(name: Seq<char>) -> bool {
    ||| name == "HS256"@
    ||| name == "HS384"@
    ||| name == "HS512"@
    ||| name == "ES256"@
    ||| name == "ES384"@
    ||| name == "RS256"@
    ||| name == "RS384"@
    ||| name == "RS512"@
    ||| name == "PS256"@
    ||| name == "PS384"@
    ||| name == "PS512"@
    ||| name == "EdDSA"@
}

/// Calls `jsonwebtoken::decode_header` and hands out the `kid` of the header,
/// or `None` where the call fails. Taken on trust: that this is a function
/// of the token's text alone. The call checks neither signature nor claims.
#[verifier::external_body]
pub(crate) fn token_kid(token: &str) -> (kid: Option<String>)
    ensures
        match kid {
            Some(id) => header_kid(token@) == Some(id@),
            None => header_kid(token@) is None,
        },
{
    match jsonwebtoken::decode_header(token) {
        Ok(header) => header.kid,
        Err(_) => None,
    }
}

/// `Algorithm::from_str`. Taken on trust: that it succeeds on the twelve
/// names of `is_algorithm_name`, spelled exactly so, and on nothing else, and
/// that the algorithm it finds is the one of that name.
pub assume_specification[ <Algorithm as FromStr>::from_str ](name: &str) -> (algorithm: Result<Algorithm, jsonwebtoken::errors::Error>)
    ensures
        algorithm is Ok <==> is_algorithm_name(name@),
        algorithm matches Ok(found) ==> algorithm_name(found) == name@,
;

/// `DecodingKey::from_rsa_components`. Taken on trust: that it decodes the
/// modulus and the exponent each by itself, as the `base64` crate decodes
/// the URL-safe alphabet without padding; that it fails exactly when one of
/// the two does not decode; and that it otherwise makes a key of the bytes
/// of the first as its modulus and the bytes of the second as its exponent.
/// It does not look at the numbers they hold.
pub assume_specification[ DecodingKey::from_rsa_components ](
    modulus: &str,
    exponent: &str,
) -> (key: Result<DecodingKey, jsonwebtoken::errors::Error>)
    ensures
        key is Ok <==> (base64url_decodes(modulus@) && base64url_decodes(exponent@)),
        key matches Ok(made) ==> key_modulus(made) == base64url_bytes(modulus@),
        key matches Ok(made) ==> key_exponent(made) == base64url_bytes(exponent@),
;

/// `Validation::new`. Taken on trust: that a decode under the result checks
/// signature and audience, lets a token be signed with `algorithm` only, and
/// that no audience and no issuer is named to it yet.
pub assume_specification[ Validation::new ](algorithm: Algorithm) -> (validation: Validation)
    ensures
        validation_checks_signature_and_audience(validation),
        validation_algorithms(validation) == seq![algorithm_name(algorithm)],
        validation_audience(validation) is None,
        validation_issuer(validation) is None,
;

/// Calls `Validation::set_audience` with the one audience `audience`. Taken
/// on trust: that from then on this is the one audience accepted, and that
/// everything else is as it was.
#[verifier::external_body]
pub(crate) fn set_audience(validation: &mut Validation, audience: &str)
    ensures
        validation_audience(*final(validation)) == Some(set![audience@]),
        validation_issuer(*final(validation)) == validation_issuer(*old(validation)),
        validation_algorithms(*final(validation)) == validation_algorithms(*old(validation)),
        validation_checks_signature_and_audience(*final(validation))
            == validation_checks_signature_and_audience(*old(validation)),
{
    validation.set_audience(&[audience]);
}

/// Calls `Validation::set_issuer` with the one issuer `issuer`. Taken on
/// trust: that from then on this is the one issuer accepted, and that
/// everything else is as it was.
#[verifier::external_body]
pub(crate) fn set_issuer(validation: &mut Validation, issuer: &str)
    ensures
        validation_issuer(*final(validation)) == Some(set![issuer@]),
        validation_audience(*final(validation)) == validation_audience(*old(validation)),
        validation_algorithms(*final(validation)) == validation_algorithms(*old(validation)),
        validation_checks_signature_and_audience(*final(validation))
            == validation_checks_signature_and_audience(*old(validation)),
{
    validation.set_issuer(&[issuer]);
}

/// `jsonwebtoken::decode`, which checks the token's signature with `key`,
/// reads its claims and holds them to `validation`. Whether it succeeds
/// depends on the system clock as well as on its arguments, so success is
/// promised on no input. Taken on trust is what holds of every success: the
/// signature stood under `key` with one of the validation's algorithms; an
/// audience that the token names is among those that the validation accepts;
/// and so is an issuer that it names, where issuers were named to the
/// validation. It panics where the clock stands before 1970.
pub assume_specification<T: DeserializeOwned>[ jsonwebtoken::decode::<T> ](
    token: &str,
    key: &DecodingKey,
    validation: &Validation,
) -> (decoded: Result<TokenData<T>, jsonwebtoken::errors::Error>)
    ensures
        decoded is Ok ==> (validation_checks_signature_and_audience(*validation)
            ==> signature_stands(token@, *key, validation_algorithms(*validation))),
        decoded is Ok ==> (validation_checks_signature_and_audience(*validation)
            ==> audience_accepted(token_audience(token@), validation_audience(*validation))),
        decoded is Ok ==> issuer_accepted(token_issuer(token@), validation_issuer(*validation)),
;

} // verus!
