//! Challenges: what they hold, how they are issued, how they are written out.
use crate::config::{text_view, ConfigView, ModuleConfig};
use crate::text::{hex_char, hex_digit_stands_at_its_number};
use std::collections::BTreeMap;
use vstd::prelude::*;

verus! {

/// The digest of the HMAC that signs a challenge.
#[derive(Clone, Copy, Debug, PartialEq, Eq, Structural)]
pub enum HmacAlgorithm {
    Sha256,
    Sha384,
    Sha512,
}

/// An error of the `altcha` crate.
#[verifier::external_type_specification]
#[verifier::external_body]
pub struct ExAltchaError(altcha::Error);

/// An error of the `serde_json` crate.
#[verifier::external_type_specification]
#[verifier::external_body]
pub struct ExJsonError(serde_json::Error);

/// A JSON value of the `serde_json` crate.
#[verifier::external_type_specification]
#[verifier::external_body]
pub struct ExJsonValue(serde_json::Value);

/// The signed part of a challenge.
#[derive(Debug)]
pub struct ChallengeParameters {
    pub algorithm: String,
    pub cost: u32,
    pub data: Option<BTreeMap<String, serde_json::Value>>,
    pub expires_at: Option<u64>,
    pub key_length: usize,
    pub key_prefix: String,
    pub key_signature: Option<String>,
    pub memory_cost: Option<u32>,
    pub nonce: String,
    pub parallelism: Option<u32>,
    pub salt: String,
}

/// A challenge: its parameters, and the signature over them.
#[derive(Debug)]
pub struct Challenge {
    pub parameters: ChallengeParameters,
    pub signature: Option<String>,
}

/// What challenge parameters hold.
#[verifier::ext_equal]
pub struct ParametersView {
    pub algorithm: Seq<char>,
    pub cost: u32,
    pub data: Option<Map<String, serde_json::Value>>,
    pub expires_at: Option<u64>,
    pub key_length: usize,
    pub key_prefix: Seq<char>,
    pub key_signature: Option<Seq<char>>,
    pub memory_cost: Option<u32>,
    pub nonce: Seq<char>,
    pub parallelism: Option<u32>,
    pub salt: Seq<char>,
}

/// What a challenge holds.
#[verifier::ext_equal]
pub struct ChallengeView {
    pub parameters: ParametersView,
    pub signature: Option<Seq<char>>,
}

impl View for ChallengeParameters {
    type V = ParametersView;

    open spec fn view(&self) -> ParametersView {
        ParametersView {
            algorithm: self.algorithm@,
            cost: self.cost,
            data: match self.data {
                Some(d) => Some(d@),
                None => None,
            },
            expires_at: self.expires_at,
            key_length: self.key_length,
            key_prefix: self.key_prefix@,
            key_signature: text_view(self.key_signature),
            memory_cost: self.memory_cost,
            nonce: self.nonce@,
            parallelism: self.parallelism,
            salt: self.salt@,
        }
    }
}

impl View for Challenge {
    type V = ChallengeView;

    open spec fn view(&self) -> ChallengeView {
        ChallengeView { parameters: self.parameters@, signature: text_view(self.signature) }
    }
}

/// What a challenge is issued from.
#[derive(Debug)]
pub struct ChallengeOptions {
    pub algorithm: String,
    pub cost: u32,
    pub hmac_algorithm: HmacAlgorithm,
    pub hmac_signature_secret: Option<String>,
    pub hmac_key_signature_secret: Option<String>,
    pub key_length: usize,
    pub key_prefix: String,
    pub expires_at: Option<u64>,
}

/// What challenge options hold.
#[verifier::ext_equal]
pub struct OptionsView {
    pub algorithm: Seq<char>,
    pub cost: u32,
    pub hmac_algorithm: HmacAlgorithm,
    pub hmac_signature_secret: Option<Seq<char>>,
    pub hmac_key_signature_secret: Option<Seq<char>>,
    pub key_length: usize,
    pub key_prefix: Seq<char>,
    pub expires_at: Option<u64>,
}

impl View for ChallengeOptions {
    type V = OptionsView;

    open spec fn view(&self) -> OptionsView {
        OptionsView {
            algorithm: self.algorithm@,
            cost: self.cost,
            hmac_algorithm: self.hmac_algorithm,
            hmac_signature_secret: text_view(self.hmac_signature_secret),
            hmac_key_signature_secret: text_view(self.hmac_key_signature_secret),
            key_length: self.key_length,
            key_prefix: self.key_prefix@,
            expires_at: self.expires_at,
        }
    }
}

/// What a challenge is issued from at a moment, under a configuration: the
/// values in force, and an expiry one lifetime ahead.
pub open spec fn options_at(conf: ConfigView, now: u64) -> OptionsView {
    OptionsView {
        algorithm: conf.effective_algorithm(),
        cost: conf.effective_cost(),
        hmac_algorithm: conf.effective_hmac_algorithm(),
        hmac_signature_secret: conf.hmac_signature_secret,
        hmac_key_signature_secret: conf.hmac_key_signature_secret,
        key_length: conf.effective_key_length(),
        key_prefix: conf.effective_key_prefix(),
        expires_at: Some((now + conf.effective_expires().secs) as u64),
    }
}

/// What a challenge issued now, a number of seconds after the epoch, is issued
/// from.
pub fn challenge_options(conf: &ModuleConfig, now: u64) -> (r: ChallengeOptions)
    requires
        now + conf@.effective_expires().secs <= u64::MAX,
    ensures
        r@ == options_at(conf@, now),
{
    ChallengeOptions {
        algorithm: conf.algorithm().to_owned(),
        cost: conf.cost(),
        hmac_algorithm: conf.hmac_algorithm(),
        hmac_signature_secret: conf.hmac_signature_secret.clone(),
        hmac_key_signature_secret: conf.hmac_key_signature_secret.clone(),
        key_length: conf.key_length(),
        key_prefix: conf.key_prefix().to_owned(),
        expires_at: Some(now + conf.expires().as_secs()),
    }
}

/// Whether a text is sixteen bytes written in lower-case hex.
pub open spec fn is_hex_of_16_bytes(s: Seq<char>) -> bool {
    &&& s.len() == 32
    &&& forall|i: int|
        0 <= i < s.len() ==> exists|n: int| 0 <= n < 16 && #[trigger] s[i] == #[trigger] hex_char(n)
}

/// The signature that the `altcha` crate puts on challenge parameters: the hex
/// HMAC, by a digest and a secret, of their canonical JSON. `None` where it
/// fails to sign them.
pub uninterp spec fn challenge_signature(
    parameters: ParametersView,
    hmac_algorithm: HmacAlgorithm,
    secret: Seq<char>,
) -> Option<Seq<char>>;

/// The JSON text that `serde_json` writes for a challenge, or `None` where it
/// fails.
pub uninterp spec fn challenge_json(challenge: ChallengeView) -> Option<Seq<char>>;

/// Whether challenge parameters are those that some options ask for. All is
/// fixed but the nonce and the salt, which are sixteen random bytes each.
pub open spec fn asked_for(parameters: ParametersView, options: OptionsView) -> bool {
    &&& parameters == ParametersView {
        algorithm: options.algorithm,
        cost: options.cost,
        data: None,
        expires_at: options.expires_at,
        key_length: options.key_length,
        key_prefix: options.key_prefix,
        key_signature: None,
        memory_cost: None,
        nonce: parameters.nonce,
        parallelism: None,
        salt: parameters.salt,
    }
    &&& is_hex_of_16_bytes(parameters.nonce)
    &&& is_hex_of_16_bytes(parameters.salt)
}

/// Whether a challenge can have been issued from some options: it carries what
/// they ask for, signed if there is a secret to sign it with.
pub open spec fn issued_from(c: ChallengeView, options: OptionsView) -> bool {
    &&& asked_for(c.parameters, options)
    &&& match options.hmac_signature_secret {
        Some(secret) => c.signature is Some && c.signature == challenge_signature(
            c.parameters,
            options.hmac_algorithm,
            secret,
        ),
        None => c.signature is None,
    }
}

/// A challenge issued under a configuration that has a secret carries the values
/// in force, expires one lifetime after it was issued, and bears the signature
/// that the secret gives it.
pub proof fn issued_challenge_carries_the_values_in_force(
    c: ChallengeView,
    conf: ConfigView,
    now: u64,
)
    requires
        issued_from(c, options_at(conf, now)),
        conf.hmac_signature_secret is Some,
        now + conf.effective_expires().secs <= u64::MAX,
    ensures
        c.parameters.algorithm == conf.effective_algorithm(),
        c.parameters.cost == conf.effective_cost(),
        c.parameters.key_length == conf.effective_key_length(),
        c.parameters.key_prefix == conf.effective_key_prefix(),
        c.parameters.expires_at is Some,
        c.parameters.expires_at->0 == now + conf.effective_expires().secs,
        c.signature is Some,
        c.signature == challenge_signature(
            c.parameters,
            conf.effective_hmac_algorithm(),
            conf.hmac_signature_secret->0,
        ),
{
}

/// `altcha::create_challenge`, with the options not named here at their
/// defaults. The challenge carries the options it was asked for, a random nonce
/// and a random salt, and the signature over all of them; a key is not signed,
/// as no counter is fixed in advance. It does not fail: numbers and texts always
/// have a JSON form, and an HMAC takes a secret of any length.
#[verifier::external_body]
pub(crate) fn create_challenge(options: ChallengeOptions) -> (r: Result<Challenge, altcha::Error>)
    ensures
        r is Ok,
        r matches Ok(c) ==> asked_for(c@.parameters, options@),
        r matches Ok(c) ==> match options@.hmac_signature_secret {
            Some(secret) => c@.signature is Some && c@.signature == challenge_signature(
                c@.parameters,
                options@.hmac_algorithm,
                secret,
            ),
            None => c@.signature is None,
        },
{
    let ChallengeOptions { algorithm, cost, hmac_algorithm, hmac_signature_secret,
        hmac_key_signature_secret, key_length, key_prefix, expires_at } = options;
    let hmac_algorithm = match hmac_algorithm {
        HmacAlgorithm::Sha256 => altcha::HmacAlgorithm::Sha256,
        HmacAlgorithm::Sha384 => altcha::HmacAlgorithm::Sha384,
        HmacAlgorithm::Sha512 => altcha::HmacAlgorithm::Sha512,
    };
    let c = altcha::create_challenge(altcha::CreateChallengeOptions { algorithm, cost,
        hmac_algorithm, hmac_signature_secret, hmac_key_signature_secret, key_length, key_prefix,
        expires_at, ..Default::default() })?;
    let altcha::ChallengeParameters { algorithm, cost, data, expires_at, key_length, key_prefix,
        key_signature, memory_cost, nonce, parallelism, salt } = c.parameters;
    Ok(Challenge { parameters: ChallengeParameters { algorithm, cost, data, expires_at, key_length,
        key_prefix, key_signature, memory_cost, nonce, parallelism, salt }, signature: c.signature })
}

/// Whether `create_challenge`, called on some options, came back with this
/// challenge. It takes a call to show that, so the nonce and the salt are those
/// that were drawn in it.
pub closed spec fn drawn_from(c: ChallengeView, options: OptionsView) -> bool {
    exists|o: ChallengeOptions, made: Challenge|
        {
            &&& #[trigger] call_ensures(
                create_challenge,
                (o,),
                Ok::<Challenge, altcha::Error>(made),
            )
            &&& o@ == options
            &&& made@ == c
        }
}

/// Issues a challenge from some options.
pub(crate) fn issue_challenge(options: ChallengeOptions) -> (r: Result<Challenge, altcha::Error>)
    ensures
        r is Ok,
        r matches Ok(c) ==> issued_from(c@, options@) && drawn_from(c@, options@),
{
    create_challenge(options)
}

/// `serde_json::to_string` of an `altcha::Challenge`. It does not fail on a
/// challenge without custom data, which is made of numbers and texts.
#[verifier::external_body]
pub(crate) fn to_json(challenge: &Challenge) -> (r: Result<String, serde_json::Error>)
    ensures
        r matches Ok(s) ==> challenge_json(challenge@) == Some(s@),
        r is Err ==> challenge_json(challenge@) is None,
        challenge@.parameters.data is None ==> r is Ok,
{
    let p = &challenge.parameters;
    serde_json::to_string(&altcha::Challenge {
        parameters: altcha::ChallengeParameters {
            algorithm: p.algorithm.clone(), cost: p.cost, data: p.data.clone(),
            expires_at: p.expires_at, key_length: p.key_length, key_prefix: p.key_prefix.clone(),
            key_signature: p.key_signature.clone(), memory_cost: p.memory_cost,
            nonce: p.nonce.clone(), parallelism: p.parallelism, salt: p.salt.clone(),
        },
        signature: challenge.signature.clone(),
    })
}

/// `altcha::sign_challenge` without a derived key: the signature that it puts on
/// challenge parameters. It does not fail: they always have a JSON form, and an
/// HMAC takes a secret of any length.
#[verifier::external_body]
pub(crate) fn sign_challenge(
    parameters: &ChallengeParameters,
    hmac_algorithm: HmacAlgorithm,
    secret: &str,
) -> (r: Result<Option<String>, altcha::Error>)
    ensures
        r is Ok,
        r matches Ok(s) ==> s is Some && text_view(s) == challenge_signature(
            parameters@,
            hmac_algorithm,
            secret@,
        ),
{
    let p = parameters;
    let mut parameters = altcha::ChallengeParameters {
        algorithm: p.algorithm.clone(), cost: p.cost, data: p.data.clone(),
        expires_at: p.expires_at, key_length: p.key_length, key_prefix: p.key_prefix.clone(),
        key_signature: p.key_signature.clone(), memory_cost: p.memory_cost,
        nonce: p.nonce.clone(), parallelism: p.parallelism, salt: p.salt.clone(),
    };
    let hmac_algorithm = match hmac_algorithm {
        HmacAlgorithm::Sha256 => altcha::HmacAlgorithm::Sha256,
        HmacAlgorithm::Sha384 => altcha::HmacAlgorithm::Sha384,
        HmacAlgorithm::Sha512 => altcha::HmacAlgorithm::Sha512,
    };
    let c = altcha::sign_challenge(&hmac_algorithm, &mut parameters, None, secret, None)?;
    Ok(c.signature)
}

/// What a challenge is issued from is what is set, or else the default, and its
/// expiry lies one lifetime ahead.
pub proof fn options_carry_the_settings(conf: ConfigView, now: u64)
    ensures
        ({
            let o = options_at(conf, now);
            &&& conf.algorithm matches Some(a) ==> o.algorithm == a
            &&& conf.algorithm is None ==> o.algorithm == "PBKDF2/SHA-256"@
            &&& conf.cost matches Some(n) ==> o.cost == n
            &&& conf.cost is None ==> o.cost == 100_000
            &&& conf.hmac_algorithm matches Some(a) ==> o.hmac_algorithm == a
            &&& conf.hmac_algorithm is None ==> o.hmac_algorithm == HmacAlgorithm::Sha256
            &&& o.hmac_signature_secret == conf.hmac_signature_secret
            &&& o.hmac_key_signature_secret == conf.hmac_key_signature_secret
            &&& conf.key_length matches Some(n) ==> o.key_length == n
            &&& conf.key_length is None ==> o.key_length == 32
            &&& conf.key_prefix matches Some(p) ==> o.key_prefix == p
            &&& conf.key_prefix is None ==> o.key_prefix == "00"@
            &&& o.expires_at is Some
            &&& conf.expires matches Some(t) ==> now + t.secs <= u64::MAX ==> o.expires_at->0 == now
                + t.secs
            &&& conf.expires is None ==> now + 300 <= u64::MAX ==> o.expires_at->0 == now + 300
        }),
{
}

/// A challenge carries each of the options that it is issued from, nothing that
/// they do not ask for, and a nonce and a salt of sixteen bytes in hex; and it is
/// signed if, and only if, there is a secret to sign it with.
pub proof fn issued_challenge_carries_its_options(c: ChallengeView, options: OptionsView)
    requires
        issued_from(c, options),
    ensures
        c.parameters.algorithm == options.algorithm,
        c.parameters.cost == options.cost,
        c.parameters.expires_at == options.expires_at,
        c.parameters.key_length == options.key_length,
        c.parameters.key_prefix == options.key_prefix,
        c.parameters.data is None,
        c.parameters.key_signature is None,
        c.parameters.memory_cost is None,
        c.parameters.parallelism is None,
        c.parameters.nonce.len() == 32,
        forall|i: int|
            0 <= i < 32 ==> "0123456789abcdef"@.contains(#[trigger] c.parameters.nonce[i]),
        c.parameters.salt.len() == 32,
        forall|i: int| 0 <= i < 32 ==> "0123456789abcdef"@.contains(#[trigger] c.parameters.salt[i]),
        options.hmac_signature_secret is None ==> c.signature is None,
        options.hmac_signature_secret matches Some(secret) ==> c.signature is Some && c.signature
            == challenge_signature(c.parameters, options.hmac_algorithm, secret),
{
    reveal_strlit("0123456789abcdef");
    assert forall|n: int| 0 <= n < 16 implies "0123456789abcdef"@.contains(
        #[trigger] hex_char(n),
    ) by {
        hex_digit_stands_at_its_number(n);
    }
}

/// The views of a challenge and of its options show every field.
pub proof fn challenge_views_show_every_field(c: Challenge, o: ChallengeOptions)
    ensures
        c@.parameters == c.parameters@,
        c.signature matches Some(s) ==> c@.signature == Some(s@),
        c.signature is None ==> c@.signature is None,
        c.parameters@.algorithm == c.parameters.algorithm@,
        c.parameters@.cost == c.parameters.cost,
        c.parameters.data matches Some(d) ==> c.parameters@.data == Some(d@),
        c.parameters.data is None ==> c.parameters@.data is None,
        c.parameters@.expires_at == c.parameters.expires_at,
        c.parameters@.key_length == c.parameters.key_length,
        c.parameters@.key_prefix == c.parameters.key_prefix@,
        c.parameters.key_signature matches Some(s) ==> c.parameters@.key_signature == Some(s@),
        c.parameters.key_signature is None ==> c.parameters@.key_signature is None,
        c.parameters@.memory_cost == c.parameters.memory_cost,
        c.parameters@.nonce == c.parameters.nonce@,
        c.parameters@.parallelism == c.parameters.parallelism,
        c.parameters@.salt == c.parameters.salt@,
        o@.algorithm == o.algorithm@,
        o@.cost == o.cost,
        o@.hmac_algorithm == o.hmac_algorithm,
        o.hmac_signature_secret matches Some(s) ==> o@.hmac_signature_secret == Some(s@),
        o.hmac_signature_secret is None ==> o@.hmac_signature_secret is None,
        o.hmac_key_signature_secret matches Some(s) ==> o@.hmac_key_signature_secret == Some(s@),
        o.hmac_key_signature_secret is None ==> o@.hmac_key_signature_secret is None,
        o@.key_length == o.key_length,
        o@.key_prefix == o.key_prefix@,
        o@.expires_at == o.expires_at,
{
}

/// A challenge counts as drawn from some options where, and only where, a call of
/// `create_challenge` on them came back with it.
pub(crate) proof fn drawn_challenge_came_from_a_call(c: ChallengeView, options: OptionsView)
    ensures
        drawn_from(c, options) <==> exists|o: ChallengeOptions, made: Challenge|
            {
                &&& #[trigger] call_ensures(
                    create_challenge,
                    (o,),
                    Ok::<Challenge, altcha::Error>(made),
                )
                &&& o@ == options
                &&& made@ == c
            },
{
}

} // verus!
