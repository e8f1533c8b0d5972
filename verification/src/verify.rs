//! Checking a submitted payload.
//!
//! A client submits the challenge it was given and its solution, as JSON in
//! base64. Verification needs three directives: the secret that signs
//! challenges, the secret that signs derived keys, and the expression that
//! yields the submission. Where one is missing, or anything goes wrong on the
//! way, the answer is no.
use crate::challenge::{
    challenge_json, challenge_signature, issued_from, options_at, sign_challenge, Challenge,
    ChallengeParameters, ChallengeView, HmacAlgorithm, ParametersView,
};
use crate::config::{ConfigView, ModuleConfig};
use crate::encoding::{
    encoded, every_wrapping_is_unwrapped, only_wrapped_bytes_are_unwrapped, unwrap_base64,
    unwrapped, Wrapping,
};
use crate::text::is_hex;
use vstd::prelude::*;
use vstd::utf8::encode_utf8;

verus! {

/// A client's answer to a challenge: the counter it found, and the key derived
/// with it, in hex.
#[derive(Debug)]
pub struct Solution {
    pub counter: u32,
    pub derived_key: String,
}

/// What a client submits.
#[derive(Debug)]
pub struct Payload {
    pub challenge: Challenge,
    pub solution: Solution,
}

/// What a solution holds.
#[verifier::ext_equal]
pub struct SolutionView {
    pub counter: u32,
    pub derived_key: Seq<char>,
}

/// What a payload holds.
#[verifier::ext_equal]
pub struct PayloadView {
    pub challenge: ChallengeView,
    pub solution: SolutionView,
}

impl View for Solution {
    type V = SolutionView;

    open spec fn view(&self) -> SolutionView {
        SolutionView { counter: self.counter, derived_key: self.derived_key@ }
    }
}

impl View for Payload {
    type V = PayloadView;

    open spec fn view(&self) -> PayloadView {
        PayloadView { challenge: self.challenge@, solution: self.solution@ }
    }
}

/// The outcome of checking a payload that could be checked.
#[derive(Clone, Copy, Debug, PartialEq, Eq, Structural)]
pub struct Verification {
    /// Whether the challenge was past its expiry when it was checked.
    pub expired: bool,
    /// Whether the payload is good.
    pub verified: bool,
}

/// Why a submission could not be checked.
#[derive(Debug)]
pub enum VerifyError {
    /// There is no configuration.
    NoConfiguration,
    /// The secret that signs challenges is not configured.
    NoSignatureSecret,
    /// The secret that signs derived keys is not configured.
    NoKeySignatureSecret,
    /// The input is not configured.
    NoVerifyInput,
    /// The input yielded nothing.
    NoValue,
    /// The value is not base64.
    NotBase64(base64::DecodeError),
    /// The value does not hold a payload.
    NotPayload(serde_json::Error),
    /// The payload is signed and asks for a key too long to be built.
    KeyTooLong,
    /// The payload could not be checked.
    NotChecked(altcha::Error),
}

impl VerifyError {
    /// What to log for the error, where there is anything to log. An error that
    /// another crate reported is to be logged behind it.
    pub open spec fn log_line(self) -> Option<Seq<char>> {
        match self {
            VerifyError::NoConfiguration => None,
            VerifyError::NoSignatureSecret => Some(
                "altcha: verify failed \u{2014} altcha_hmac_signature_secret not configured"@,
            ),
            VerifyError::NoKeySignatureSecret => Some(
                "altcha: verify failed \u{2014} altcha_hmac_key_signature_secret not configured"@,
            ),
            VerifyError::NoVerifyInput => Some(
                "altcha: verify failed \u{2014} altcha_verify_input not configured"@,
            ),
            VerifyError::NoValue => Some("altcha: verify failed \u{2014} input value missing"@),
            VerifyError::NotBase64(_) => Some("altcha: verify failed \u{2014} base64 decode"@),
            VerifyError::NotPayload(_) => Some("altcha: verify failed \u{2014} json parse"@),
            VerifyError::KeyTooLong => Some("altcha: verify failed \u{2014} key too long"@),
            VerifyError::NotChecked(_) => Some("altcha: verify_solution error"@),
        }
    }

    /// What to log for the error, where there is anything to log. An error that
    /// another crate reported is to be logged behind it.
    pub fn message(&self) -> (r: Option<&'static str>)
        ensures
            r is Some <==> self.log_line() is Some,
            r matches Some(m) ==> self.log_line() == Some(m@),
    {
        match self {
            VerifyError::NoConfiguration => None,
            VerifyError::NoSignatureSecret => Some(
                "altcha: verify failed \u{2014} altcha_hmac_signature_secret not configured",
            ),
            VerifyError::NoKeySignatureSecret => Some(
                "altcha: verify failed \u{2014} altcha_hmac_key_signature_secret not configured",
            ),
            VerifyError::NoVerifyInput => Some(
                "altcha: verify failed \u{2014} altcha_verify_input not configured",
            ),
            VerifyError::NoValue => Some("altcha: verify failed \u{2014} input value missing"),
            VerifyError::NotBase64(_) => Some("altcha: verify failed \u{2014} base64 decode"),
            VerifyError::NotPayload(_) => Some("altcha: verify failed \u{2014} json parse"),
            VerifyError::KeyTooLong => Some("altcha: verify failed \u{2014} key too long"),
            VerifyError::NotChecked(_) => Some("altcha: verify_solution error"),
        }
    }
}

/// The decimal digits of a number.
pub open spec fn decimal_text(n: nat) -> Seq<char>
    decreases n,
{
    let digit = ('0' as int + n % 10) as char;
    if n < 10 {
        seq![digit]
    } else {
        decimal_text(n / 10).push(digit)
    }
}

/// The bytes of the JSON text that submits a challenge, given in JSON, and a
/// solution to it.
pub open spec fn submission(challenge: Seq<char>, solution: SolutionView) -> Seq<u8> {
    encode_utf8(
        "{\"challenge\":"@ + challenge + ",\"solution\":{\"counter\":"@ + decimal_text(
            solution.counter as nat,
        ) + ",\"derivedKey\":\""@ + solution.derived_key + "\"}}"@,
    )
}

/// The payload that `serde_json` reads from JSON bytes, or `None` where it
/// fails.
pub uninterp spec fn parsed_payload(json: Seq<u8>) -> Option<PayloadView>;

/// The key, in hex, that the `altcha` crate derives for a counter from the
/// nonce, the salt and the other parameters of a challenge. `None` where it
/// fails: the nonce or the salt is not hex, or the algorithm is unknown.
pub uninterp spec fn derived_key(parameters: ParametersView, counter: u32) -> Option<Seq<char>>;

/// The signature that the `altcha` crate puts on a derived key given in hex: the
/// hex HMAC of its bytes, by a digest and a secret. `None` where the key is not
/// hex.
pub uninterp spec fn key_signature(
    key: Seq<char>,
    hmac_algorithm: HmacAlgorithm,
    secret: Seq<char>,
) -> Option<Seq<char>>;

/// The answer to a payload whose challenge has not expired, by the signature
/// that its parameters should have, the signature that its key should have and
/// the key that its counter derives. `None` if it cannot be checked.
///
/// The signature must be the expected one. Then, if the parameters hold the
/// signature of a key, the submitted key must have that signature; otherwise it
/// must be the derived key, and that must have the prefix.
pub open spec fn answer_by(
    p: PayloadView,
    signature: Option<Seq<char>>,
    signed_key: Option<Seq<char>>,
    derived: Option<Seq<char>>,
) -> Option<bool> {
    match (p.challenge.signature, signature) {
        (None, _) => Some(false),
        (Some(_), None) => None,
        (Some(given), Some(expected)) => if given != expected {
            Some(false)
        } else {
            match (p.challenge.parameters.key_signature, signed_key, derived) {
                (Some(given), Some(expected), _) => Some(given == expected),
                (Some(_), None, _) => None,
                (None, _, Some(key)) => Some(
                    key == p.solution.derived_key
                        && p.challenge.parameters.key_prefix.is_prefix_of(key),
                ),
                (None, _, None) => None,
            }
        },
    }
}

/// Whether the key of a challenge is checked without building a key that
/// outgrows what can be built. A signed key is not derived at all. Of the key
/// derivations only PBKDF2, the only ones with a slash in their name, build a
/// key of the length asked for: it must fit in memory, and in the 32 bits that
/// number its blocks of thirty-two bytes or more.
pub open spec fn checkable(parameters: ParametersView) -> bool {
    ||| parameters.key_signature is Some
    ||| !parameters.algorithm.contains('/')
    ||| parameters.key_length <= isize::MAX && parameters.key_length <= 137_438_953_440
}

/// Whether a challenge bears the signature that a secret gives its parameters.
pub open spec fn is_signed_by(
    c: ChallengeView,
    hmac_algorithm: HmacAlgorithm,
    secret: Seq<char>,
) -> bool {
    &&& c.signature is Some
    &&& c.signature == challenge_signature(c.parameters, hmac_algorithm, secret)
}

/// Challenge parameters with a key of one byte asked for.
pub open spec fn shortened(parameters: ParametersView) -> ParametersView {
    ParametersView { key_length: 1, ..parameters }
}

/// `serde_json::from_slice` of an `altcha::Payload`, without the solving time
/// that a client may report, which nothing reads. A submission of a challenge
/// without custom data, in the JSON that `serde_json` writes for it, is read as
/// that challenge and solution.
#[verifier::external_body]
fn parse_payload(json: &[u8]) -> (r: Result<Payload, serde_json::Error>)
    ensures
        r matches Ok(p) ==> parsed_payload(json@) == Some(p@),
        r is Err ==> parsed_payload(json@) is None,
        forall|challenge: ChallengeView, solution: SolutionView|
            challenge.parameters.data is None && is_hex(solution.derived_key) && challenge_json(
                challenge,
            ) is Some && json@ == #[trigger] submission(challenge_json(challenge)->0, solution)
                ==> r is Ok && r->Ok_0@ == (PayloadView { challenge, solution }),
{
    let altcha::Payload { challenge, solution } = serde_json::from_slice(json)?;
    let altcha::ChallengeParameters { algorithm, cost, data, expires_at, key_length, key_prefix,
        key_signature, memory_cost, nonce, parallelism, salt } = challenge.parameters;
    let parameters = ChallengeParameters { algorithm, cost, data, expires_at, key_length,
        key_prefix, key_signature, memory_cost, nonce, parallelism, salt };
    Ok(Payload {
        challenge: Challenge { parameters, signature: challenge.signature },
        solution: Solution { counter: solution.counter, derived_key: solution.derived_key },
    })
}

/// `altcha::verify_solution`. A challenge past its expiry, by the clock of the
/// machine, is answered as expired and as nothing else. Any other is answered
/// by its signature and its key. Which of the two a challenge with an expiry
/// gets is not claimed: it depends on when the call is made. Only a challenge
/// that bears the right signature has its key derived, so only such a one must
/// ask for a key that can be built.
#[verifier::external_body]
pub(crate) fn verify_solution(
    challenge: Challenge,
    solution: Solution,
    hmac_algorithm: HmacAlgorithm,
    key_secret: String,
    secret: String,
) -> (r: Result<Verification, altcha::Error>)
    requires
        checkable(challenge@.parameters) || !is_signed_by(challenge@, hmac_algorithm, secret@),
    ensures
        r matches Ok(v) && v.expired ==> !r->Ok_0.verified && (
        challenge@.parameters.expires_at matches Some(t) && t < u64::MAX),
        (r matches Ok(v) ==> !v.expired) ==> answer_by(
            PayloadView { challenge: challenge@, solution: solution@ },
            challenge_signature(challenge@.parameters, hmac_algorithm, secret@),
            key_signature(solution@.derived_key, hmac_algorithm, key_secret@),
            derived_key(challenge@.parameters, solution@.counter),
        ) == (match r {
            Ok(v) => Some(v.verified),
            Err(_) => None,
        }),
{
    let ChallengeParameters { algorithm, cost, data, expires_at, key_length, key_prefix,
        key_signature, memory_cost, nonce, parallelism, salt } = challenge.parameters;
    let challenge = altcha::Challenge { parameters: altcha::ChallengeParameters { algorithm, cost,
        data, expires_at, key_length, key_prefix, key_signature, memory_cost, nonce, parallelism,
        salt }, signature: challenge.signature };
    let solution = altcha::Solution { counter: solution.counter,
        derived_key: solution.derived_key, time: None };
    let hmac_algorithm = match hmac_algorithm {
        HmacAlgorithm::Sha256 => altcha::HmacAlgorithm::Sha256,
        HmacAlgorithm::Sha384 => altcha::HmacAlgorithm::Sha384,
        HmacAlgorithm::Sha512 => altcha::HmacAlgorithm::Sha512 };
    let r = altcha::verify_solution(altcha::VerifySolutionOptions { challenge: &challenge,
        solution: &solution, hmac_algorithm, hmac_key_signature_secret: Some(key_secret),
        hmac_signature_secret: secret })?;
    Ok(Verification { expired: r.expired, verified: r.verified })
}

/// Whether a configuration has all that verification needs.
pub open spec fn can_verify(conf: ConfigView) -> bool {
    &&& conf.hmac_signature_secret is Some
    &&& conf.hmac_key_signature_secret is Some
    &&& conf.verify_input is Some
}

/// Whether the input yielded anything.
pub open spec fn has_value(value: Option<Seq<u8>>) -> bool {
    value is Some && value->0.len() > 0
}

/// The payload to check: what the submitted bytes hold, if the configuration is
/// there and complete, and they are neither missing nor empty nor malformed.
pub open spec fn submitted(conf: Option<ConfigView>, value: Option<Seq<u8>>) -> Option<
    PayloadView,
> {
    match (conf, value) {
        (Some(conf), Some(value)) => if can_verify(conf) && value.len() > 0 {
            match unwrapped(value) {
                Some(json) => parsed_payload(json),
                None => None,
            }
        } else {
            None
        },
        _ => None,
    }
}

/// Whether the key of a payload would have to be derived and cannot be built: its
/// challenge bears the right signature and is not checkable.
pub open spec fn unbuildable(conf: ConfigView, p: PayloadView) -> bool {
    &&& is_signed_by(
        p.challenge,
        conf.effective_hmac_algorithm(),
        conf.hmac_signature_secret->0,
    )
    &&& !checkable(p.challenge.parameters)
}

/// Whether nothing but its length keeps the key of a payload from being derived.
pub open spec fn key_too_long(conf: ConfigView, p: PayloadView) -> bool {
    &&& unbuildable(conf, p)
    &&& derived_key(shortened(p.challenge.parameters), p.solution.counter) is Some
}

/// The answer to a payload whose challenge has not expired, under a
/// configuration. `None` if it cannot be checked.
pub open spec fn unexpired_answer(conf: ConfigView, p: PayloadView) -> Option<bool> {
    let hmac_algorithm = conf.effective_hmac_algorithm();
    if unbuildable(conf, p) {
        None
    } else {
        answer_by(
            p,
            challenge_signature(
                p.challenge.parameters,
                hmac_algorithm,
                conf.hmac_signature_secret->0,
            ),
            key_signature(
                p.solution.derived_key,
                hmac_algorithm,
                conf.hmac_key_signature_secret->0,
            ),
            derived_key(p.challenge.parameters, p.solution.counter),
        )
    }
}

/// Whether a challenge stays unexpired for ever.
pub open spec fn never_expires(c: ChallengeView) -> bool {
    c.parameters.expires_at is None || c.parameters.expires_at == Some(u64::MAX)
}

/// Whether a submission is one that cannot be checked for the given reason. The
/// reasons are looked at in the order in which they stand, so that no two fit
/// one submission.
pub open spec fn unchecked_for(
    conf: Option<ConfigView>,
    value: Option<Seq<u8>>,
    e: VerifyError,
) -> bool {
    match (e, conf) {
        (VerifyError::NoConfiguration, None) => true,
        (VerifyError::NoConfiguration, Some(_)) => false,
        (_, None) => false,
        (VerifyError::NoSignatureSecret, Some(c)) => c.hmac_signature_secret is None,
        (VerifyError::NoKeySignatureSecret, Some(c)) => c.hmac_signature_secret is Some
            && c.hmac_key_signature_secret is None,
        (VerifyError::NoVerifyInput, Some(c)) => c.hmac_signature_secret is Some
            && c.hmac_key_signature_secret is Some && c.verify_input is None,
        (VerifyError::NoValue, Some(c)) => can_verify(c) && !has_value(value),
        (VerifyError::NotBase64(_), Some(c)) => can_verify(c) && has_value(value) && unwrapped(
            value->0,
        ) is None,
        (VerifyError::NotPayload(_), Some(c)) => can_verify(c) && has_value(value) && unwrapped(
            value->0,
        ) is Some && parsed_payload(unwrapped(value->0)->0) is None,
        (VerifyError::KeyTooLong, Some(c)) => match submitted(conf, value) {
            Some(p) => key_too_long(c, p),
            None => false,
        },
        (VerifyError::NotChecked(_), Some(c)) => match submitted(conf, value) {
            Some(p) => unexpired_answer(c, p) is None && !key_too_long(c, p),
            None => false,
        },
    }
}

/// Whether `verify_solution`, called on a challenge and a solution under a digest
/// and the two secrets, came back with this: what it found, or `None` for an
/// error. It takes a call to show that, so nothing else can pass for its answer,
/// and what the clock decides is decided there.
pub closed spec fn found(
    challenge: ChallengeView,
    solution: SolutionView,
    hmac_algorithm: HmacAlgorithm,
    key_secret: Seq<char>,
    secret: Seq<char>,
    answer: Option<Verification>,
) -> bool {
    exists|
        c: Challenge,
        s: Solution,
        by_key: String,
        by: String,
        r: Result<Verification, altcha::Error>,
    |
        {
            &&& #[trigger] call_ensures(verify_solution, (c, s, hmac_algorithm, by_key, by), r)
            &&& c@ == challenge
            &&& s@ == solution
            &&& by_key@ == key_secret
            &&& by@ == secret
            &&& answer == (match r {
                Ok(v) => Some(v),
                Err(_) => None,
            })
        }
}

/// The challenge of a payload as it is handed to the check: as it was submitted,
/// or, where its key cannot be built, with a key of one byte and signed anew.
pub open spec fn handed_over(conf: ConfigView, p: PayloadView) -> ChallengeView {
    if unbuildable(conf, p) {
        ChallengeView {
            parameters: shortened(p.challenge.parameters),
            signature: challenge_signature(
                shortened(p.challenge.parameters),
                conf.effective_hmac_algorithm(),
                conf.hmac_signature_secret->0,
            ),
        }
    } else {
        p.challenge
    }
}

/// Whether a check of a payload can have this outcome. It is what
/// `verify_solution` found, but that a key which cannot be built is no answer. Of
/// an unexpired challenge that is fixed. One with an expiry may be found expired
/// instead, which is for the clock to say.
pub open spec fn possible_outcome(
    conf: ConfigView,
    p: PayloadView,
    outcome: Option<Verification>,
) -> bool {
    &&& exists|answer: Option<Verification>|
        {
            &&& #[trigger] found(
                handed_over(conf, p),
                p.solution,
                conf.effective_hmac_algorithm(),
                conf.hmac_key_signature_secret->0,
                conf.hmac_signature_secret->0,
                answer,
            )
            &&& outcome == if unbuildable(conf, p) && answer is Some && !answer->0.expired {
                None
            } else {
                answer
            }
        }
    &&& match outcome {
        Some(v) if v.expired => !v.verified && !never_expires(p.challenge),
        Some(v) => unexpired_answer(conf, p) == Some(v.verified),
        None => unexpired_answer(conf, p) is None,
    }
}

/// Whether a solution solves a challenge: its key is the one that its counter
/// derives, and has the prefix asked for.
pub open spec fn solves(solution: SolutionView, c: ChallengeView) -> bool {
    &&& derived_key(c.parameters, solution.counter) == Some(solution.derived_key)
    &&& c.parameters.key_prefix.is_prefix_of(solution.derived_key)
}

/// Whether a text holds a slash.
fn has_slash(s: &str) -> (r: bool)
    ensures
        r == s@.contains('/'),
{
    let mut found = false;
    for c in it: s.chars()
        invariant
            it.seq() == s@,
            found == exists|i: int| 0 <= i < it.index() && #[trigger] s@[i] == '/',
    {
        if c == '/' {
            found = true;
        }
    }
    found
}

/// Whether the key of a challenge is checked without building a key that
/// outgrows what can be built.
pub fn is_checkable(parameters: &ChallengeParameters) -> (r: bool)
    ensures
        r == checkable(parameters@),
{
    parameters.key_signature.is_some() || !has_slash(parameters.algorithm.as_str()) || (
    parameters.key_length <= isize::MAX as usize && parameters.key_length as u64
        <= 137_438_953_440)
}

/// What an optional configuration holds.
pub open spec fn conf_view(conf: Option<&ModuleConfig>) -> Option<ConfigView> {
    match conf {
        Some(c) => Some(c@),
        None => None,
    }
}

/// Optional bytes as an optional sequence.
pub open spec fn bytes_view(value: Option<&[u8]>) -> Option<Seq<u8>> {
    match value {
        Some(v) => Some(v@),
        None => None,
    }
}

/// The outcome of a check, if there was one.
pub open spec fn outcome_of(r: Result<Verification, VerifyError>) -> Option<Verification> {
    match r {
        Ok(v) => Some(v),
        Err(_) => None,
    }
}

/// Whether a challenge bears the signature that a secret gives its parameters.
fn is_signed(challenge: &Challenge, hmac_algorithm: HmacAlgorithm, secret: &String) -> (r: bool)
    ensures
        r == is_signed_by(challenge@, hmac_algorithm, secret@),
{
    match (
        &challenge.signature,
        sign_challenge(&challenge.parameters, hmac_algorithm, secret.as_str()),
    ) {
        (Some(given), Ok(Some(expected))) => *given == expected,
        _ => false,
    }
}

/// Checks a payload.
///
/// A key that is too long to be built is not derived. Whether anything else
/// stands against the payload, its expiry or a part that cannot be read, is then
/// found out with a key of one byte, under a signature made for it.
pub fn verify_payload(conf: &ModuleConfig, payload: Payload) -> (r: Result<
    Verification,
    VerifyError,
>)
    requires
        can_verify(conf@),
    ensures
        possible_outcome(conf@, payload@, outcome_of(r)),
        r matches Err(e) ==> if key_too_long(conf@, payload@) {
            e is KeyTooLong
        } else {
            e is NotChecked
        },
{
    let secret = match &conf.hmac_signature_secret {
        Some(s) => s.clone(),
        None => return Err(VerifyError::NoSignatureSecret),
    };
    let key_secret = match &conf.hmac_key_signature_secret {
        Some(s) => s.clone(),
        None => return Err(VerifyError::NoKeySignatureSecret),
    };
    let hmac_algorithm = conf.hmac_algorithm();
    let Payload { challenge, solution } = payload;
    if is_checkable(&challenge.parameters) || !is_signed(&challenge, hmac_algorithm, &secret) {
        assert(challenge@ == handed_over(conf@, payload@));
        let r = verify_solution(challenge, solution, hmac_algorithm, key_secret, secret);
        let ghost answer = match r {
            Ok(v) => Some(v),
            Err(_) => None,
        };
        assert(found(
            challenge@,
            solution@,
            hmac_algorithm,
            key_secret@,
            secret@,
            answer,
        ));
        return match r {
            Ok(v) => Ok(v),
            Err(e) => Err(VerifyError::NotChecked(e)),
        };
    }
    let mut parameters = challenge.parameters;
    parameters.key_length = 1;
    let signature = match sign_challenge(&parameters, hmac_algorithm, secret.as_str()) {
        Ok(s) => s,
        Err(e) => return Err(VerifyError::NotChecked(e)),
    };
    let short = Challenge { parameters, signature };
    assert(short@ == handed_over(conf@, payload@));
    let r = verify_solution(short, solution, hmac_algorithm, key_secret, secret);
    let ghost answer = match r {
        Ok(v) => Some(v),
        Err(_) => None,
    };
    assert(found(short@, solution@, hmac_algorithm, key_secret@, secret@, answer));
    match r {
        Ok(v) => {
            if v.expired {
                Ok(v)
            } else {
                Err(VerifyError::KeyTooLong)
            }
        },
        Err(e) => Err(VerifyError::NotChecked(e)),
    }
}

/// Whether some bytes submit a solved challenge of a valid configuration: issued
/// under it at some moment, submitted as it was written out with a solution that
/// solves it and gives its key in hex, in any kind of base64 that is accepted.
pub open spec fn submits_solved(
    conf: ConfigView,
    value: Seq<u8>,
    wrapping: Wrapping,
    c: ChallengeView,
    now: u64,
    solution: SolutionView,
) -> bool {
    &&& conf.valid()
    &&& issued_from(c, options_at(conf, now))
    &&& solves(solution, c)
    &&& is_hex(solution.derived_key)
    &&& challenge_json(c) is Some
    &&& value == encoded(wrapping, submission(challenge_json(c)->0, solution))
}

/// A solved challenge is good until it expires: where a challenge was issued
/// under a valid configuration, a payload with a solution to it is answered yes under
/// that configuration.
pub proof fn solved_challenge_is_good(
    conf: ConfigView,
    c: ChallengeView,
    now: u64,
    solution: SolutionView,
)
    requires
        conf.valid(),
        can_verify(conf),
        issued_from(c, options_at(conf, now)),
        solves(solution, c),
    ensures
        unexpired_answer(conf, PayloadView { challenge: c, solution }) == Some(true),
{
}

/// A good payload is signed and solved: its challenge bears the signature that
/// the configured secret gives its parameters, and its key either has the
/// signature that the challenge asks for or solves it.
pub proof fn good_payload_is_signed_and_solved(conf: ConfigView, p: PayloadView)
    requires
        unexpired_answer(conf, p) == Some(true),
    ensures
        p.challenge.signature is Some,
        p.challenge.signature == challenge_signature(
            p.challenge.parameters,
            conf.effective_hmac_algorithm(),
            conf.hmac_signature_secret->0,
        ),
        p.challenge.parameters.key_signature is Some ==> p.challenge.parameters.key_signature
            == key_signature(
            p.solution.derived_key,
            conf.effective_hmac_algorithm(),
            conf.hmac_key_signature_secret->0,
        ),
        p.challenge.parameters.key_signature is None ==> solves(p.solution, p.challenge),
{
}

/// What was issued cannot be altered: a payload whose parameters are not those
/// that its signature was made for is never good.
pub proof fn altered_challenge_is_refused(conf: ConfigView, p: PayloadView)
    requires
        p.challenge.signature != challenge_signature(
            p.challenge.parameters,
            conf.effective_hmac_algorithm(),
            conf.hmac_signature_secret->0,
        ),
    ensures
        unexpired_answer(conf, p) != Some(true),
{
}

/// A submission is never empty.
proof fn lemma_submission_not_empty(challenge: Seq<char>, solution: SolutionView)
    ensures
        submission(challenge, solution).len() > 0,
{
    let text = "{\"challenge\":"@ + challenge + ",\"solution\":{\"counter\":"@ + decimal_text(
        solution.counter as nat,
    ) + ",\"derivedKey\":\""@ + solution.derived_key + "\"}}"@;
    reveal_strlit("{\"challenge\":");
    assert(text.len() > 0);
    vstd::utf8::encode_utf8_first_scalar(text);
}

/// Bytes that submit a solved challenge hold that challenge and solution once
/// they are read.
proof fn lemma_solved_submission(
    conf: ConfigView,
    value: Seq<u8>,
    wrapping: Wrapping,
    c: ChallengeView,
    now: u64,
    solution: SolutionView,
)
    requires
        submits_solved(conf, value, wrapping, c, now, solution),
    ensures
        value.len() > 0,
        unwrapped(value) == Some(submission(challenge_json(c)->0, solution)),
        c.parameters.data is None,
{
    let json = submission(challenge_json(c)->0, solution);
    lemma_submission_not_empty(challenge_json(c)->0, solution);
    every_wrapping_is_unwrapped(wrapping, json);
}

/// Checks the bytes that the configured input yielded, if it yielded any.
///
/// A client that solves a challenge issued under the same configuration, and
/// submits the challenge as it was written out with its solution, in any kind of
/// base64 that is accepted, is refused only if the challenge has expired.
pub fn verify_submission(conf: Option<&ModuleConfig>, value: Option<&[u8]>) -> (r: Result<
    Verification,
    VerifyError,
>)
    ensures
        match submitted(conf_view(conf), bytes_view(value)) {
            Some(p) => possible_outcome(conf->0@, p, outcome_of(r)),
            None => r is Err,
        },
        r matches Err(e) ==> unchecked_for(conf_view(conf), bytes_view(value), e),
        forall|wrapping: Wrapping, c: ChallengeView, now: u64, solution: SolutionView|
            conf is Some && can_verify(conf->0@) && value is Some && #[trigger] submits_solved(
                conf->0@,
                value->0@,
                wrapping,
                c,
                now,
                solution,
            ) ==> r is Ok && r->Ok_0.verified == !r->Ok_0.expired,
{
    let conf = match conf {
        Some(c) => c,
        None => return Err(VerifyError::NoConfiguration),
    };
    if conf.hmac_signature_secret.is_none() {
        return Err(VerifyError::NoSignatureSecret);
    }
    if conf.hmac_key_signature_secret.is_none() {
        return Err(VerifyError::NoKeySignatureSecret);
    }
    if conf.verify_input.is_none() {
        return Err(VerifyError::NoVerifyInput);
    }
    let value = match value {
        Some(v) => v,
        None => return Err(VerifyError::NoValue),
    };
    proof {
        assert forall|wrapping: Wrapping, c: ChallengeView, now: u64, solution: SolutionView| #[trigger]
            submits_solved(conf@, value@, wrapping, c, now, solution) implies value@.len() > 0
            && unwrapped(value@) == Some(submission(challenge_json(c)->0, solution))
            && c.parameters.data is None && unexpired_answer(
            conf@,
            PayloadView { challenge: c, solution },
        ) == Some(true) by {
            lemma_solved_submission(conf@, value@, wrapping, c, now, solution);
            solved_challenge_is_good(conf@, c, now, solution);
        }
    }
    if value.len() == 0 {
        return Err(VerifyError::NoValue);
    }
    let json = match unwrap_base64(value) {
        Ok(j) => j,
        Err(e) => return Err(VerifyError::NotBase64(e)),
    };
    let payload = match parse_payload(json.as_slice()) {
        Ok(p) => p,
        Err(e) => return Err(VerifyError::NotPayload(e)),
    };
    verify_payload(conf, payload)
}

/// The answer that an outcome amounts to: yes only for a payload that was
/// checked and found good.
pub fn verdict(outcome: &Result<Verification, VerifyError>) -> (r: bool)
    ensures
        r == (outcome is Ok && outcome->Ok_0.verified),
{
    match outcome {
        Ok(v) => v.verified,
        Err(_) => false,
    }
}

/// Whether a submission can be answered like this: as some check of its payload
/// turned out. A yes is only given to a
/// payload that would be good if unexpired, and never withheld from one whose
/// challenge does not expire; whether an expiry has passed is for the clock to
/// say.
pub open spec fn possible_answer(
    conf: Option<ConfigView>,
    value: Option<Seq<u8>>,
    answer: bool,
) -> bool {
    match submitted(conf, value) {
        Some(p) => {
            &&& exists|outcome: Option<Verification>| #[trigger]
                possible_outcome(conf->0, p, outcome) && answer == (outcome is Some
                    && outcome->0.verified)
            &&& answer ==> unexpired_answer(conf->0, p) == Some(true)
            &&& unexpired_answer(conf->0, p) == Some(true) && never_expires(p.challenge) ==> answer
        },
        None => !answer,
    }
}

/// Whether the bytes that the configured input yielded hold a solved, signed,
/// unexpired payload. Anything that goes wrong on the way is a no.
pub fn run_verify(conf: Option<&ModuleConfig>, value: Option<&[u8]>) -> (r: bool)
    ensures
        possible_answer(conf_view(conf), bytes_view(value), r),
{
    verdict(&verify_submission(conf, value))
}

/// The wrapping does not matter: the same bytes submitted in standard base64, or
/// in URL-safe base64 with or without padding, hold the same payload and can be
/// answered in the same ways.
pub proof fn wrapping_does_not_matter(
    conf: Option<ConfigView>,
    json: Seq<u8>,
    one: Wrapping,
    other: Wrapping,
    answer: bool,
)
    ensures
        submitted(conf, Some(encoded(one, json))) == submitted(conf, Some(encoded(other, json))),
        possible_answer(conf, Some(encoded(one, json)), answer) == possible_answer(
            conf,
            Some(encoded(other, json)),
            answer,
        ),
{
    every_wrapping_is_unwrapped(one, json);
    every_wrapping_is_unwrapped(other, json);
}

/// Verification needs the two secrets and the input, and nothing else.
pub proof fn verification_needs_three_settings(conf: ConfigView)
    ensures
        can_verify(conf) <==> conf.hmac_signature_secret is Some
            && conf.hmac_key_signature_secret is Some && conf.verify_input is Some,
{
}

/// A payload is read from its JSON in any wrapping, under every configuration
/// that is complete.
pub proof fn payload_is_read_from_any_wrapping(conf: ConfigView, json: Seq<u8>, w: Wrapping)
    requires
        conf.hmac_signature_secret is Some,
        conf.hmac_key_signature_secret is Some,
        conf.verify_input is Some,
        json.len() > 0,
    ensures
        submitted(Some(conf), Some(encoded(w, json))) == parsed_payload(json),
{
    every_wrapping_is_unwrapped(w, json);
}

/// There is nothing to check without a complete configuration, nor where the
/// input yielded nothing, or something that is base64 of no kind.
pub proof fn nothing_else_is_read(conf: Option<ConfigView>, value: Option<Seq<u8>>)
    requires
        ({
            ||| conf is None
            ||| conf->0.hmac_signature_secret is None
            ||| conf->0.hmac_key_signature_secret is None
            ||| conf->0.verify_input is None
            ||| value is None
            ||| value->0.len() == 0
            ||| forall|w: Wrapping, data: Seq<u8>| #[trigger] encoded(w, data) != value->0
        }),
    ensures
        submitted(conf, value) is None,
{
}

/// A key can be checked, and is, unless it must be derived at a length that
/// outgrows what can be built.
pub proof fn keys_are_checked_unless_too_long(parameters: ParametersView)
    ensures
        parameters.key_signature is Some ==> checkable(parameters),
        !parameters.algorithm.contains('/') ==> checkable(parameters),
        parameters.key_length <= isize::MAX && parameters.key_length <= 0xffff_ffff * 32
            ==> checkable(parameters),
        checkable(parameters) ==> parameters.key_signature is Some
            || !parameters.algorithm.contains('/') || (parameters.key_length <= isize::MAX
            && parameters.key_length <= 0xffff_ffff * 32),
{
}

/// A challenge that is not signed, or not with the signature that the configured
/// secret gives its parameters, is not good, whatever its solution.
pub proof fn signature_must_be_the_expected_one(conf: ConfigView, p: PayloadView)
    ensures
        p.challenge.signature is None ==> unexpired_answer(conf, p) == Some(false),
        p.challenge.signature matches Some(given) ==> match challenge_signature(
            p.challenge.parameters,
            conf.effective_hmac_algorithm(),
            conf.hmac_signature_secret->0,
        ) {
            Some(expected) => given != expected ==> unexpired_answer(conf, p) == Some(false),
            None => unexpired_answer(conf, p) is None,
        },
{
}

/// A challenge with the right signature is answered by the key. Where its
/// parameters hold the signature of a key, the answer is whether that is the one
/// that the configured secret gives the submitted key. Where they do not, it is
/// whether the submitted key is the derived one and begins with the prefix.
pub proof fn signed_challenge_is_answered_by_its_key(conf: ConfigView, p: PayloadView)
    requires
        p.challenge.signature is Some,
        p.challenge.signature == challenge_signature(
            p.challenge.parameters,
            conf.effective_hmac_algorithm(),
            conf.hmac_signature_secret->0,
        ),
    ensures
        p.challenge.parameters.key_signature matches Some(given) ==> unexpired_answer(conf, p) == (
        match key_signature(
            p.solution.derived_key,
            conf.effective_hmac_algorithm(),
            conf.hmac_key_signature_secret->0,
        ) {
            Some(expected) => Some(given == expected),
            None => None,
        }),
        p.challenge.parameters.key_signature is None && (!p.challenge.parameters.algorithm.contains(
            '/',
        ) || (p.challenge.parameters.key_length <= isize::MAX && p.challenge.parameters.key_length
            <= 0xffff_ffff * 32)) ==> unexpired_answer(conf, p) == (match derived_key(
            p.challenge.parameters,
            p.solution.counter,
        ) {
            Some(key) => Some(
                key == p.solution.derived_key && p.challenge.parameters.key_prefix.len()
                    <= key.len() && key.take(p.challenge.parameters.key_prefix.len() as int)
                    == p.challenge.parameters.key_prefix,
            ),
            None => None,
        }),
{
    let prefix = p.challenge.parameters.key_prefix;
    if let Some(key) = derived_key(p.challenge.parameters, p.solution.counter) {
        if prefix.len() <= key.len() {
            assert(key.take(prefix.len() as int) =~= key.subrange(0, prefix.len() as int));
        }
    }
}

/// To solve a challenge is to submit the key that the counter derives, where that
/// begins with the prefix.
pub proof fn solving_is_deriving_a_key_with_the_prefix(solution: SolutionView, c: ChallengeView)
    ensures
        solves(solution, c) <==> {
            &&& derived_key(c.parameters, solution.counter) == Some(solution.derived_key)
            &&& c.parameters.key_prefix.len() <= solution.derived_key.len()
            &&& solution.derived_key.take(c.parameters.key_prefix.len() as int)
                == c.parameters.key_prefix
        },
{
    let prefix = c.parameters.key_prefix;
    let key = solution.derived_key;
    if prefix.len() <= key.len() {
        assert(key.take(prefix.len() as int) =~= key.subrange(0, prefix.len() as int));
    }
}

/// The clock is not second-guessed: a payload is answered just as a check of the
/// challenge and the solution that it holds, under the configured digest and
/// secrets, found it. The only other answer is that a key is too long to be built.
pub proof fn outcome_is_what_the_check_found(
    conf: ConfigView,
    p: PayloadView,
    outcome: Option<Verification>,
)
    requires
        possible_outcome(conf, p, outcome),
        checkable(p.challenge.parameters) || p.challenge.signature is None
            || p.challenge.signature != challenge_signature(
            p.challenge.parameters,
            conf.effective_hmac_algorithm(),
            conf.hmac_signature_secret->0,
        ),
    ensures
        found(
            p.challenge,
            p.solution,
            conf.effective_hmac_algorithm(),
            conf.hmac_key_signature_secret->0,
            conf.hmac_signature_secret->0,
            outcome,
        ),
{
}

/// A payload is answered as expired only where a check of a challenge with its
/// expiry, and otherwise with its parameters but for the length of the key, found
/// that expiry to have passed. No payload without an expiry is, and none that is
/// so answered is good.
pub proof fn expired_is_only_what_was_found_expired(
    conf: ConfigView,
    p: PayloadView,
    outcome: Verification,
)
    requires
        possible_outcome(conf, p, Some(outcome)),
        outcome.expired,
    ensures
        !outcome.verified,
        p.challenge.parameters.expires_at is Some,
        exists|c: ChallengeView|
            {
                &&& #[trigger] found(
                    c,
                    p.solution,
                    conf.effective_hmac_algorithm(),
                    conf.hmac_key_signature_secret->0,
                    conf.hmac_signature_secret->0,
                    Some(outcome),
                )
                &&& c.parameters.expires_at == p.challenge.parameters.expires_at
                &&& c.parameters == (ParametersView {
                    key_length: c.parameters.key_length,
                    ..p.challenge.parameters
                })
            },
{
}

/// A good payload whose challenge no check finds expired is answered yes.
pub proof fn good_payload_is_verified_unless_found_expired(
    conf: ConfigView,
    p: PayloadView,
    outcome: Option<Verification>,
)
    requires
        possible_outcome(conf, p, outcome),
        unexpired_answer(conf, p) == Some(true),
        forall|v: Verification| #[trigger]
            found(
                p.challenge,
                p.solution,
                conf.effective_hmac_algorithm(),
                conf.hmac_key_signature_secret->0,
                conf.hmac_signature_secret->0,
                Some(v),
            ) ==> !v.expired,
    ensures
        outcome == Some(Verification { expired: false, verified: true }),
{
    assert(!unbuildable(conf, p));
}

/// A challenge counts as found so where, and only where, a call of
/// `verify_solution` on it, with the solution, the digest and the secrets, came
/// back with that.
pub(crate) proof fn finding_came_from_a_call(
    challenge: ChallengeView,
    solution: SolutionView,
    hmac_algorithm: HmacAlgorithm,
    key_secret: Seq<char>,
    secret: Seq<char>,
    answer: Option<Verification>,
)
    ensures
        found(challenge, solution, hmac_algorithm, key_secret, secret, answer) <==> exists|
            c: Challenge,
            s: Solution,
            by_key: String,
            by: String,
            r: Result<Verification, altcha::Error>,
        |
            {
                &&& #[trigger] call_ensures(verify_solution, (c, s, hmac_algorithm, by_key, by), r)
                &&& c@ == challenge
                &&& s@ == solution
                &&& by_key@ == key_secret
                &&& by@ == secret
                &&& r matches Ok(v) ==> answer == Some(v)
                &&& r is Err ==> answer is None
            },
{
}

/// A submission is answered yes where a check of its payload found it verified,
/// and no where one found it otherwise or there is nothing to check.
pub proof fn submission_is_answered_as_found(
    conf: Option<ConfigView>,
    value: Option<Seq<u8>>,
    answer: bool,
)
    requires
        possible_answer(conf, value, answer),
    ensures
        submitted(conf, value) is None ==> !answer,
        submitted(conf, value) matches Some(p) ==> exists|outcome: Option<Verification>|
            {
                &&& #[trigger] possible_outcome(conf->0, p, outcome)
                &&& answer <==> outcome == Some(Verification { expired: false, verified: true })
            },
{
    if let Some(p) = submitted(conf, value) {
        let o = choose|o: Option<Verification>| #[trigger]
            possible_outcome(conf->0, p, o) && answer == (o is Some && o->0.verified);
        assert(possible_outcome(conf->0, p, o));
        assert(answer <==> o == Some(Verification { expired: false, verified: true }));
    }
}

/// Of the reasons for not checking a submission the first that holds is given:
/// no configuration, no secret for challenges, none for keys, no input, no value,
/// no base64, no payload, a key that only its length keeps from being derived, and
/// an error of the check itself.
pub proof fn reason_is_the_first_that_holds(
    conf: Option<ConfigView>,
    value: Option<Seq<u8>>,
    e: VerifyError,
)
    ensures
        ({
            let given = unchecked_for(conf, value, e);
            match conf {
                None => given <==> e is NoConfiguration,
                Some(c) => if c.hmac_signature_secret is None {
                    given <==> e is NoSignatureSecret
                } else if c.hmac_key_signature_secret is None {
                    given <==> e is NoKeySignatureSecret
                } else if c.verify_input is None {
                    given <==> e is NoVerifyInput
                } else if value is None || value->0.len() == 0 {
                    given <==> e is NoValue
                } else if forall|w: Wrapping, data: Seq<u8>| #[trigger]
                    encoded(w, data) != value->0 {
                    given <==> e is NotBase64
                } else if forall|w: Wrapping, data: Seq<u8>| #[trigger]
                    encoded(w, data) == value->0 ==> parsed_payload(data) is None {
                    given <==> e is NotPayload
                } else {
                    given ==> e is KeyTooLong || e is NotChecked
                },
            }
        }),
{
    if let Some(v) = value {
        assert forall|w: Wrapping, data: Seq<u8>| #[trigger] encoded(w, data) == v implies unwrapped(
            v,
        ) == Some(data) by {
            every_wrapping_is_unwrapped(w, data);
        }
        if unwrapped(v) is Some {
            only_wrapped_bytes_are_unwrapped(v, unwrapped(v)->0);
        }
    }
}

/// A payload that was read is left unchecked only where its answer, its expiry
/// aside, is neither yes nor no; and for the length of its key only where its
/// challenge is rightly signed, the key would have to be derived and built too
/// long, and a key of one byte could be derived.
pub proof fn payload_is_left_unchecked_for_a_reason(
    conf: ConfigView,
    value: Option<Seq<u8>>,
    p: PayloadView,
    e: VerifyError,
)
    requires
        submitted(Some(conf), value) == Some(p),
        unchecked_for(Some(conf), value, e),
    ensures
        unexpired_answer(conf, p) is None,
        e is KeyTooLong || e is NotChecked,
        e is KeyTooLong <==> {
            &&& p.challenge.signature is Some
            &&& p.challenge.signature == challenge_signature(
                p.challenge.parameters,
                conf.effective_hmac_algorithm(),
                conf.hmac_signature_secret->0,
            )
            &&& p.challenge.parameters.key_signature is None
            &&& p.challenge.parameters.algorithm.contains('/')
            &&& p.challenge.parameters.key_length > isize::MAX || p.challenge.parameters.key_length
                > 0xffff_ffff * 32
            &&& derived_key(
                ParametersView { key_length: 1, ..p.challenge.parameters },
                p.solution.counter,
            ) is Some
        },
{
}

/// Whatever is issued under a valid configuration, solved and sent back in any
/// wrapping, with the solution's key in hex, counts as a solved submission; and
/// what counts as one holds a solution of a challenge that was so issued.
pub proof fn solved_submissions_are_those_of_issued_challenges(
    conf: ConfigView,
    value: Seq<u8>,
    w: Wrapping,
    c: ChallengeView,
    now: u64,
    solution: SolutionView,
)
    ensures
        submits_solved(conf, value, w, c, now, solution) <==> {
            &&& conf.valid()
            &&& issued_from(c, options_at(conf, now))
            &&& derived_key(c.parameters, solution.counter) == Some(solution.derived_key)
            &&& c.parameters.key_prefix.len() <= solution.derived_key.len()
            &&& solution.derived_key.take(c.parameters.key_prefix.len() as int)
                == c.parameters.key_prefix
            &&& is_hex(solution.derived_key)
            &&& challenge_json(c) is Some
            &&& value == encoded(w, submission(challenge_json(c)->0, solution))
        },
{
    solving_is_deriving_a_key_with_the_prefix(solution, c);
}

/// The views of a payload, of a configuration and of a value show what is there.
pub proof fn views_show_what_is_there(
    p: Payload,
    conf: Option<&ModuleConfig>,
    value: Option<&[u8]>,
    r: Result<Verification, VerifyError>,
)
    ensures
        p@.challenge == p.challenge@,
        p@.solution == p.solution@,
        p.solution@.counter == p.solution.counter,
        p.solution@.derived_key == p.solution.derived_key@,
        conf matches Some(c) ==> conf_view(conf) == Some(c@),
        conf is None ==> conf_view(conf) is None,
        value matches Some(v) ==> bytes_view(value) == Some(v@),
        value is None ==> bytes_view(value) is None,
        r matches Ok(v) ==> outcome_of(r) == Some(v),
        r is Err ==> outcome_of(r) is None,
{
}

} // verus!
