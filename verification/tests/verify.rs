use altcha::{
    create_challenge, solve_challenge, CreateChallengeOptions, Payload, SolveChallengeOptions,
};
use base64::engine::general_purpose::{STANDARD, URL_SAFE, URL_SAFE_NO_PAD};
use base64::Engine;
use ngx_http_altcha_module::challenge::HmacAlgorithm;
use ngx_http_altcha_module::config::ModuleConfig;
use ngx_http_altcha_module::verify::{
    is_checkable, run_verify, verdict, verify_payload, verify_submission, Verification, VerifyError,
};

const GOOD: Option<Verification> = Some(Verification { expired: false, verified: true });
const BAD: Option<Verification> = Some(Verification { expired: false, verified: false });
const EXPIRED: Option<Verification> = Some(Verification { expired: true, verified: false });

fn conf() -> ModuleConfig {
    ModuleConfig {
        hmac_signature_secret: Some("secret".to_string()),
        hmac_key_signature_secret: Some("key secret".to_string()),
        verify_input: Some(1),
        ..ModuleConfig::default()
    }
}

fn options() -> CreateChallengeOptions {
    CreateChallengeOptions {
        algorithm: "SHA-256".to_string(),
        cost: 2,
        hmac_signature_secret: Some("secret".to_string()),
        hmac_key_signature_secret: Some("key secret".to_string()),
        ..CreateChallengeOptions::default()
    }
}

fn solved(options: CreateChallengeOptions) -> Payload {
    let challenge = create_challenge(options).unwrap();
    let solution = solve_challenge(SolveChallengeOptions::new(&challenge)).unwrap().unwrap();
    Payload { challenge, solution }
}

fn wrapped(payload: &Payload) -> Vec<u8> {
    STANDARD.encode(serde_json::to_vec(payload).unwrap()).into_bytes()
}

fn outcome(conf: &ModuleConfig, payload: &Payload) -> Option<Verification> {
    let value = wrapped(payload);
    let r = verify_submission(Some(conf), Some(&value));
    assert_eq!(run_verify(Some(conf), Some(&value)), verdict(&r));
    r.ok()
}

#[test]
fn a_solved_challenge_is_good() {
    assert_eq!(outcome(&conf(), &solved(options())), GOOD);
    for algorithm in ["SHA-384", "sha-512", "PBKDF2/SHA-256", "PBKDF2/SHA-384", "PBKDF2/SHA-512"] {
        let o = CreateChallengeOptions { algorithm: algorithm.to_string(), ..options() };
        assert_eq!(outcome(&conf(), &solved(o)), GOOD, "{}", algorithm);
    }
}

#[test]
fn any_base64_will_do() {
    let json = serde_json::to_vec(&solved(options())).unwrap();
    assert!(run_verify(Some(&conf()), Some(STANDARD.encode(&json).as_bytes())));
    assert!(run_verify(Some(&conf()), Some(URL_SAFE_NO_PAD.encode(&json).as_bytes())));
    assert!(run_verify(Some(&conf()), Some(URL_SAFE.encode(&json).as_bytes())));
}

#[test]
fn padded_url_safe_base64_is_good() {
    // Characters whose UTF-8 brings out the symbols in which the alphabets
    // differ, and a field of varying length for every amount of padding.
    for i in 0..3usize {
        let mut data = std::collections::BTreeMap::new();
        data.insert("note".to_string(), serde_json::Value::from("\u{fbff}~?>".repeat(4 + i)));
        data.insert("x".repeat(1 + i), serde_json::Value::from(i));
        let p = solved(CreateChallengeOptions { data: Some(data), ..options() });
        let mut json = serde_json::to_vec(&p).unwrap();
        while json.len() % 3 != i {
            json.push(b' ');
        }
        let text = URL_SAFE.encode(&json);
        assert!(text.contains('-') || text.contains('_'));
        assert_eq!(text.ends_with('='), i != 0);
        assert!(run_verify(Some(&conf()), Some(STANDARD.encode(&json).as_bytes())));
        assert!(run_verify(Some(&conf()), Some(URL_SAFE_NO_PAD.encode(&json).as_bytes())));
        assert!(run_verify(Some(&conf()), Some(text.as_bytes())));
    }
}

#[test]
fn a_submission_needs_no_solving_time() {
    let p = solved(options());
    let challenge = serde_json::to_string(&p.challenge).unwrap();
    let json = format!(
        "{{\"challenge\":{},\"solution\":{{\"counter\":{},\"derivedKey\":\"{}\"}}}}",
        challenge, p.solution.counter, p.solution.derived_key
    );
    assert!(run_verify(Some(&conf()), Some(STANDARD.encode(json).as_bytes())));
}

#[test]
fn an_expired_challenge_is_refused() {
    let p = solved(CreateChallengeOptions { expires_at: Some(1), ..options() });
    assert_eq!(outcome(&conf(), &p), EXPIRED);
}

#[test]
fn expiry_is_answered_before_the_signature() {
    let mut p = solved(CreateChallengeOptions { expires_at: Some(1), ..options() });
    p.challenge.signature = None;
    assert_eq!(outcome(&conf(), &p), EXPIRED);
}

#[test]
fn a_challenge_that_never_expires_is_good() {
    let p = solved(CreateChallengeOptions { expires_at: Some(u64::MAX), ..options() });
    assert_eq!(outcome(&conf(), &p), GOOD);
    let p = solved(CreateChallengeOptions { expires_at: None, ..options() });
    assert_eq!(outcome(&conf(), &p), GOOD);
}

#[test]
fn an_altered_challenge_is_refused() {
    let mut p = solved(options());
    p.challenge.parameters.cost = 1;
    assert_eq!(outcome(&conf(), &p), BAD);
    let mut p = solved(options());
    p.challenge.parameters.key_prefix = "0".to_string();
    assert_eq!(outcome(&conf(), &p), BAD);
    let mut p = solved(CreateChallengeOptions { expires_at: Some(1), ..options() });
    p.challenge.parameters.expires_at = None;
    assert_eq!(outcome(&conf(), &p), BAD);
}

#[test]
fn an_unsigned_challenge_is_refused() {
    let p = solved(CreateChallengeOptions { hmac_signature_secret: None, ..options() });
    assert_eq!(p.challenge.signature, None);
    assert_eq!(outcome(&conf(), &p), BAD);
}

#[test]
fn a_foreign_secret_is_refused() {
    let o = CreateChallengeOptions { hmac_signature_secret: Some("other".to_string()), ..options() };
    assert_eq!(outcome(&conf(), &solved(o)), BAD);
}

#[test]
fn the_digest_must_be_the_configured_one() {
    let digests = [
        (HmacAlgorithm::Sha256, altcha::HmacAlgorithm::Sha256),
        (HmacAlgorithm::Sha384, altcha::HmacAlgorithm::Sha384),
        (HmacAlgorithm::Sha512, altcha::HmacAlgorithm::Sha512),
    ];
    for (i, (ours, _)) in digests.iter().enumerate() {
        for (j, (_, theirs)) in digests.iter().enumerate() {
            let conf = ModuleConfig { hmac_algorithm: Some(*ours), ..conf() };
            let o = CreateChallengeOptions { hmac_algorithm: theirs.clone(), ..options() };
            assert_eq!(outcome(&conf, &solved(o)), if i == j { GOOD } else { BAD });
        }
    }
}

#[test]
fn a_wrong_key_is_refused() {
    let mut p = solved(options());
    p.solution.counter += 1;
    assert_eq!(outcome(&conf(), &p), BAD);
    let mut p = solved(options());
    p.solution.derived_key = p.solution.derived_key.to_uppercase() + "00";
    assert_eq!(outcome(&conf(), &p), BAD);
}

#[test]
fn a_key_without_the_prefix_is_refused() {
    let challenge =
        create_challenge(CreateChallengeOptions { key_prefix: "0123456789".to_string(), ..options() }).unwrap();
    let mut easier = challenge.clone();
    easier.parameters.key_prefix = String::new();
    let solution = solve_challenge(SolveChallengeOptions::new(&easier)).unwrap().unwrap();
    assert_eq!(outcome(&conf(), &Payload { challenge, solution }), BAD);
}

#[test]
fn a_signed_key_is_checked_by_its_signature() {
    let p = solved(CreateChallengeOptions { counter: Some(3), ..options() });
    assert!(p.challenge.parameters.key_signature.is_some());
    assert_eq!(outcome(&conf(), &p), GOOD);

    let mut wrong = p.clone();
    wrong.solution.derived_key = "00".to_string();
    assert_eq!(outcome(&conf(), &wrong), BAD);

    let mut no_hex = p.clone();
    no_hex.solution.derived_key = "zz".to_string();
    assert_eq!(outcome(&conf(), &no_hex), None);

    let other = ModuleConfig { hmac_key_signature_secret: Some("other".to_string()), ..conf() };
    assert_eq!(outcome(&other, &p), BAD);
}

#[test]
fn what_cannot_be_derived_cannot_be_checked() {
    let mut p = solved(options());
    let o = CreateChallengeOptions { algorithm: "ROT13".to_string(), ..options() };
    p.challenge = create_challenge(o).unwrap();
    assert_eq!(outcome(&conf(), &p), None);
}

/// A solution, with a challenge that asks for a key too long to be built.
fn too_long(options: CreateChallengeOptions) -> Payload {
    let o = CreateChallengeOptions {
        algorithm: "PBKDF2/SHA-256".to_string(),
        key_length: usize::MAX,
        ..options
    };
    Payload { challenge: create_challenge(o).unwrap(), ..solved(self::options()) }
}

fn refusal(payload: &Payload) -> VerifyError {
    verify_submission(Some(&conf()), Some(&wrapped(payload))).unwrap_err()
}

#[test]
fn a_signed_key_too_long_to_build_is_not_checked() {
    let p = too_long(options());
    assert_eq!(outcome(&conf(), &p), None);
    assert!(matches!(refusal(&p), VerifyError::KeyTooLong));
    for hmac_algorithm in [altcha::HmacAlgorithm::Sha384, altcha::HmacAlgorithm::Sha512] {
        let ours = match hmac_algorithm {
            altcha::HmacAlgorithm::Sha384 => HmacAlgorithm::Sha384,
            _ => HmacAlgorithm::Sha512,
        };
        let c = ModuleConfig { hmac_algorithm: Some(ours), ..conf() };
        let p = too_long(CreateChallengeOptions { hmac_algorithm, ..options() });
        let r = verify_submission(Some(&c), Some(&wrapped(&p)));
        assert!(matches!(r, Err(VerifyError::KeyTooLong)));
    }
}

#[test]
fn an_unsigned_key_length_is_answered_by_the_signature() {
    let unsigned = too_long(CreateChallengeOptions { hmac_signature_secret: None, ..options() });
    assert_eq!(outcome(&conf(), &unsigned), BAD);
    let foreign = too_long(CreateChallengeOptions {
        hmac_signature_secret: Some("other".to_string()),
        ..options()
    });
    assert_eq!(outcome(&conf(), &foreign), BAD);
    let mut altered = too_long(options());
    altered.challenge.parameters.key_length = 137_438_953_441;
    assert_eq!(outcome(&conf(), &altered), BAD);
}

#[test]
fn an_expired_key_length_is_answered_by_the_clock() {
    let p = too_long(CreateChallengeOptions { expires_at: Some(1), ..options() });
    assert_eq!(outcome(&conf(), &p), EXPIRED);
    let p = too_long(CreateChallengeOptions {
        expires_at: Some(1),
        hmac_signature_secret: None,
        ..options()
    });
    assert_eq!(outcome(&conf(), &p), EXPIRED);
}

#[test]
fn a_long_key_of_an_unknown_kind_is_an_unknown_kind() {
    let o = CreateChallengeOptions {
        algorithm: "ROT/13".to_string(),
        key_length: usize::MAX,
        ..options()
    };
    let p = Payload { challenge: create_challenge(o).unwrap(), ..solved(options()) };
    assert!(matches!(
        refusal(&p),
        VerifyError::NotChecked(altcha::Error::UnsupportedAlgorithm(_))
    ));
}

#[test]
fn a_digest_is_cut_to_any_key_length() {
    let p = solved(CreateChallengeOptions { key_length: usize::MAX, ..options() });
    assert_eq!(p.solution.derived_key.len(), 64);
    assert_eq!(outcome(&conf(), &p), GOOD);
}

#[test]
fn verification_needs_three_directives() {
    let value = wrapped(&solved(options()));
    assert!(run_verify(Some(&conf()), Some(&value)));
    assert!(!run_verify(None, Some(&value)));
    assert!(matches!(verify_submission(None, Some(&value)), Err(VerifyError::NoConfiguration)));

    let c = ModuleConfig { hmac_signature_secret: None, ..conf() };
    assert!(!run_verify(Some(&c), Some(&value)));
    assert!(matches!(verify_submission(Some(&c), Some(&value)), Err(VerifyError::NoSignatureSecret)));
    let c = ModuleConfig { hmac_key_signature_secret: None, ..conf() };
    assert!(!run_verify(Some(&c), Some(&value)));
    assert!(matches!(
        verify_submission(Some(&c), Some(&value)),
        Err(VerifyError::NoKeySignatureSecret)
    ));
    let c = ModuleConfig { verify_input: None, ..conf() };
    assert!(!run_verify(Some(&c), Some(&value)));
    assert!(matches!(verify_submission(Some(&c), Some(&value)), Err(VerifyError::NoVerifyInput)));
    let c = ModuleConfig::default();
    assert!(matches!(verify_submission(Some(&c), None), Err(VerifyError::NoSignatureSecret)));
}

#[test]
fn malformed_submissions_are_refused() {
    assert!(!run_verify(Some(&conf()), None));
    assert!(matches!(verify_submission(Some(&conf()), None), Err(VerifyError::NoValue)));
    assert!(!run_verify(Some(&conf()), Some(b"")));
    assert!(matches!(verify_submission(Some(&conf()), Some(b"")), Err(VerifyError::NoValue)));
    let values: [&[u8]; 3] = [b"not base64!", b"aGVsbG8==", b"-w="];
    for value in values {
        assert!(!run_verify(Some(&conf()), Some(value)));
        assert!(matches!(
            verify_submission(Some(&conf()), Some(value)),
            Err(VerifyError::NotBase64(_))
        ));
    }
    let mut json = serde_json::to_vec(&solved(options())).unwrap();
    json.pop();
    let cut = STANDARD.encode(json);
    let values: [&[u8]; 4] = [b"e30=", b"bnVsbA==", b"aGVsbG8=", cut.as_bytes()];
    for value in values {
        assert!(!run_verify(Some(&conf()), Some(value)));
        assert!(matches!(
            verify_submission(Some(&conf()), Some(value)),
            Err(VerifyError::NotPayload(_))
        ));
    }
}

#[test]
fn what_could_not_be_checked_says_why() {
    let mut p = solved(options());
    p.challenge =
        create_challenge(CreateChallengeOptions { algorithm: "ROT13".to_string(), ..options() }).unwrap();
    let r = verify_submission(Some(&conf()), Some(&wrapped(&p)));
    assert!(matches!(r, Err(VerifyError::NotChecked(altcha::Error::UnsupportedAlgorithm(_)))));
}

#[test]
fn verify_errors_have_messages() {
    let base64_error = STANDARD.decode("!").unwrap_err();
    let json_error = serde_json::from_str::<altcha::Payload>("").unwrap_err();
    let altcha_error = altcha::Error::UnsupportedAlgorithm("ROT13".to_string());
    let messages = [
        (VerifyError::NoConfiguration, None),
        (
            VerifyError::NoSignatureSecret,
            Some("altcha: verify failed \u{2014} altcha_hmac_signature_secret not configured"),
        ),
        (
            VerifyError::NoKeySignatureSecret,
            Some("altcha: verify failed \u{2014} altcha_hmac_key_signature_secret not configured"),
        ),
        (
            VerifyError::NoVerifyInput,
            Some("altcha: verify failed \u{2014} altcha_verify_input not configured"),
        ),
        (VerifyError::NoValue, Some("altcha: verify failed \u{2014} input value missing")),
        (VerifyError::NotBase64(base64_error), Some("altcha: verify failed \u{2014} base64 decode")),
        (VerifyError::NotPayload(json_error), Some("altcha: verify failed \u{2014} json parse")),
        (VerifyError::KeyTooLong, Some("altcha: verify failed \u{2014} key too long")),
        (VerifyError::NotChecked(altcha_error), Some("altcha: verify_solution error")),
    ];
    for (e, message) in messages {
        assert_eq!(e.message(), message);
    }
}

#[test]
fn raw_json_is_no_submission() {
    let json = serde_json::to_vec(&solved(options())).unwrap();
    assert!(matches!(
        verify_submission(Some(&conf()), Some(&json)),
        Err(VerifyError::NotBase64(_))
    ));
}

#[test]
fn a_payload_is_checked_by_its_parts() {
    let p = solved(options());
    let ours = |key: &str| ngx_http_altcha_module::verify::Payload {
        challenge: ngx_http_altcha_module::challenge::Challenge {
            parameters: ngx_http_altcha_module::challenge::ChallengeParameters {
                algorithm: p.challenge.parameters.algorithm.clone(),
                cost: p.challenge.parameters.cost,
                data: None,
                expires_at: None,
                key_length: 32,
                key_prefix: "00".to_string(),
                key_signature: None,
                memory_cost: None,
                nonce: p.challenge.parameters.nonce.clone(),
                parallelism: None,
                salt: p.challenge.parameters.salt.clone(),
            },
            signature: p.challenge.signature.clone(),
        },
        solution: ngx_http_altcha_module::verify::Solution {
            counter: p.solution.counter,
            derived_key: key.to_string(),
        },
    };
    assert!(is_checkable(&ours("").challenge.parameters));
    assert_eq!(verify_payload(&conf(), ours(&p.solution.derived_key)).ok(), GOOD);
    assert_eq!(verify_payload(&conf(), ours("00")).ok(), BAD);
}

#[test]
fn only_a_good_outcome_is_a_yes() {
    assert!(verdict(&Ok(GOOD.unwrap())));
    assert!(!verdict(&Ok(BAD.unwrap())));
    assert!(!verdict(&Ok(EXPIRED.unwrap())));
    assert!(!verdict(&Err(VerifyError::NoValue)));
}

#[test]
fn custom_data_is_signed_too() {
    let mut data = std::collections::BTreeMap::new();
    data.insert("form".to_string(), serde_json::Value::from("login"));
    let mut p = solved(CreateChallengeOptions { data: Some(data), ..options() });
    assert_eq!(outcome(&conf(), &p), GOOD);
    p.challenge.parameters.data = None;
    assert_eq!(outcome(&conf(), &p), BAD);
}
