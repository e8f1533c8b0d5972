use altcha::{solve_challenge, Payload, SolveChallengeOptions};
use base64::engine::general_purpose::{STANDARD, URL_SAFE, URL_SAFE_NO_PAD};
use base64::Engine;
use ngx_http_altcha_module::challenge::{challenge_options, HmacAlgorithm};
use ngx_http_altcha_module::config::ModuleConfig;
use ngx_http_altcha_module::duration::Ttl;
use ngx_http_altcha_module::variables::{
    bind_static_bool, bind_str, challenge_variable, input_to_evaluate, publish_answer,
    publish_challenge, verified_variable, write_challenge, AltchaCtx, Status, VariableValue,
};
use ngx_http_altcha_module::verify::{Verification, VerifyError};

const NOW: u64 = 4_000_000_000;

fn conf() -> ModuleConfig {
    ModuleConfig {
        hmac_signature_secret: Some("secret".to_string()),
        hmac_key_signature_secret: Some("key secret".to_string()),
        algorithm: Some("SHA-256".to_string()),
        cost: Some(3),
        verify_input: Some(0x1000),
        ..ModuleConfig::default()
    }
}

fn blank() -> VariableValue {
    VariableValue { valid: false, no_cacheable: true, not_found: false, len: 7, data: b"garbage".to_vec() }
}

fn is_blank(v: &VariableValue) -> bool {
    format!("{:?}", v) == format!("{:?}", blank())
}

fn is_bound(v: &VariableValue, data: &[u8]) -> bool {
    v.valid && !v.no_cacheable && !v.not_found && v.len as usize == data.len() && v.data == data
}

fn issue(conf: &ModuleConfig, now: u64) -> String {
    let mut ctx = AltchaCtx::default();
    let mut v = blank();
    assert_eq!(challenge_variable(Some(conf), now, &mut ctx, &mut v), Status::Done);
    let json = ctx.challenge_json.unwrap();
    assert!(is_bound(&v, json.as_bytes()));
    json
}

fn submit(json: &str) -> Vec<u8> {
    let challenge: altcha::Challenge = serde_json::from_str(json).unwrap();
    let solution = solve_challenge(SolveChallengeOptions::new(&challenge)).unwrap().unwrap();
    serde_json::to_vec(&Payload { challenge, solution }).unwrap()
}

fn answer(conf: Option<&ModuleConfig>, value: Option<&[u8]>) -> Vec<u8> {
    let mut ctx = AltchaCtx::default();
    let mut v = blank();
    let (status, refusal) = verified_variable(conf, value, &mut ctx, &mut v);
    assert_eq!(status, Status::Done);
    assert!(v.data == b"0" || refusal.is_none());
    assert_eq!(ctx.verified, Some(v.data == b"1"));
    let data = v.data.clone();
    assert!(is_bound(&v, &data));
    data
}

#[test]
fn a_challenge_carries_the_values_in_force() {
    let c: altcha::Challenge = serde_json::from_str(&issue(&conf(), NOW)).unwrap();
    let p = &c.parameters;
    assert_eq!(p.algorithm, "SHA-256");
    assert_eq!(p.cost, 3);
    assert_eq!(p.expires_at, Some(NOW + 300));
    assert_eq!(p.key_length, 32);
    assert_eq!(p.key_prefix, "00");
    assert_eq!(p.key_signature, None);
    assert_eq!(p.memory_cost, None);
    assert_eq!(p.parallelism, None);
    assert!(p.data.is_none());
    for random in [&p.nonce, &p.salt] {
        assert_eq!(random.len(), 32);
        assert!(random.chars().all(|c| c.is_ascii_digit() || ('a'..='f').contains(&c)));
    }
    assert_eq!(c.signature.unwrap().len(), 64);
}

#[test]
fn a_challenge_is_written_in_json() {
    let json = issue(&conf(), NOW);
    assert!(json.starts_with("{\"parameters\":{\"algorithm\":\"SHA-256\",\"cost\":3,\"expiresAt\":4000000300,\"keyLength\":32,\"keyPrefix\":\"00\",\"nonce\":\""));
    assert!(json.ends_with("\"}"));
}

#[test]
fn two_requests_get_two_challenges() {
    assert_ne!(issue(&conf(), NOW), issue(&conf(), NOW));
}

#[test]
fn options_carry_settings_and_defaults() {
    let o = challenge_options(&ModuleConfig::default(), 1000);
    assert_eq!(o.algorithm, "PBKDF2/SHA-256");
    assert_eq!(o.cost, 100_000);
    assert_eq!(o.hmac_algorithm, HmacAlgorithm::Sha256);
    assert_eq!(o.hmac_signature_secret, None);
    assert_eq!(o.hmac_key_signature_secret, None);
    assert_eq!(o.key_length, 32);
    assert_eq!(o.key_prefix, "00");
    assert_eq!(o.expires_at, Some(1300));

    let conf = ModuleConfig {
        hmac_algorithm: Some(HmacAlgorithm::Sha512),
        key_length: Some(16),
        key_prefix: Some("abc".to_string()),
        expires: Some(Ttl { secs: 60, nanos: 999_999_999 }),
        ..conf()
    };
    let o = challenge_options(&conf, 1000);
    assert_eq!(o.algorithm, "SHA-256");
    assert_eq!(o.cost, 3);
    assert_eq!(o.hmac_algorithm, HmacAlgorithm::Sha512);
    assert_eq!(o.hmac_signature_secret.as_deref(), Some("secret"));
    assert_eq!(o.hmac_key_signature_secret.as_deref(), Some("key secret"));
    assert_eq!(o.key_length, 16);
    assert_eq!(o.key_prefix, "abc");
    assert_eq!(o.expires_at, Some(1060));
}

#[test]
fn the_challenge_is_the_same_for_the_whole_request() {
    let mut ctx = AltchaCtx::default();
    let mut first = blank();
    assert_eq!(challenge_variable(Some(&conf()), NOW, &mut ctx, &mut first), Status::Done);
    let json = ctx.challenge_json.clone();
    let other = ModuleConfig { cost: Some(9), ..ModuleConfig::default() };
    for later in [Some(&conf()), Some(&other), None] {
        let mut second = blank();
        assert_eq!(challenge_variable(later, NOW + 1, &mut ctx, &mut second), Status::Done);
        assert_eq!(format!("{:?}", second), format!("{:?}", first));
        assert_eq!(ctx.challenge_json, json);
    }
    assert_eq!(ctx.verified, None);
}

#[test]
fn without_a_configuration_there_is_an_error() {
    let mut ctx = AltchaCtx::default();
    let mut v = blank();
    assert_eq!(challenge_variable(None, NOW, &mut ctx, &mut v), Status::Failed);
    assert!(is_blank(&v));
    assert_eq!(ctx.challenge_json, None);
}

#[test]
fn without_a_secret_there_is_no_challenge() {
    let mut ctx = AltchaCtx::default();
    let mut v = blank();
    let conf = ModuleConfig { hmac_signature_secret: None, ..conf() };
    assert_eq!(challenge_variable(Some(&conf), u64::MAX, &mut ctx, &mut v), Status::Done);
    assert!(v.not_found);
    v.not_found = false;
    assert!(is_blank(&v));
    assert_eq!(ctx.challenge_json, None);
}

#[test]
fn a_failed_challenge_is_not_published() {
    let failed = Err(altcha::Error::UnsupportedAlgorithm("ROT13".to_string()));
    assert_eq!(write_challenge(failed), None);
    let mut ctx = AltchaCtx { challenge_json: None, verified: Some(true) };
    let mut v = blank();
    assert_eq!(publish_challenge(&mut ctx, &mut v, None), Status::Failed);
    assert!(is_blank(&v));
    assert_eq!(ctx.challenge_json, None);
    assert_eq!(ctx.verified, Some(true));
}

#[test]
fn a_written_challenge_is_published_and_remembered() {
    let mut ctx = AltchaCtx { challenge_json: None, verified: Some(false) };
    let mut v = blank();
    assert_eq!(publish_challenge(&mut ctx, &mut v, Some("{}".to_string())), Status::Done);
    assert!(is_bound(&v, b"{}"));
    assert_eq!(ctx.challenge_json.as_deref(), Some("{}"));
    assert_eq!(ctx.verified, Some(false));
}

#[test]
fn a_solved_challenge_reads_one() {
    let payload = submit(&issue(&conf(), NOW));
    assert_eq!(answer(Some(&conf()), Some(STANDARD.encode(&payload).as_bytes())), b"1");
    assert_eq!(answer(Some(&conf()), Some(URL_SAFE_NO_PAD.encode(&payload).as_bytes())), b"1");
    assert_eq!(answer(Some(&conf()), Some(URL_SAFE.encode(&payload).as_bytes())), b"1");
}

#[test]
fn a_challenge_past_its_lifetime_reads_zero() {
    let payload = submit(&issue(&conf(), 1_000_000));
    assert_eq!(answer(Some(&conf()), Some(STANDARD.encode(&payload).as_bytes())), b"0");
}

#[test]
fn anything_else_reads_zero() {
    let payload = submit(&issue(&conf(), NOW));
    let value = STANDARD.encode(&payload);
    assert_eq!(answer(None, Some(value.as_bytes())), b"0");
    assert_eq!(answer(Some(&ModuleConfig::default()), Some(value.as_bytes())), b"0");
    assert_eq!(answer(Some(&conf()), Some(&payload)), b"0");
    assert_eq!(answer(Some(&conf()), Some(b"")), b"0");
    assert_eq!(answer(Some(&conf()), None), b"0");
    let foreign = ModuleConfig { hmac_signature_secret: Some("other".to_string()), ..conf() };
    assert_eq!(answer(Some(&foreign), Some(value.as_bytes())), b"0");
}

#[test]
fn the_answer_is_the_same_for_the_whole_request() {
    let value = STANDARD.encode(submit(&issue(&conf(), NOW)));
    let mut ctx = AltchaCtx::default();
    let mut v = blank();
    let (status, refusal) = verified_variable(Some(&conf()), Some(value.as_bytes()), &mut ctx, &mut v);
    assert_eq!(status, Status::Done);
    assert!(refusal.is_none());
    assert!(is_bound(&v, b"1"));
    let mut later = blank();
    let (status, refusal) = verified_variable(None, None, &mut ctx, &mut later);
    assert_eq!(status, Status::Done);
    assert!(refusal.is_none());
    assert!(is_bound(&later, b"1"));

    let mut refused = AltchaCtx::default();
    let (status, refusal) = verified_variable(Some(&conf()), None, &mut refused, &mut v);
    assert_eq!(status, Status::Done);
    assert!(matches!(refusal, Some(VerifyError::NoValue)));
    assert!(is_bound(&v, b"0"));
    let (status, refusal) =
        verified_variable(Some(&conf()), Some(value.as_bytes()), &mut refused, &mut v);
    assert_eq!(status, Status::Done);
    assert!(refusal.is_none());
    assert!(is_bound(&v, b"0"));
}

#[test]
fn the_two_variables_share_a_context() {
    let mut ctx = AltchaCtx::default();
    let mut v = blank();
    assert_eq!(challenge_variable(Some(&conf()), NOW, &mut ctx, &mut v), Status::Done);
    let json = ctx.challenge_json.clone().unwrap();
    assert_eq!(ctx.verified, None);
    let value = STANDARD.encode(submit(&json));
    verified_variable(Some(&conf()), Some(value.as_bytes()), &mut ctx, &mut v);
    assert_eq!(ctx.verified, Some(true));
    assert_eq!(ctx.challenge_json, Some(json));
}

#[test]
fn the_input_is_evaluated_only_where_it_matters() {
    let fresh = AltchaCtx::default();
    assert_eq!(input_to_evaluate(Some(&conf()), &fresh), Some(0x1000));
    assert_eq!(input_to_evaluate(None, &fresh), None);
    let incomplete = [
        ModuleConfig { hmac_signature_secret: None, ..conf() },
        ModuleConfig { hmac_key_signature_secret: None, ..conf() },
        ModuleConfig { verify_input: None, ..conf() },
    ];
    for conf in &incomplete {
        assert_eq!(input_to_evaluate(Some(conf), &fresh), None);
    }
    let answered = AltchaCtx { challenge_json: None, verified: Some(false) };
    assert_eq!(input_to_evaluate(Some(&conf()), &answered), None);
}

#[test]
fn texts_are_bound_by_their_bytes() {
    let mut v = blank();
    bind_str(&mut v, "\u{20ac}1");
    assert!(is_bound(&v, b"\xe2\x82\xac1"));
    bind_str(&mut v, "");
    assert!(is_bound(&v, b""));
    bind_static_bool(&mut v, true);
    assert!(is_bound(&v, b"1"));
    bind_static_bool(&mut v, false);
    assert!(is_bound(&v, b"0"));
}

#[test]
fn an_outcome_is_published_and_remembered() {
    let outcomes = [
        (Verification { expired: false, verified: true }, true),
        (Verification { expired: false, verified: false }, false),
        (Verification { expired: true, verified: false }, false),
    ];
    for (outcome, answer) in outcomes {
        let mut ctx = AltchaCtx { challenge_json: Some("{}".to_string()), verified: None };
        let mut v = blank();
        let (status, refusal) = publish_answer(&mut ctx, &mut v, Ok(outcome));
        assert_eq!(status, Status::Done);
        assert!(refusal.is_none());
        assert_eq!(ctx.verified, Some(answer));
        assert_eq!(ctx.challenge_json.as_deref(), Some("{}"));
        assert!(is_bound(&v, if answer { b"1" } else { b"0" }));
    }
}

#[test]
fn a_failed_check_is_published_with_its_reason() {
    let failed = VerifyError::NotChecked(altcha::Error::UnsupportedAlgorithm("ROT13".to_string()));
    let mut ctx = AltchaCtx::default();
    let mut v = blank();
    let (status, refusal) = publish_answer(&mut ctx, &mut v, Err(failed));
    assert_eq!(status, Status::Done);
    assert!(matches!(refusal, Some(VerifyError::NotChecked(_))));
    assert_eq!(ctx.verified, Some(false));
    assert!(is_bound(&v, b"0"));

    let other = ModuleConfig { algorithm: Some("ROT13".to_string()), ..conf() };
    let challenge: altcha::Challenge = serde_json::from_str(&issue(&other, NOW)).unwrap();
    let solution = altcha::Solution { counter: 0, derived_key: "00".to_string(), time: None };
    let value = STANDARD.encode(serde_json::to_vec(&Payload { challenge, solution }).unwrap());
    let mut ctx = AltchaCtx::default();
    let (_, refusal) = verified_variable(Some(&other), Some(value.as_bytes()), &mut ctx, &mut v);
    assert!(matches!(refusal, Some(VerifyError::NotChecked(_))));
    assert_eq!(ctx.verified, Some(false));
}
