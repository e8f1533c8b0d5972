use ngx_http_altcha_module::challenge::HmacAlgorithm;
use ngx_http_altcha_module::config::ModuleConfig;
use ngx_http_altcha_module::directives::{
    arg_str, set_algorithm, set_cost, set_expires, set_hmac_algorithm, set_hmac_key_signature_secret,
    set_hmac_signature_secret, set_key_length, set_key_prefix, set_verify_input, store_expires,
    DirectiveError,
};
use ngx_http_altcha_module::duration::Ttl;

fn args(value: &[u8]) -> Vec<Vec<u8>> {
    vec![b"altcha_directive".to_vec(), value.to_vec()]
}

fn unset() -> String {
    format!("{:?}", ModuleConfig::default())
}

#[test]
fn the_argument_follows_the_name() {
    assert_eq!(arg_str(&args(b"value")), Some(&b"value".to_vec()));
    assert_eq!(arg_str(&[b"name".to_vec()]), None);
    assert_eq!(arg_str(&[]), None);
}

#[test]
fn every_directive_needs_its_argument() {
    let setters = [
        set_hmac_signature_secret,
        set_hmac_key_signature_secret,
        set_algorithm,
        set_cost,
        set_hmac_algorithm,
        set_key_length,
        set_key_prefix,
        set_expires,
    ];
    for set in setters {
        let mut conf = ModuleConfig::default();
        assert_eq!(set(&mut conf, &[b"altcha_directive".to_vec()]), Err(DirectiveError::MissingArgument));
        assert_eq!(format!("{:?}", conf), unset());
    }
}

#[test]
fn texts_are_stored_as_displayed() {
    let mut conf = ModuleConfig::default();
    assert_eq!(set_hmac_signature_secret(&mut conf, &args(b"s\xffcret")), Ok(()));
    assert_eq!(set_hmac_key_signature_secret(&mut conf, &args("cl\u{e9}".as_bytes())), Ok(()));
    assert_eq!(set_algorithm(&mut conf, &args(b"SHA-256")), Ok(()));
    assert_eq!(conf.hmac_signature_secret.as_deref(), Some("s\\xffcret"));
    assert_eq!(conf.hmac_key_signature_secret.as_deref(), Some("cl\u{e9}"));
    assert_eq!(conf.algorithm.as_deref(), Some("SHA-256"));
}

#[test]
fn cost_is_a_positive_number() {
    for (value, cost) in [(&b"1"[..], 1), (b"+5000", 5000), (b"4294967295", u32::MAX)] {
        let mut conf = ModuleConfig::default();
        assert_eq!(set_cost(&mut conf, &args(value)), Ok(()));
        assert_eq!(conf.cost, Some(cost));
    }
    for value in [&b"0"[..], b"", b"-1", b"4294967296", b"99999999999999999999", b"1.5", b"ten"] {
        let mut conf = ModuleConfig::default();
        assert_eq!(set_cost(&mut conf, &args(value)), Err(DirectiveError::CostNotPositive));
        assert_eq!(format!("{:?}", conf), unset());
    }
    let mut conf = ModuleConfig::default();
    assert_eq!(set_cost(&mut conf, &args(b"\xff1")), Err(DirectiveError::CostNotUtf8));
    assert_eq!(conf.cost, None);
}

#[test]
fn hmac_algorithm_is_one_of_three() {
    let known = [
        (&b"sha256"[..], HmacAlgorithm::Sha256),
        (b"SHA-256", HmacAlgorithm::Sha256),
        (b"Sha384", HmacAlgorithm::Sha384),
        (b"sha-384", HmacAlgorithm::Sha384),
        (b"SHA512", HmacAlgorithm::Sha512),
        (b"sHa-512", HmacAlgorithm::Sha512),
    ];
    for (value, algorithm) in known {
        let mut conf = ModuleConfig::default();
        assert_eq!(set_hmac_algorithm(&mut conf, &args(value)), Ok(()));
        assert_eq!(conf.hmac_algorithm, Some(algorithm));
    }
    for value in [&b""[..], b"sha1", b"sha 256", b"sha--256", b"\xffsha256", b"sha2560"] {
        let mut conf = ModuleConfig::default();
        assert_eq!(set_hmac_algorithm(&mut conf, &args(value)), Err(DirectiveError::UnknownHmacAlgorithm));
        assert_eq!(format!("{:?}", conf), unset());
    }
}

#[test]
fn key_length_is_at_most_64() {
    for (value, length) in [(&b"1"[..], 1), (b"32", 32), (b"+64", 64)] {
        let mut conf = ModuleConfig::default();
        assert_eq!(set_key_length(&mut conf, &args(value)), Ok(()));
        assert_eq!(conf.key_length, Some(length));
    }
    for value in [&b"0"[..], b"65", b"", b"-1", b"\xff", b"18446744073709551617", b"3 2"] {
        let mut conf = ModuleConfig::default();
        assert_eq!(set_key_length(&mut conf, &args(value)), Err(DirectiveError::KeyLengthOutOfRange));
        assert_eq!(format!("{:?}", conf), unset());
    }
}

#[test]
fn key_prefix_is_hex() {
    for value in ["0", "00", "aBcDeF09"] {
        let mut conf = ModuleConfig::default();
        assert_eq!(set_key_prefix(&mut conf, &args(value.as_bytes())), Ok(()));
        assert_eq!(conf.key_prefix.as_deref(), Some(value));
    }
    for value in [&b""[..], b"0x", b"g", b"00 ", b"\xff00"] {
        let mut conf = ModuleConfig::default();
        assert_eq!(set_key_prefix(&mut conf, &args(value)), Err(DirectiveError::KeyPrefixNotHex));
        assert_eq!(format!("{:?}", conf), unset());
    }
}

#[test]
fn expires_takes_counted_units() {
    let known = [
        (&b"300s"[..], 300),
        (b"5m", 300),
        (b"2h", 7_200),
        (b"1d", 86_400),
        (b"90", 90),
        (b"007s", 7),
        (b"213503d", 18_446_659_200),
    ];
    for (value, secs) in known {
        let mut conf = ModuleConfig::default();
        assert_eq!(set_expires(&mut conf, &args(value)), Ok(()), "{:?}", value);
        assert_eq!(conf.expires, Some(Ttl { secs, nanos: 0 }));
    }
    let mut conf = ModuleConfig::default();
    assert_eq!(set_expires(&mut conf, &args(b"1500ms")), Ok(()));
    assert_eq!(conf.expires, Some(Ttl { secs: 1, nanos: 500_000_000 }));
}

#[test]
fn expires_refuses_anything_else() {
    let refused = [
        &b""[..], b"0", b"0s", b"0m", b"0d", b"soon", b"-5m", b"\xff", b"213504d", b"18446744074",
        b"99999999999999999999s",
    ];
    for value in refused {
        let mut conf = ModuleConfig::default();
        assert_eq!(
            set_expires(&mut conf, &args(value)),
            Err(DirectiveError::ExpiresNotPositive),
            "{:?}",
            value
        );
        assert_eq!(format!("{:?}", conf), unset());
    }
}

#[test]
fn a_lifetime_that_was_read_is_stored_unless_zero() {
    let mut conf = ModuleConfig::default();
    assert_eq!(store_expires(&mut conf, Ok(Ttl { secs: 0, nanos: 1 })), Ok(()));
    assert_eq!(conf.expires, Some(Ttl { secs: 0, nanos: 1 }));
    assert_eq!(store_expires(&mut conf, Ok(Ttl::from_secs(0))), Err(DirectiveError::ExpiresNotPositive));
    assert_eq!(store_expires(&mut conf, Err("no".to_string())), Err(DirectiveError::ExpiresNotPositive));
    assert_eq!(conf.expires, Some(Ttl { secs: 0, nanos: 1 }));
    assert!(Ttl::from_secs(0).is_zero());
    assert!(!Ttl { secs: 0, nanos: 1 }.is_zero());
}

#[test]
fn verify_input_keeps_a_compiled_expression() {
    let mut conf = ModuleConfig::default();
    assert_eq!(set_verify_input(&mut conf, None), Err(DirectiveError::VerifyInputNotCompiled));
    assert_eq!(conf.verify_input, None);
    assert_eq!(set_verify_input(&mut conf, Some(0x1000)), Ok(()));
    assert_eq!(conf.verify_input, Some(0x1000));
}

#[test]
fn a_refused_directive_keeps_the_setting() {
    let mut conf = ModuleConfig::default();
    assert_eq!(set_cost(&mut conf, &args(b"10")), Ok(()));
    assert_eq!(set_cost(&mut conf, &args(b"0")), Err(DirectiveError::CostNotPositive));
    assert_eq!(conf.cost, Some(10));
    assert_eq!(set_cost(&mut conf, &args(b"20")), Ok(()));
    assert_eq!(conf.cost, Some(20));
}

#[test]
fn errors_have_messages() {
    assert_eq!(DirectiveError::MissingArgument.message(), None);
    assert_eq!(DirectiveError::VerifyInputNotCompiled.message(), None);
    assert_eq!(DirectiveError::CostNotUtf8.message(), Some("altcha_cost is not utf-8"));
    assert_eq!(
        DirectiveError::CostNotPositive.message(),
        Some("altcha_cost must be a positive integer")
    );
    assert_eq!(
        DirectiveError::UnknownHmacAlgorithm.message(),
        Some("altcha_hmac_algorithm must be one of sha256, sha384, sha512")
    );
    assert_eq!(
        DirectiveError::KeyLengthOutOfRange.message(),
        Some("altcha_key_length must be in 1..=64")
    );
    assert_eq!(DirectiveError::KeyPrefixNotHex.message(), Some("altcha_key_prefix must be hex"));
    assert_eq!(
        DirectiveError::ExpiresNotPositive.message(),
        Some("altcha_expires must be a positive duration like \"5m\" or \"300s\"")
    );
}
