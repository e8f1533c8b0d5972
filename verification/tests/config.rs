use ngx_http_altcha_module::challenge::HmacAlgorithm;
use ngx_http_altcha_module::config::ModuleConfig;
use ngx_http_altcha_module::duration::Ttl;

fn full(tag: &str, n: u32) -> ModuleConfig {
    ModuleConfig {
        hmac_signature_secret: Some(format!("{tag}-secret")),
        hmac_key_signature_secret: Some(format!("{tag}-key-secret")),
        algorithm: Some(format!("{tag}-algorithm")),
        cost: Some(n),
        hmac_algorithm: Some(HmacAlgorithm::Sha384),
        key_length: Some(n as usize),
        key_prefix: Some(format!("{tag}-prefix")),
        expires: Some(Ttl::from_secs(n as u64)),
        verify_input: Some(n as usize),
    }
}

#[test]
fn defaults_are_in_force_where_nothing_is_set() {
    let conf = ModuleConfig::default();
    assert_eq!(conf.algorithm(), "PBKDF2/SHA-256");
    assert_eq!(conf.cost(), 100_000);
    assert_eq!(conf.hmac_algorithm(), HmacAlgorithm::Sha256);
    assert_eq!(conf.key_length(), 32);
    assert_eq!(conf.key_prefix(), "00");
    assert_eq!(conf.expires(), Ttl::from_secs(300));
    assert_eq!(conf.expires().as_secs(), 300);
    assert_eq!(conf.hmac_signature_secret, None);
    assert_eq!(conf.hmac_key_signature_secret, None);
    assert_eq!(conf.verify_input, None);
}

#[test]
fn settings_are_in_force_where_they_are_set() {
    let conf = full("own", 7);
    assert_eq!(conf.algorithm(), "own-algorithm");
    assert_eq!(conf.cost(), 7);
    assert_eq!(conf.hmac_algorithm(), HmacAlgorithm::Sha384);
    assert_eq!(conf.key_length(), 7);
    assert_eq!(conf.key_prefix(), "own-prefix");
    assert_eq!(conf.expires(), Ttl { secs: 7, nanos: 0 });
}

#[test]
fn an_unset_context_inherits_everything() {
    let mut inner = ModuleConfig::default();
    inner.merge(&full("outer", 9));
    assert_eq!(format!("{:?}", inner), format!("{:?}", full("outer", 9)));
}

#[test]
fn a_full_context_inherits_nothing() {
    let mut inner = full("inner", 3);
    inner.merge(&full("outer", 9));
    assert_eq!(format!("{:?}", inner), format!("{:?}", full("inner", 3)));
}

#[test]
fn each_setting_is_inherited_on_its_own() {
    let mut inner = ModuleConfig { cost: Some(5), key_prefix: Some("ab".to_string()), ..ModuleConfig::default() };
    let outer = ModuleConfig { cost: Some(6), key_length: Some(16), ..ModuleConfig::default() };
    inner.merge(&outer);
    assert_eq!(inner.cost, Some(5));
    assert_eq!(inner.key_prefix.as_deref(), Some("ab"));
    assert_eq!(inner.key_length, Some(16));
    assert_eq!(inner.expires, None);
    assert_eq!(inner.algorithm, None);
}

fn context(cost: Option<u32>, secret: Option<&str>, key_length: Option<usize>) -> ModuleConfig {
    ModuleConfig {
        cost,
        hmac_signature_secret: secret.map(|s| s.to_string()),
        key_length,
        ..ModuleConfig::default()
    }
}

#[test]
fn nesting_three_contexts_is_associative() {
    let location = || context(Some(1), None, None);
    let server = || context(Some(2), Some("server"), None);
    let http = || context(Some(3), Some("http"), Some(24));

    let mut outer = server();
    outer.merge(&http());
    let mut outer_first = location();
    outer_first.merge(&outer);

    let mut inner_first = location();
    inner_first.merge(&server());
    inner_first.merge(&http());

    assert_eq!(format!("{:?}", outer_first), format!("{:?}", inner_first));
    assert_eq!(outer_first.cost(), 1);
    assert_eq!(outer_first.hmac_signature_secret.as_deref(), Some("server"));
    assert_eq!(outer_first.key_length(), 24);
}

#[test]
fn an_unset_context_changes_nothing() {
    let mut conf = full("own", 4);
    conf.merge(&ModuleConfig::default());
    assert_eq!(format!("{:?}", conf), format!("{:?}", full("own", 4)));
}

#[test]
fn merging_twice_is_merging_once() {
    let outer = context(Some(3), Some("http"), Some(24));
    let mut once = context(None, None, Some(8));
    once.merge(&outer);
    let mut twice = context(None, None, Some(8));
    twice.merge(&outer);
    twice.merge(&outer);
    assert_eq!(format!("{:?}", once), format!("{:?}", twice));
}
