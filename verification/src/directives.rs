//! The configuration directives.
//!
//! NGINX hands a directive over as its name and arguments, each a byte string,
//! the name first. Every directive here takes one argument. One that is
//! refused changes nothing.
use crate::challenge::HmacAlgorithm;
use crate::config::{ConfigView, ModuleConfig};
use crate::duration::{parse_duration, parsed_duration, plain_seconds, Ttl};
use crate::text::{
    ascii_lowercase, decimal_text_is_read_back, display_bytes, displayed,
    hex_is_made_of_hex_digits, is_hex, is_hex_text, is_word, lowercase_is_the_same_but_for_case,
    parse_unsigned, same_but_for_case, stray_byte_is_displayed_in_hex,
    text_is_displayed_in_front, unsigned_value, utf8_decoded, utf8_is_read_back, utf8_text,
};
use crate::verify::decimal_text;
use vstd::prelude::*;
use vstd::utf8::encode_utf8;

verus! {

/// Why a directive is refused.
#[derive(Clone, Copy, Debug, PartialEq, Eq, Structural)]
pub enum DirectiveError {
    /// There is no argument.
    MissingArgument,
    /// The cost is not UTF-8.
    CostNotUtf8,
    /// The cost is not a positive number of 32 bits.
    CostNotPositive,
    /// The HMAC digest is none of the known ones.
    UnknownHmacAlgorithm,
    /// The key length is not a number from one to sixty-four.
    KeyLengthOutOfRange,
    /// The key prefix is not hex.
    KeyPrefixNotHex,
    /// The lifetime is not a duration, or is zero.
    ExpiresNotPositive,
    /// The input expression could not be compiled.
    VerifyInputNotCompiled,
}

impl DirectiveError {
    /// What to log for the error, where there is anything to log.
    pub open spec fn log_line(self) -> Option<Seq<char>> {
        match self {
            DirectiveError::MissingArgument => None,
            DirectiveError::CostNotUtf8 => Some("altcha_cost is not utf-8"@),
            DirectiveError::CostNotPositive => Some("altcha_cost must be a positive integer"@),
            DirectiveError::UnknownHmacAlgorithm => Some(
                "altcha_hmac_algorithm must be one of sha256, sha384, sha512"@,
            ),
            DirectiveError::KeyLengthOutOfRange => Some("altcha_key_length must be in 1..=64"@),
            DirectiveError::KeyPrefixNotHex => Some("altcha_key_prefix must be hex"@),
            DirectiveError::ExpiresNotPositive => Some(
                "altcha_expires must be a positive duration like \"5m\" or \"300s\""@,
            ),
            DirectiveError::VerifyInputNotCompiled => None,
        }
    }

    /// What to log for the error, where there is anything to log.
    pub fn message(&self) -> (r: Option<&'static str>)
        ensures
            r is Some <==> self.log_line() is Some,
            r matches Some(m) ==> self.log_line() == Some(m@),
    {
        match self {
            DirectiveError::MissingArgument => None,
            DirectiveError::CostNotUtf8 => Some("altcha_cost is not utf-8"),
            DirectiveError::CostNotPositive => Some("altcha_cost must be a positive integer"),
            DirectiveError::UnknownHmacAlgorithm => Some(
                "altcha_hmac_algorithm must be one of sha256, sha384, sha512",
            ),
            DirectiveError::KeyLengthOutOfRange => Some("altcha_key_length must be in 1..=64"),
            DirectiveError::KeyPrefixNotHex => Some("altcha_key_prefix must be hex"),
            DirectiveError::ExpiresNotPositive => Some(
                "altcha_expires must be a positive duration like \"5m\" or \"300s\"",
            ),
            DirectiveError::VerifyInputNotCompiled => None,
        }
    }
}

/// The argument of a directive: what follows its name.
pub open spec fn argument(args: Seq<Vec<u8>>) -> Option<Seq<u8>> {
    if args.len() > 1 {
        Some(args[1]@)
    } else {
        None
    }
}

/// The text of an argument; none at all, if it is not UTF-8.
pub open spec fn text_or_empty(arg: Seq<u8>) -> Seq<char> {
    match utf8_decoded(arg) {
        Some(t) => t,
        None => seq![],
    }
}

/// What a directive that takes any text makes of its argument.
pub open spec fn text_setting(arg: Option<Seq<u8>>) -> Result<Seq<char>, DirectiveError> {
    match arg {
        Some(a) => Ok(displayed(a)),
        None => Err(DirectiveError::MissingArgument),
    }
}

/// What `altcha_cost` makes of its argument: a positive number of 32 bits.
pub open spec fn cost_setting(arg: Option<Seq<u8>>) -> Result<u32, DirectiveError> {
    match arg {
        Some(a) => match utf8_decoded(a) {
            Some(t) => match unsigned_value(t) {
                Some(n) if 0 < n <= u32::MAX => Ok(n as u32),
                _ => Err(DirectiveError::CostNotPositive),
            },
            None => Err(DirectiveError::CostNotUtf8),
        },
        None => Err(DirectiveError::MissingArgument),
    }
}

/// What `altcha_hmac_algorithm` makes of its argument: one of the digests,
/// written with or without a hyphen, in either case.
pub open spec fn hmac_algorithm_setting(arg: Option<Seq<u8>>) -> Result<
    HmacAlgorithm,
    DirectiveError,
> {
    match arg {
        Some(a) => {
            let word = ascii_lowercase(text_or_empty(a));
            if word == "sha256"@ || word == "sha-256"@ {
                Ok(HmacAlgorithm::Sha256)
            } else if word == "sha384"@ || word == "sha-384"@ {
                Ok(HmacAlgorithm::Sha384)
            } else if word == "sha512"@ || word == "sha-512"@ {
                Ok(HmacAlgorithm::Sha512)
            } else {
                Err(DirectiveError::UnknownHmacAlgorithm)
            }
        },
        None => Err(DirectiveError::MissingArgument),
    }
}

/// What `altcha_key_length` makes of its argument: a number from one to
/// sixty-four.
pub open spec fn key_length_setting(arg: Option<Seq<u8>>) -> Result<usize, DirectiveError> {
    match arg {
        Some(a) => match unsigned_value(text_or_empty(a)) {
            Some(n) if 1 <= n <= 64 => Ok(n as usize),
            _ => Err(DirectiveError::KeyLengthOutOfRange),
        },
        None => Err(DirectiveError::MissingArgument),
    }
}

/// What `altcha_key_prefix` makes of its argument: a hex text.
pub open spec fn key_prefix_setting(arg: Option<Seq<u8>>) -> Result<Seq<char>, DirectiveError> {
    match arg {
        Some(a) => if is_hex(text_or_empty(a)) {
            Ok(text_or_empty(a))
        } else {
            Err(DirectiveError::KeyPrefixNotHex)
        },
        None => Err(DirectiveError::MissingArgument),
    }
}

/// What `altcha_expires` makes of its argument: a duration that is not zero.
pub open spec fn expires_setting(arg: Option<Seq<u8>>) -> Result<Ttl, DirectiveError> {
    match arg {
        Some(a) => match parsed_duration(text_or_empty(a)) {
            Some((secs, nanos)) if secs != 0 || nanos != 0 => Ok(Ttl { secs, nanos }),
            _ => Err(DirectiveError::ExpiresNotPositive),
        },
        None => Err(DirectiveError::MissingArgument),
    }
}

/// The answer to a directive: its error, if it has one.
pub open spec fn answer<T>(setting: Result<T, DirectiveError>) -> Result<(), DirectiveError> {
    match setting {
        Ok(_) => Ok(()),
        Err(e) => Err(e),
    }
}

/// The argument of a directive: what follows its name.
pub fn arg_str(args: &[Vec<u8>]) -> (r: Option<&Vec<u8>>)
    ensures
        r is Some <==> args@.len() > 1,
        r matches Some(a) ==> *a == args@[1],
{
    if args.len() > 1 {
        Some(&args[1])
    } else {
        None
    }
}

/// The text of an argument; none at all, if it is not UTF-8.
fn arg_text(arg: &Vec<u8>) -> (r: &str)
    ensures
        r@ == text_or_empty(arg@),
{
    match utf8_text(arg.as_slice()) {
        Some(t) => t,
        None => {
            proof {
                reveal_strlit("");
            }
            assert(""@ =~= Seq::<char>::empty());
            ""
        },
    }
}

/// `altcha_hmac_signature_secret`: the secret that signs challenges.
pub fn set_hmac_signature_secret(conf: &mut ModuleConfig, args: &[Vec<u8>]) -> (r: Result<
    (),
    DirectiveError,
>)
    ensures
        r == answer(text_setting(argument(args@))),
        final(conf)@ == (match text_setting(argument(args@)) {
            Ok(s) => (ConfigView { hmac_signature_secret: Some(s), ..old(conf)@ }),
            Err(_) => old(conf)@,
        }),
        old(conf)@.valid() ==> final(conf)@.valid(),
{
    let arg = match arg_str(args) {
        Some(a) => a,
        None => return Err(DirectiveError::MissingArgument),
    };
    conf.hmac_signature_secret = Some(display_bytes(arg.as_slice()));
    Ok(())
}

/// `altcha_hmac_key_signature_secret`: the secret that signs derived keys.
pub fn set_hmac_key_signature_secret(conf: &mut ModuleConfig, args: &[Vec<u8>]) -> (r: Result<
    (),
    DirectiveError,
>)
    ensures
        r == answer(text_setting(argument(args@))),
        final(conf)@ == (match text_setting(argument(args@)) {
            Ok(s) => (ConfigView { hmac_key_signature_secret: Some(s), ..old(conf)@ }),
            Err(_) => old(conf)@,
        }),
        old(conf)@.valid() ==> final(conf)@.valid(),
{
    let arg = match arg_str(args) {
        Some(a) => a,
        None => return Err(DirectiveError::MissingArgument),
    };
    conf.hmac_key_signature_secret = Some(display_bytes(arg.as_slice()));
    Ok(())
}

/// `altcha_algorithm`: the key derivation algorithm, by name.
pub fn set_algorithm(conf: &mut ModuleConfig, args: &[Vec<u8>]) -> (r: Result<(), DirectiveError>)
    ensures
        r == answer(text_setting(argument(args@))),
        final(conf)@ == (match text_setting(argument(args@)) {
            Ok(s) => (ConfigView { algorithm: Some(s), ..old(conf)@ }),
            Err(_) => old(conf)@,
        }),
        old(conf)@.valid() ==> final(conf)@.valid(),
{
    let arg = match arg_str(args) {
        Some(a) => a,
        None => return Err(DirectiveError::MissingArgument),
    };
    conf.algorithm = Some(display_bytes(arg.as_slice()));
    Ok(())
}

/// `altcha_cost`: the cost of deriving one key, a positive number.
pub fn set_cost(conf: &mut ModuleConfig, args: &[Vec<u8>]) -> (r: Result<(), DirectiveError>)
    ensures
        r == answer(cost_setting(argument(args@))),
        final(conf)@ == (match cost_setting(argument(args@)) {
            Ok(n) => (ConfigView { cost: Some(n), ..old(conf)@ }),
            Err(_) => old(conf)@,
        }),
        old(conf)@.valid() ==> final(conf)@.valid(),
{
    let arg = match arg_str(args) {
        Some(a) => a,
        None => return Err(DirectiveError::MissingArgument),
    };
    let s = match utf8_text(arg.as_slice()) {
        Some(s) => s,
        None => return Err(DirectiveError::CostNotUtf8),
    };
    match parse_unsigned(s) {
        Some(n) => {
            if n == 0 || n > u32::MAX as u64 {
                return Err(DirectiveError::CostNotPositive);
            }
            conf.cost = Some(n as u32);
            Ok(())
        },
        None => Err(DirectiveError::CostNotPositive),
    }
}

/// `altcha_hmac_algorithm`: the digest of the signing HMAC, `sha256`, `sha384`
/// or `sha512`.
pub fn set_hmac_algorithm(conf: &mut ModuleConfig, args: &[Vec<u8>]) -> (r: Result<
    (),
    DirectiveError,
>)
    ensures
        r == answer(hmac_algorithm_setting(argument(args@))),
        final(conf)@ == (match hmac_algorithm_setting(argument(args@)) {
            Ok(a) => (ConfigView { hmac_algorithm: Some(a), ..old(conf)@ }),
            Err(_) => old(conf)@,
        }),
        old(conf)@.valid() ==> final(conf)@.valid(),
{
    let arg = match arg_str(args) {
        Some(a) => a,
        None => return Err(DirectiveError::MissingArgument),
    };
    let s = arg_text(arg);
    proof {
        reveal_strlit("sha256");
        reveal_strlit("sha-256");
        reveal_strlit("sha384");
        reveal_strlit("sha-384");
        reveal_strlit("sha512");
        reveal_strlit("sha-512");
    }
    let algo = if is_word(s, "sha256") || is_word(s, "sha-256") {
        HmacAlgorithm::Sha256
    } else if is_word(s, "sha384") || is_word(s, "sha-384") {
        HmacAlgorithm::Sha384
    } else if is_word(s, "sha512") || is_word(s, "sha-512") {
        HmacAlgorithm::Sha512
    } else {
        return Err(DirectiveError::UnknownHmacAlgorithm);
    };
    conf.hmac_algorithm = Some(algo);
    Ok(())
}

/// `altcha_key_length`: the length of the derived key, from one byte to
/// sixty-four.
pub fn set_key_length(conf: &mut ModuleConfig, args: &[Vec<u8>]) -> (r: Result<(), DirectiveError>)
    ensures
        r == answer(key_length_setting(argument(args@))),
        final(conf)@ == (match key_length_setting(argument(args@)) {
            Ok(n) => (ConfigView { key_length: Some(n), ..old(conf)@ }),
            Err(_) => old(conf)@,
        }),
        old(conf)@.valid() ==> final(conf)@.valid(),
{
    let arg = match arg_str(args) {
        Some(a) => a,
        None => return Err(DirectiveError::MissingArgument),
    };
    match parse_unsigned(arg_text(arg)) {
        Some(n) => {
            if n == 0 || n > 64 {
                return Err(DirectiveError::KeyLengthOutOfRange);
            }
            conf.key_length = Some(n as usize);
            Ok(())
        },
        None => Err(DirectiveError::KeyLengthOutOfRange),
    }
}

/// `altcha_key_prefix`: the hex prefix that a derived key must have.
pub fn set_key_prefix(conf: &mut ModuleConfig, args: &[Vec<u8>]) -> (r: Result<(), DirectiveError>)
    ensures
        r == answer(key_prefix_setting(argument(args@))),
        final(conf)@ == (match key_prefix_setting(argument(args@)) {
            Ok(s) => (ConfigView { key_prefix: Some(s), ..old(conf)@ }),
            Err(_) => old(conf)@,
        }),
        old(conf)@.valid() ==> final(conf)@.valid(),
{
    let arg = match arg_str(args) {
        Some(a) => a,
        None => return Err(DirectiveError::MissingArgument),
    };
    let s = arg_text(arg);
    if !is_hex_text(s) {
        return Err(DirectiveError::KeyPrefixNotHex);
    }
    conf.key_prefix = Some(s.to_owned());
    Ok(())
}

/// Stores a lifetime that was read, unless it is zero; refuses one that could
/// not be read.
pub fn store_expires(conf: &mut ModuleConfig, parsed: Result<Ttl, String>) -> (r: Result<
    (),
    DirectiveError,
>)
    ensures
        match parsed {
            Ok(t) if t.secs != 0 || t.nanos != 0 => {
                &&& r == Ok::<(), DirectiveError>(())
                &&& final(conf)@ == (ConfigView { expires: Some(t), ..old(conf)@ })
            },
            _ => {
                &&& r == Err::<(), DirectiveError>(DirectiveError::ExpiresNotPositive)
                &&& final(conf)@ == old(conf)@
            },
        },
        old(conf)@.valid() ==> final(conf)@.valid(),
{
    match parsed {
        Ok(t) => {
            if t.is_zero() {
                return Err(DirectiveError::ExpiresNotPositive);
            }
            conf.expires = Some(t);
            Ok(())
        },
        Err(_) => Err(DirectiveError::ExpiresNotPositive),
    }
}

/// `altcha_expires`: the lifetime of a challenge, a duration that is not zero.
///
/// Digits with `s`, `m`, `h` or `d` behind them, or with nothing, are taken as
/// that many seconds, minutes, hours, days or seconds. Such a lifetime is
/// refused only if it is zero or if its nanoseconds outgrow 64 bits.
pub fn set_expires(conf: &mut ModuleConfig, args: &[Vec<u8>]) -> (r: Result<(), DirectiveError>)
    ensures
        r == answer(expires_setting(argument(args@))),
        final(conf)@ == (match expires_setting(argument(args@)) {
            Ok(t) => (ConfigView { expires: Some(t), ..old(conf)@ }),
            Err(_) => old(conf)@,
        }),
        argument(args@) matches Some(a) ==> (plain_seconds(text_or_empty(a)) matches Some(n) ==> (
        if 0 < n && n * 1_000_000_000 <= u64::MAX {
            &&& r == Ok::<(), DirectiveError>(())
            &&& final(conf)@.expires == Some(Ttl { secs: n as u64, nanos: 0 })
        } else {
            r == Err::<(), DirectiveError>(DirectiveError::ExpiresNotPositive)
        })),
        old(conf)@.valid() ==> final(conf)@.valid(),
{
    let arg = match arg_str(args) {
        Some(a) => a,
        None => return Err(DirectiveError::MissingArgument),
    };
    store_expires(conf, parse_duration(arg_text(arg)))
}

/// `altcha_verify_input`: the expression that yields a submitted payload. Takes
/// the handle of the compiled expression, or `None` if it did not compile.
pub fn set_verify_input(conf: &mut ModuleConfig, compiled: Option<usize>) -> (r: Result<
    (),
    DirectiveError,
>)
    ensures
        compiled matches Some(h) ==> {
            &&& r == Ok::<(), DirectiveError>(())
            &&& final(conf)@ == (ConfigView { verify_input: Some(h), ..old(conf)@ })
        },
        compiled is None ==> {
            &&& r == Err::<(), DirectiveError>(DirectiveError::VerifyInputNotCompiled)
            &&& final(conf)@ == old(conf)@
        },
        old(conf)@.valid() ==> final(conf)@.valid(),
{
    match compiled {
        Some(handle) => {
            conf.verify_input = Some(handle);
            Ok(())
        },
        None => Err(DirectiveError::VerifyInputNotCompiled),
    }
}

/// The argument of a directive is what stands behind its name; without that,
/// every directive is refused as having none.
pub proof fn argument_stands_behind_the_name(args: Seq<Vec<u8>>)
    ensures
        args.len() >= 2 ==> argument(args) == Some(args[1]@),
        args.len() < 2 ==> {
            let e = DirectiveError::MissingArgument;
            &&& argument(args) is None
            &&& text_setting(argument(args)) == Err::<Seq<char>, _>(e)
            &&& cost_setting(argument(args)) == Err::<u32, _>(e)
            &&& hmac_algorithm_setting(argument(args)) == Err::<HmacAlgorithm, _>(e)
            &&& key_length_setting(argument(args)) == Err::<usize, _>(e)
            &&& key_prefix_setting(argument(args)) == Err::<Seq<char>, _>(e)
            &&& expires_setting(argument(args)) == Err::<Ttl, _>(e)
        },
{
}

/// A directive is accepted where its argument gives a setting, and otherwise
/// refused with the error that the argument gives.
pub proof fn directive_is_answered_by_its_setting<T>(setting: Result<T, DirectiveError>)
    ensures
        setting is Ok <==> answer(setting) is Ok,
        setting matches Err(e) ==> answer(setting) == Err::<(), DirectiveError>(e),
{
}

/// Any text is accepted as a secret or an algorithm, and is stored as it was
/// written.
pub proof fn any_text_is_stored_as_written(text: Seq<char>)
    ensures
        text_setting(Some(encode_utf8(text))) == Ok::<Seq<char>, DirectiveError>(text),
{
    let rest = Seq::<u8>::empty();
    text_is_displayed_in_front(text, rest);
    assert(encode_utf8(text) + rest =~= encode_utf8(text));
    assert(text + displayed(rest) =~= text);
}

/// Bytes that are no text are accepted too, each written out in hex in the place
/// where it stands.
pub proof fn stray_bytes_are_stored_in_hex(text: Seq<char>, rest: Seq<u8>)
    requires
        rest.len() > 0,
        !vstd::utf8::valid_first_scalar(rest),
    ensures
        text_setting(Some(encode_utf8(text) + rest)) == Ok::<Seq<char>, DirectiveError>(
            text + ("\\x"@ + seq![
                "0123456789abcdef"@[rest[0] as int / 16],
                "0123456789abcdef"@[rest[0] as int % 16],
            ] + displayed(rest.skip(1))),
        ),
{
    text_is_displayed_in_front(text, rest);
    stray_byte_is_displayed_in_hex(rest);
}

/// The text of an argument is the one that it is the UTF-8 of.
proof fn lemma_text(arg: Seq<u8>, text: Seq<char>)
    ensures
        arg == encode_utf8(text) ==> utf8_decoded(arg) == Some(text) && text_or_empty(arg) == text,
        utf8_decoded(arg) is Some ==> arg == encode_utf8(text_or_empty(arg)),
{
    utf8_is_read_back(arg, text);
    if utf8_decoded(arg) is Some {
        utf8_is_read_back(arg, text_or_empty(arg));
    }
}

/// Every positive number of 32 bits is accepted as a cost, and nothing else: an
/// argument stores `n` exactly where it is a text that denotes `n`. Of the others,
/// those that are no text are refused as such.
pub proof fn cost_is_any_positive_number(arg: Seq<u8>, n: u32)
    ensures
        cost_setting(Some(arg)) == Ok::<u32, DirectiveError>(n) <==> n > 0 && exists|
            text: Seq<char>,
        |
            arg == #[trigger] encode_utf8(text) && unsigned_value(text) == Some(n as nat),
        cost_setting(Some(arg)) matches Err(e) ==> e == if exists|text: Seq<char>|
            arg == #[trigger] encode_utf8(text) {
            DirectiveError::CostNotPositive
        } else {
            DirectiveError::CostNotUtf8
        },
        n > 0 ==> cost_setting(Some(encode_utf8(decimal_text(n as nat)))) == Ok::<
            u32,
            DirectiveError,
        >(n),
{
    let t = text_or_empty(arg);
    lemma_text(arg, t);
    assert forall|text: Seq<char>| arg == #[trigger] encode_utf8(text) implies text == t
        && utf8_decoded(arg) == Some(t) by {
        lemma_text(arg, text);
    }
    if utf8_decoded(arg) is Some {
        assert(arg == encode_utf8(t));
    }
    decimal_text_is_read_back(n as nat);
    lemma_text(encode_utf8(decimal_text(n as nat)), decimal_text(n as nat));
}

/// Every number from one to sixty-four is accepted as a key length, and nothing
/// else: an argument stores `n` exactly where it is a text that denotes `n`.
pub proof fn key_length_is_any_number_up_to_64(arg: Seq<u8>, n: usize)
    ensures
        key_length_setting(Some(arg)) == Ok::<usize, DirectiveError>(n) <==> 1 <= n <= 64 && exists|
            text: Seq<char>,
        |
            arg == #[trigger] encode_utf8(text) && unsigned_value(text) == Some(n as nat),
        key_length_setting(Some(arg)) matches Err(e) ==> e == DirectiveError::KeyLengthOutOfRange,
        1 <= n <= 64 ==> key_length_setting(Some(encode_utf8(decimal_text(n as nat)))) == Ok::<
            usize,
            DirectiveError,
        >(n),
{
    let t = text_or_empty(arg);
    lemma_text(arg, t);
    assert forall|text: Seq<char>| arg == #[trigger] encode_utf8(text) implies text == t by {
        lemma_text(arg, text);
    }
    if utf8_decoded(arg) is Some {
        assert(arg == encode_utf8(t));
    }
    decimal_text_is_read_back(n as nat);
    lemma_text(encode_utf8(decimal_text(n as nat)), decimal_text(n as nat));
}

/// A digest is accepted by its name, with a hyphen or without and in any case,
/// and nothing else is.
pub proof fn hmac_algorithm_is_one_of_the_named(text: Seq<char>)
    ensures
        ({
            let r = hmac_algorithm_setting(Some(encode_utf8(text)));
            let named = |plain: Seq<char>, hyphened: Seq<char>|
                same_but_for_case(text, plain) || same_but_for_case(text, hyphened);
            &&& named("sha256"@, "sha-256"@) <==> r == Ok::<HmacAlgorithm, DirectiveError>(
                HmacAlgorithm::Sha256,
            )
            &&& named("sha384"@, "sha-384"@) <==> r == Ok::<HmacAlgorithm, DirectiveError>(
                HmacAlgorithm::Sha384,
            )
            &&& named("sha512"@, "sha-512"@) <==> r == Ok::<HmacAlgorithm, DirectiveError>(
                HmacAlgorithm::Sha512,
            )
            &&& r matches Err(e) ==> e == DirectiveError::UnknownHmacAlgorithm
        }),
{
    lemma_text(encode_utf8(text), text);
    lowercase_is_the_same_but_for_case(text, "sha256"@);
    lowercase_is_the_same_but_for_case(text, "sha-256"@);
    lowercase_is_the_same_but_for_case(text, "sha384"@);
    lowercase_is_the_same_but_for_case(text, "sha-384"@);
    lowercase_is_the_same_but_for_case(text, "sha512"@);
    lowercase_is_the_same_but_for_case(text, "sha-512"@);
    reveal_strlit("sha256");
    reveal_strlit("sha-256");
    reveal_strlit("sha384");
    reveal_strlit("sha-384");
    reveal_strlit("sha512");
    reveal_strlit("sha-512");
    assert("sha256"@[3] == '2' && "sha-256"@[3] == '-' && "sha384"@[3] == '3');
    assert("sha-384"@[4] == '3' && "sha-256"@[4] == '2' && "sha-512"@[4] == '5');
    assert("sha512"@[3] == '5');
}

/// Bytes that are no text name no digest, no number of bytes and no prefix.
pub proof fn stray_bytes_are_no_keyword(arg: Seq<u8>)
    requires
        forall|text: Seq<char>| arg != #[trigger] encode_utf8(text),
    ensures
        hmac_algorithm_setting(Some(arg)) == Err::<HmacAlgorithm, _>(
            DirectiveError::UnknownHmacAlgorithm,
        ),
        key_length_setting(Some(arg)) == Err::<usize, _>(DirectiveError::KeyLengthOutOfRange),
        key_prefix_setting(Some(arg)) == Err::<Seq<char>, _>(DirectiveError::KeyPrefixNotHex),
{
    lemma_text(arg, text_or_empty(arg));
    reveal_strlit("sha256");
    reveal_strlit("sha-256");
    reveal_strlit("sha384");
    reveal_strlit("sha-384");
    reveal_strlit("sha512");
    reveal_strlit("sha-512");
    assert(text_or_empty(arg) =~= Seq::<char>::empty());
    assert(ascii_lowercase(text_or_empty(arg)).len() == 0);
}

/// Every hex text is accepted as a key prefix and stored as it was written, and
/// nothing else is accepted.
pub proof fn key_prefix_is_any_hex_text(arg: Seq<u8>, text: Seq<char>)
    ensures
        key_prefix_setting(Some(arg)) == Ok::<Seq<char>, DirectiveError>(text) <==> {
            &&& arg == encode_utf8(text)
            &&& text.len() > 0
            &&& forall|i: int|
                0 <= i < text.len() ==> "0123456789abcdefABCDEF"@.contains(#[trigger] text[i])
        },
        key_prefix_setting(Some(arg)) matches Err(e) ==> e == DirectiveError::KeyPrefixNotHex,
{
    lemma_text(arg, text);
    hex_is_made_of_hex_digits(text);
}

/// A lifetime is stored as it was read, unless it is zero, and nothing else is.
pub proof fn lifetime_is_stored_as_read(text: Seq<char>, t: Ttl)
    ensures
        expires_setting(Some(encode_utf8(text))) == Ok::<Ttl, DirectiveError>(t) <==> (t.secs > 0
            || t.nanos > 0) && parsed_duration(text) == Some((t.secs, t.nanos)),
        expires_setting(Some(encode_utf8(text))) matches Err(e) ==> e
            == DirectiveError::ExpiresNotPositive,
{
    lemma_text(encode_utf8(text), text);
}

} // verus!
