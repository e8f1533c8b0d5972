//! The base64 wrapping of a submitted payload.
//!
//! Clients wrap the payload in standard base64 or in its URL-safe variant, and
//! leave the padding of the latter away or not. All three are accepted, the
//! standard one being tried first.
use base64::Engine;
use vstd::prelude::*;

verus! {

/// The kinds of base64 that a payload may come in.
#[derive(Clone, Copy, Debug, PartialEq, Eq, Structural)]
pub enum Wrapping {
    /// The standard alphabet, with padding.
    Standard,
    /// The URL-safe alphabet, without padding.
    UrlSafe,
    /// The URL-safe alphabet, with padding.
    PaddedUrlSafe,
}

impl Wrapping {
    /// Whether the alphabet is the URL-safe one.
    pub open spec fn url_safe(self) -> bool {
        self != Wrapping::Standard
    }

    /// Whether the text is filled up to a multiple of four symbols.
    pub open spec fn padded(self) -> bool {
        self != Wrapping::UrlSafe
    }
}

/// The base64 symbol of a six-bit number, in the URL-safe alphabet or in the
/// standard one.
pub open spec fn symbol(url_safe: bool, v: int) -> u8
    recommends
        0 <= v < 64,
{
    if v < 26 {
        (65 + v) as u8
    } else if v < 52 {
        (97 + v - 26) as u8
    } else if v < 62 {
        (48 + v - 52) as u8
    } else if v == 62 {
        if url_safe {
            45
        } else {
            43
        }
    } else {
        if url_safe {
            95
        } else {
            47
        }
    }
}

/// The base64 text of some bytes, of one of the kinds.
pub open spec fn encoded(w: Wrapping, data: Seq<u8>) -> Seq<u8>
    decreases data.len(),
{
    if data.len() == 0 {
        seq![]
    } else if data.len() == 1 {
        let n = data[0] * 16;
        seq![symbol(w.url_safe(), n / 64), symbol(w.url_safe(), n % 64)] + if w.padded() {
            seq![61u8, 61u8]
        } else {
            seq![]
        }
    } else if data.len() == 2 {
        let n = data[0] * 1024 + data[1] * 4;
        seq![
            symbol(w.url_safe(), n / 4096),
            symbol(w.url_safe(), n / 64 % 64),
            symbol(w.url_safe(), n % 64),
        ] + if w.padded() {
            seq![61u8]
        } else {
            seq![]
        }
    } else {
        let n = data[0] * 65536 + data[1] * 256 + data[2];
        seq![
            symbol(w.url_safe(), n / 262144),
            symbol(w.url_safe(), n / 4096 % 64),
            symbol(w.url_safe(), n / 64 % 64),
            symbol(w.url_safe(), n % 64),
        ] + encoded(w, data.skip(3))
    }
}

/// Whether a text is base64 of some kind.
pub open spec fn is_wrapped(w: Wrapping, text: Seq<u8>) -> bool {
    exists|data: Seq<u8>| #[trigger] encoded(w, data) == text
}

/// The bytes whose base64 of some kind a text is.
pub open spec fn content(w: Wrapping, text: Seq<u8>) -> Seq<u8> {
    choose|data: Seq<u8>| #[trigger] encoded(w, data) == text
}

/// The bytes that a text wraps: those whose standard base64 it is, or else
/// those whose URL-safe base64 it is, without padding or with.
pub open spec fn unwrapped(text: Seq<u8>) -> Option<Seq<u8>> {
    if is_wrapped(Wrapping::Standard, text) {
        Some(content(Wrapping::Standard, text))
    } else if is_wrapped(Wrapping::UrlSafe, text) {
        Some(content(Wrapping::UrlSafe, text))
    } else if is_wrapped(Wrapping::PaddedUrlSafe, text) {
        Some(content(Wrapping::PaddedUrlSafe, text))
    } else {
        None
    }
}

/// The six-bit number of a symbol of either alphabet.
spec fn symbol_value(c: u8) -> int {
    if 65 <= c <= 90 {
        c - 65
    } else if 97 <= c <= 122 {
        c - 97 + 26
    } else if 48 <= c <= 57 {
        c - 48 + 52
    } else if c == 43 || c == 45 {
        62
    } else {
        63
    }
}

/// A number of up to twenty-four bits is read back from the symbols of its
/// four six-bit digits.
proof fn lemma_sextets(url_safe: bool, n: int)
    requires
        0 <= n < 0x100_0000,
    ensures
        ({
            let v = |d: int| symbol_value(symbol(url_safe, d));
            &&& v(n / 262144) * 262144 + v(n / 4096 % 64) * 4096 + v(n / 64 % 64) * 64 + v(n % 64)
                == n
            &&& n < 0x40000 ==> v(n / 4096) * 4096 + v(n / 64 % 64) * 64 + v(n % 64) == n
            &&& n < 0x1000 ==> v(n / 64) * 64 + v(n % 64) == n
        }),
        symbol(url_safe, n / 64 % 64) != 61,
        symbol(url_safe, n % 64) != 61,
{
    assert forall|d: int| 0 <= d < 64 implies symbol_value(#[trigger] symbol(url_safe, d)) == d
        && symbol(url_safe, d) != 61 by {}
    assert(n / 4096 / 64 == n / 262144);
    assert(n / 64 / 64 == n / 4096);
}

/// Where the symbols, the padding and the end of a base64 text are, and what
/// number its first symbols spell.
proof fn lemma_shape(w: Wrapping, data: Seq<u8>)
    ensures
        ({
            let e = encoded(w, data);
            let v = |i: int| symbol_value(e[i]);
            &&& data.len() == 0 ==> e.len() == 0
            &&& data.len() == 1 ==> {
                &&& e.len() == if w.padded() { 4int } else { 2 }
                &&& w.padded() ==> e[2] == 61
                &&& v(0) * 64 + v(1) == data[0] * 16
            }
            &&& data.len() == 2 ==> {
                &&& e.len() == if w.padded() { 4int } else { 3 }
                &&& w.padded() ==> e[3] == 61
                &&& e[2] != 61
                &&& v(0) * 4096 + v(1) * 64 + v(2) == data[0] * 1024 + data[1] * 4
            }
            &&& data.len() >= 3 ==> {
                &&& e.len() >= 4
                &&& e[2] != 61
                &&& e[3] != 61
                &&& v(0) * 262144 + v(1) * 4096 + v(2) * 64 + v(3) == data[0] * 65536 + data[1]
                    * 256 + data[2]
                &&& e.skip(4) == encoded(w, data.skip(3))
            }
        }),
{
    let e = encoded(w, data);
    if data.len() == 1 {
        lemma_sextets(w.url_safe(), data[0] * 16);
    } else if data.len() == 2 {
        lemma_sextets(w.url_safe(), data[0] * 1024 + data[1] * 4);
    } else if data.len() >= 3 {
        lemma_sextets(w.url_safe(), data[0] * 65536 + data[1] * 256 + data[2]);
        assert(e.skip(4) =~= encoded(w, data.skip(3)));
    }
}

/// No text is the base64 of two different byte strings, of whichever kind each
/// of the two is.
pub proof fn encoding_is_injective(w_a: Wrapping, a: Seq<u8>, w_b: Wrapping, b: Seq<u8>)
    requires
        encoded(w_a, a) == encoded(w_b, b),
    ensures
        a == b,
    decreases a.len(),
{
    lemma_shape(w_a, a);
    lemma_shape(w_b, b);
    if a.len() >= 3 && b.len() >= 3 {
        encoding_is_injective(w_a, a.skip(3), w_b, b.skip(3));
        assert(a[0] == b[0] && a[1] == b[1] && a[2] == b[2]);
        assert(a =~= seq![a[0], a[1], a[2]] + a.skip(3));
        assert(b =~= seq![b[0], b[1], b[2]] + b.skip(3));
    }
    assert(a =~= b);
}

/// Standard and URL-safe base64 are both accepted, the latter with its padding
/// and without: whatever bytes a client wraps, and in whichever of the three,
/// those bytes are what is unwrapped.
pub proof fn every_wrapping_is_unwrapped(w: Wrapping, data: Seq<u8>)
    ensures
        unwrapped(encoded(w, data)) == Some(data),
{
    let text = encoded(w, data);
    assert(is_wrapped(w, text));
    if is_wrapped(Wrapping::Standard, text) {
        encoding_is_injective(Wrapping::Standard, content(Wrapping::Standard, text), w, data);
    } else if is_wrapped(Wrapping::UrlSafe, text) {
        encoding_is_injective(Wrapping::UrlSafe, content(Wrapping::UrlSafe, text), w, data);
    } else {
        encoding_is_injective(
            Wrapping::PaddedUrlSafe,
            content(Wrapping::PaddedUrlSafe, text),
            w,
            data,
        );
    }
}

/// A decoding failure of the `base64` crate.
#[verifier::external_type_specification]
#[verifier::external_body]
pub struct ExDecodeError(base64::DecodeError);

/// `base64::Engine::decode` of the engine `general_purpose::STANDARD`, which
/// requires canonical padding and zero trailing bits: it gives back exactly
/// what was encoded, and fails on a text that is the standard base64 of
/// nothing.
#[verifier::external_body]
fn decode_standard(text: &[u8]) -> (r: Result<Vec<u8>, base64::DecodeError>)
    ensures
        r matches Ok(data) ==> encoded(Wrapping::Standard, data@) == text@,
        r is Err ==> forall|data: Seq<u8>| #[trigger] encoded(Wrapping::Standard, data) != text@,
{
    base64::engine::general_purpose::STANDARD.decode(text)
}

/// `base64::Engine::decode` of the engine `general_purpose::URL_SAFE_NO_PAD`,
/// which requires that there is no padding and that trailing bits are zero:
/// it gives back exactly what was encoded, and fails on a text that is the
/// unpadded URL-safe base64 of nothing.
#[verifier::external_body]
fn decode_url_safe(text: &[u8]) -> (r: Result<Vec<u8>, base64::DecodeError>)
    ensures
        r matches Ok(data) ==> encoded(Wrapping::UrlSafe, data@) == text@,
        r is Err ==> forall|data: Seq<u8>| #[trigger] encoded(Wrapping::UrlSafe, data) != text@,
{
    base64::engine::general_purpose::URL_SAFE_NO_PAD.decode(text)
}

/// `base64::Engine::decode` of the engine `general_purpose::URL_SAFE`, which
/// requires canonical padding and zero trailing bits: it gives back exactly what
/// was encoded, and fails on a text that is the padded URL-safe base64 of
/// nothing.
#[verifier::external_body]
fn decode_url_safe_padded(text: &[u8]) -> (r: Result<Vec<u8>, base64::DecodeError>)
    ensures
        r matches Ok(data) ==> encoded(Wrapping::PaddedUrlSafe, data@) == text@,
        r is Err ==> forall|data: Seq<u8>| #[trigger]
            encoded(Wrapping::PaddedUrlSafe, data) != text@,
{
    base64::engine::general_purpose::URL_SAFE.decode(text)
}

/// Takes the base64 wrapping off: the standard one, or else the URL-safe one,
/// without padding or with. On a text that is none of them, the error is that of
/// the URL-safe decoding without padding.
pub fn unwrap_base64(text: &[u8]) -> (r: Result<Vec<u8>, base64::DecodeError>)
    ensures
        r is Ok <==> unwrapped(text@) is Some,
        r matches Ok(data) ==> unwrapped(text@) == Some(data@),
{
    if let Ok(data) = decode_standard(text) {
        proof {
            every_wrapping_is_unwrapped(Wrapping::Standard, data@);
        }
        return Ok(data);
    }
    let error = match decode_url_safe(text) {
        Ok(data) => {
            proof {
                every_wrapping_is_unwrapped(Wrapping::UrlSafe, data@);
            }
            return Ok(data);
        },
        Err(e) => e,
    };
    match decode_url_safe_padded(text) {
        Ok(data) => {
            proof {
                every_wrapping_is_unwrapped(Wrapping::PaddedUrlSafe, data@);
            }
            Ok(data)
        },
        Err(_) => Err(error),
    }
}

/// A symbol stands at its number in the alphabet.
pub proof fn symbol_stands_at_its_number(v: int)
    requires
        0 <= v < 64,
    ensures
        symbol(false, v) as char
            == "ABCDEFGHIJKLMNOPQRSTUVWXYZabcdefghijklmnopqrstuvwxyz0123456789+/"@[v],
        symbol(true, v) as char
            == "ABCDEFGHIJKLMNOPQRSTUVWXYZabcdefghijklmnopqrstuvwxyz0123456789-_"@[v],
{
    reveal_strlit("ABCDEFGHIJKLMNOPQRSTUVWXYZabcdefghijklmnopqrstuvwxyz0123456789+/");
    reveal_strlit("ABCDEFGHIJKLMNOPQRSTUVWXYZabcdefghijklmnopqrstuvwxyz0123456789-_");
}

/// The padding of a text fills it up to a multiple of four symbols, and is all
/// that a padded text has over an unpadded one.
#[verifier::spinoff_prover]
pub proof fn padding_fills_up_to_four(data: Seq<u8>)
    ensures
        encoded(Wrapping::PaddedUrlSafe, data).len() % 4 == 0,
        encoded(Wrapping::PaddedUrlSafe, data) == encoded(Wrapping::UrlSafe, data) + (if data.len()
            % 3 == 1 {
            seq![61u8, 61u8]
        } else if data.len() % 3 == 2 {
            seq![61u8]
        } else {
            seq![]
        }),
    decreases data.len(),
{
    let p = encoded(Wrapping::PaddedUrlSafe, data);
    let u = encoded(Wrapping::UrlSafe, data);
    if data.len() == 0 {
        assert(p =~= u + Seq::<u8>::empty());
    } else if data.len() == 1 {
        assert(p =~= u + seq![61u8, 61u8]);
    } else if data.len() == 2 {
        assert(p =~= u + seq![61u8]);
    } else {
        let rest = data.skip(3);
        padding_fills_up_to_four(rest);
        assert(rest.len() % 3 == data.len() % 3);
        let head = u.take(4);
        let rest_p = encoded(Wrapping::PaddedUrlSafe, rest);
        let rest_u = encoded(Wrapping::UrlSafe, rest);
        assert(p =~= head + rest_p);
        assert(u =~= head + rest_u);
        let fill = rest_p.skip(rest_u.len() as int);
        assert(rest_p =~= rest_u + fill);
        assert(head + rest_p =~= head + rest_u + fill);
        if data.len() % 3 == 1 {
            assert(fill =~= seq![61u8, 61u8]);
        } else if data.len() % 3 == 2 {
            assert(fill =~= seq![61u8]);
        } else {
            assert(fill =~= Seq::<u8>::empty());
        }
    }
}

/// The standard text and the padded URL-safe one differ in nothing but `+` for
/// `-` and `/` for `_`.
pub proof fn alphabets_differ_in_two_symbols(data: Seq<u8>)
    ensures
        encoded(Wrapping::Standard, data) == encoded(Wrapping::PaddedUrlSafe, data).map_values(
            |c: u8|
                if c == 45 {
                    43u8
                } else if c == 95 {
                    47u8
                } else {
                    c
                },
        ),
    decreases data.len(),
{
    let f = |c: u8|
        if c == 45 {
            43u8
        } else if c == 95 {
            47u8
        } else {
            c
        };
    let s = encoded(Wrapping::Standard, data);
    let p = encoded(Wrapping::PaddedUrlSafe, data);
    assert forall|v: int| 0 <= v < 64 implies f(symbol(true, v)) == #[trigger] symbol(
        false,
        v,
    ) by {}
    if data.len() == 0 {
        assert(s =~= p.map_values(f));
    } else if data.len() == 1 {
        let n = data[0] * 16;
        assert(0 <= n / 64 < 64 && 0 <= n % 64 < 64);
        assert(s =~= p.map_values(f));
    } else if data.len() == 2 {
        let n = data[0] * 1024 + data[1] * 4;
        assert(0 <= n / 4096 < 64 && 0 <= n / 64 % 64 < 64 && 0 <= n % 64 < 64);
        assert(s =~= p.map_values(f));
    } else {
        alphabets_differ_in_two_symbols(data.skip(3));
        let n = data[0] * 65536 + data[1] * 256 + data[2];
        assert(0 <= n / 262144 < 64);
        assert(0 <= n / 4096 % 64 < 64 && 0 <= n / 64 % 64 < 64 && 0 <= n % 64 < 64);
        assert(p.skip(4) =~= encoded(Wrapping::PaddedUrlSafe, data.skip(3)));
        assert(s.skip(4) =~= encoded(Wrapping::Standard, data.skip(3)));
        assert(forall|i: int| 4 <= i < p.len() ==> p[i] == p.skip(4)[i - 4]);
        assert(forall|i: int| 4 <= i < s.len() ==> s[i] == s.skip(4)[i - 4]);
        assert(s =~= p.map_values(f));
    }
}

/// Nothing is unwrapped but what was wrapped: what a text gives is what it is the
/// base64 of, and a text that is the base64 of nothing gives nothing.
pub proof fn only_wrapped_bytes_are_unwrapped(text: Seq<u8>, data: Seq<u8>)
    ensures
        unwrapped(text) == Some(data) <==> (encoded(Wrapping::Standard, data) == text || encoded(
            Wrapping::UrlSafe,
            data,
        ) == text || encoded(Wrapping::PaddedUrlSafe, data) == text),
{
    if encoded(Wrapping::Standard, data) == text {
        every_wrapping_is_unwrapped(Wrapping::Standard, data);
    }
    if encoded(Wrapping::UrlSafe, data) == text {
        every_wrapping_is_unwrapped(Wrapping::UrlSafe, data);
    }
    if encoded(Wrapping::PaddedUrlSafe, data) == text {
        every_wrapping_is_unwrapped(Wrapping::PaddedUrlSafe, data);
    }
}

} // verus!
