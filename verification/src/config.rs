//! The configuration of one location, and how contexts inherit it.
//!
//! Every setting is optional, so that "unset" and "set" can be told apart: an
//! inner context keeps what it sets and takes the rest from the context around
//! it. What no context sets has a default.
use crate::challenge::HmacAlgorithm;
use crate::duration::Ttl;
use crate::text::is_hex;
use vstd::prelude::*;

verus! {

/// The settings of one `http`, `server` or `location` context.
#[derive(Debug)]
pub struct ModuleConfig {
    pub hmac_signature_secret: Option<String>,
    pub hmac_key_signature_secret: Option<String>,
    pub algorithm: Option<String>,
    pub cost: Option<u32>,
    pub hmac_algorithm: Option<HmacAlgorithm>,
    pub key_length: Option<usize>,
    pub key_prefix: Option<String>,
    pub expires: Option<Ttl>,
    /// A handle on the compiled expression that yields the submitted payload,
    /// such as `$arg_altcha`. The server that compiled it knows what it means.
    pub verify_input: Option<usize>,
}

/// What a configuration holds, with its texts as sequences of characters.
#[verifier::ext_equal]
pub struct ConfigView {
    pub hmac_signature_secret: Option<Seq<char>>,
    pub hmac_key_signature_secret: Option<Seq<char>>,
    pub algorithm: Option<Seq<char>>,
    pub cost: Option<u32>,
    pub hmac_algorithm: Option<HmacAlgorithm>,
    pub key_length: Option<usize>,
    pub key_prefix: Option<Seq<char>>,
    pub expires: Option<Ttl>,
    pub verify_input: Option<usize>,
}

/// An optional text as an optional sequence of characters.
pub open spec fn text_view(s: Option<String>) -> Option<Seq<char>> {
    match s {
        Some(t) => Some(t@),
        None => None,
    }
}

/// A setting of an inner context: its own value, or else the outer one's.
pub open spec fn inherited<T>(inner: Option<T>, outer: Option<T>) -> Option<T> {
    match inner {
        Some(v) => Some(v),
        None => outer,
    }
}

impl View for ModuleConfig {
    type V = ConfigView;

    open spec fn view(&self) -> ConfigView {
        ConfigView {
            hmac_signature_secret: text_view(self.hmac_signature_secret),
            hmac_key_signature_secret: text_view(self.hmac_key_signature_secret),
            algorithm: text_view(self.algorithm),
            cost: self.cost,
            hmac_algorithm: self.hmac_algorithm,
            key_length: self.key_length,
            key_prefix: text_view(self.key_prefix),
            expires: self.expires,
            verify_input: self.verify_input,
        }
    }
}

impl ConfigView {
    /// A context that sets nothing.
    pub open spec fn unset() -> ConfigView {
        ConfigView {
            hmac_signature_secret: None,
            hmac_key_signature_secret: None,
            algorithm: None,
            cost: None,
            hmac_algorithm: None,
            key_length: None,
            key_prefix: None,
            expires: None,
            verify_input: None,
        }
    }

    /// This context inside another one: each setting its own, or inherited.
    pub open spec fn inside(self, outer: ConfigView) -> ConfigView {
        ConfigView {
            hmac_signature_secret: inherited(
                self.hmac_signature_secret,
                outer.hmac_signature_secret,
            ),
            hmac_key_signature_secret: inherited(
                self.hmac_key_signature_secret,
                outer.hmac_key_signature_secret,
            ),
            algorithm: inherited(self.algorithm, outer.algorithm),
            cost: inherited(self.cost, outer.cost),
            hmac_algorithm: inherited(self.hmac_algorithm, outer.hmac_algorithm),
            key_length: inherited(self.key_length, outer.key_length),
            key_prefix: inherited(self.key_prefix, outer.key_prefix),
            expires: inherited(self.expires, outer.expires),
            verify_input: inherited(self.verify_input, outer.verify_input),
        }
    }

    /// The key derivation algorithm in force.
    pub open spec fn effective_algorithm(self) -> Seq<char> {
        match self.algorithm {
            Some(a) => a,
            None => "PBKDF2/SHA-256"@,
        }
    }

    /// The cost in force.
    pub open spec fn effective_cost(self) -> u32 {
        match self.cost {
            Some(n) => n,
            None => 100_000,
        }
    }

    /// The HMAC digest in force.
    pub open spec fn effective_hmac_algorithm(self) -> HmacAlgorithm {
        match self.hmac_algorithm {
            Some(a) => a,
            None => HmacAlgorithm::Sha256,
        }
    }

    /// The length in force of the derived key, in bytes.
    pub open spec fn effective_key_length(self) -> usize {
        match self.key_length {
            Some(n) => n,
            None => 32,
        }
    }

    /// The hex prefix in force that a derived key must have.
    pub open spec fn effective_key_prefix(self) -> Seq<char> {
        match self.key_prefix {
            Some(p) => p,
            None => "00"@,
        }
    }

    /// The lifetime in force of a challenge.
    pub open spec fn effective_expires(self) -> Ttl {
        match self.expires {
            Some(t) => t,
            None => Ttl { secs: 300, nanos: 0 },
        }
    }

    /// Whether every setting that is set has a value its directive allows: a
    /// positive cost, a key of one to sixty-four bytes, a hex prefix, a
    /// lifetime that is not zero.
    pub open spec fn valid(self) -> bool {
        &&& self.cost matches Some(n) ==> n > 0
        &&& self.key_length matches Some(n) ==> 1 <= n <= 64
        &&& self.key_prefix matches Some(p) ==> is_hex(p)
        &&& self.expires matches Some(t) ==> t.secs != 0 || t.nanos != 0
    }
}

/// A copy of an optional text.
fn copied(s: &Option<String>) -> (r: Option<String>)
    ensures
        text_view(r) == text_view(*s),
{
    match s {
        Some(t) => Some(t.clone()),
        None => None,
    }
}

impl Default for ModuleConfig {
    /// A context that sets nothing.
    fn default() -> (r: Self)
        ensures
            r@ == ConfigView::unset(),
    {
        ModuleConfig {
            hmac_signature_secret: None,
            hmac_key_signature_secret: None,
            algorithm: None,
            cost: None,
            hmac_algorithm: None,
            key_length: None,
            key_prefix: None,
            expires: None,
            verify_input: None,
        }
    }
}

impl ModuleConfig {
    /// The key derivation algorithm: `PBKDF2/SHA-256` unless set.
    pub fn algorithm(&self) -> (r: &str)
        ensures
            r@ == self@.effective_algorithm(),
    {
        match &self.algorithm {
            Some(a) => a.as_str(),
            None => "PBKDF2/SHA-256",
        }
    }

    /// The cost: 100000 unless set.
    pub fn cost(&self) -> (r: u32)
        ensures
            r == self@.effective_cost(),
    {
        match self.cost {
            Some(n) => n,
            None => 100_000,
        }
    }

    /// The HMAC digest: SHA-256 unless set.
    pub fn hmac_algorithm(&self) -> (r: HmacAlgorithm)
        ensures
            r == self@.effective_hmac_algorithm(),
    {
        match self.hmac_algorithm {
            Some(a) => a,
            None => HmacAlgorithm::Sha256,
        }
    }

    /// The length of the derived key in bytes: 32 unless set.
    pub fn key_length(&self) -> (r: usize)
        ensures
            r == self@.effective_key_length(),
    {
        match self.key_length {
            Some(n) => n,
            None => 32,
        }
    }

    /// The hex prefix that a derived key must have: `00` unless set.
    pub fn key_prefix(&self) -> (r: &str)
        ensures
            r@ == self@.effective_key_prefix(),
    {
        match &self.key_prefix {
            Some(p) => p.as_str(),
            None => "00",
        }
    }

    /// The lifetime of a challenge: five minutes unless set.
    pub fn expires(&self) -> (r: Ttl)
        ensures
            r == self@.effective_expires(),
    {
        match self.expires {
            Some(t) => t,
            None => Ttl::from_secs(300),
        }
    }

    /// Fills what this context leaves unset from the context around it.
    pub fn merge(&mut self, prev: &ModuleConfig)
        ensures
            final(self)@ == old(self)@.inside(prev@),
            old(self)@.valid() && prev@.valid() ==> final(self)@.valid(),
    {
        if self.hmac_signature_secret.is_none() {
            self.hmac_signature_secret = copied(&prev.hmac_signature_secret);
        }
        if self.hmac_key_signature_secret.is_none() {
            self.hmac_key_signature_secret = copied(&prev.hmac_key_signature_secret);
        }
        if self.algorithm.is_none() {
            self.algorithm = copied(&prev.algorithm);
        }
        if self.cost.is_none() {
            self.cost = prev.cost;
        }
        if self.hmac_algorithm.is_none() {
            self.hmac_algorithm = prev.hmac_algorithm;
        }
        if self.key_length.is_none() {
            self.key_length = prev.key_length;
        }
        if self.key_prefix.is_none() {
            self.key_prefix = copied(&prev.key_prefix);
        }
        if self.expires.is_none() {
            self.expires = prev.expires;
        }
        if self.verify_input.is_none() {
            self.verify_input = prev.verify_input;
        }
    }
}

/// Nesting is associative: a location inside a server inside the `http`
/// context inherits the same whether the outer two are merged first or the
/// inner two are.
pub proof fn nesting_is_associative(location: ConfigView, server: ConfigView, http: ConfigView)
    ensures
        location.inside(server.inside(http)) == location.inside(server).inside(http),
{
}

/// A context that sets nothing changes nothing, neither inside another one nor
/// around it, and merging a context into itself leaves it as it is.
pub proof fn unset_context_is_neutral(conf: ConfigView)
    ensures
        ConfigView::unset().inside(conf) == conf,
        conf.inside(ConfigView::unset()) == conf,
        conf.inside(conf) == conf,
{
}

/// A context inherits once: merging the outer context in again changes nothing.
pub proof fn merging_again_changes_nothing(inner: ConfigView, outer: ConfigView)
    ensures
        inner.inside(outer).inside(outer) == inner.inside(outer),
{
}

/// A value in force is that of the innermost context that sets it, and the
/// default where none of the three does.
pub proof fn innermost_setting_is_in_force(
    location: ConfigView,
    server: ConfigView,
    http: ConfigView,
)
    ensures
        ({
            let conf = location.inside(server.inside(http));
            &&& conf.effective_algorithm() == (if location.algorithm is Some {
                location
            } else if server.algorithm is Some {
                server
            } else {
                http
            }).effective_algorithm()
            &&& conf.effective_cost() == (if location.cost is Some {
                location
            } else if server.cost is Some {
                server
            } else {
                http
            }).effective_cost()
            &&& conf.effective_hmac_algorithm() == (if location.hmac_algorithm is Some {
                location
            } else if server.hmac_algorithm is Some {
                server
            } else {
                http
            }).effective_hmac_algorithm()
            &&& conf.effective_key_length() == (if location.key_length is Some {
                location
            } else if server.key_length is Some {
                server
            } else {
                http
            }).effective_key_length()
            &&& conf.effective_key_prefix() == (if location.key_prefix is Some {
                location
            } else if server.key_prefix is Some {
                server
            } else {
                http
            }).effective_key_prefix()
            &&& conf.effective_expires() == (if location.expires is Some {
                location
            } else if server.expires is Some {
                server
            } else {
                http
            }).effective_expires()
        }),
{
}

/// Under a valid configuration every value in force is one that its directive
/// allows, the defaults included.
pub proof fn values_in_force_are_allowed(conf: ConfigView)
    requires
        conf.valid(),
    ensures
        conf.effective_cost() > 0,
        1 <= conf.effective_key_length() <= 64,
        is_hex(conf.effective_key_prefix()),
        conf.effective_expires().secs != 0 || conf.effective_expires().nanos != 0,
{
    reveal_strlit("00");
}

/// The inner setting wins, each on its own: where the inner context sets
/// something, the merged one has the inner value; where it does not, the outer
/// one, if there is any.
pub proof fn merged_setting_is_inner_or_outer(inner: ConfigView, outer: ConfigView)
    ensures
        ({
            let merged = inner.inside(outer);
            &&& inner.hmac_signature_secret is Some ==> merged.hmac_signature_secret
                == inner.hmac_signature_secret
            &&& inner.hmac_signature_secret is None ==> merged.hmac_signature_secret
                == outer.hmac_signature_secret
            &&& inner.hmac_key_signature_secret is Some ==> merged.hmac_key_signature_secret
                == inner.hmac_key_signature_secret
            &&& inner.hmac_key_signature_secret is None ==> merged.hmac_key_signature_secret
                == outer.hmac_key_signature_secret
            &&& inner.algorithm is Some ==> merged.algorithm == inner.algorithm
            &&& inner.algorithm is None ==> merged.algorithm == outer.algorithm
            &&& inner.cost is Some ==> merged.cost == inner.cost
            &&& inner.cost is None ==> merged.cost == outer.cost
            &&& inner.hmac_algorithm is Some ==> merged.hmac_algorithm == inner.hmac_algorithm
            &&& inner.hmac_algorithm is None ==> merged.hmac_algorithm == outer.hmac_algorithm
            &&& inner.key_length is Some ==> merged.key_length == inner.key_length
            &&& inner.key_length is None ==> merged.key_length == outer.key_length
            &&& inner.key_prefix is Some ==> merged.key_prefix == inner.key_prefix
            &&& inner.key_prefix is None ==> merged.key_prefix == outer.key_prefix
            &&& inner.expires is Some ==> merged.expires == inner.expires
            &&& inner.expires is None ==> merged.expires == outer.expires
            &&& inner.verify_input is Some ==> merged.verify_input == inner.verify_input
            &&& inner.verify_input is None ==> merged.verify_input == outer.verify_input
        }),
{
}

/// A setting that is set is in force as it was set, and the default where it is
/// not.
pub proof fn setting_is_in_force_as_it_was_set(conf: ConfigView)
    ensures
        conf.algorithm matches Some(a) ==> conf.effective_algorithm() == a,
        conf.algorithm is None ==> conf.effective_algorithm() == "PBKDF2/SHA-256"@,
        conf.cost matches Some(n) ==> conf.effective_cost() == n,
        conf.cost is None ==> conf.effective_cost() == 100_000,
        conf.hmac_algorithm matches Some(a) ==> conf.effective_hmac_algorithm() == a,
        conf.hmac_algorithm is None ==> conf.effective_hmac_algorithm() == HmacAlgorithm::Sha256,
        conf.key_length matches Some(n) ==> conf.effective_key_length() == n,
        conf.key_length is None ==> conf.effective_key_length() == 32,
        conf.key_prefix matches Some(p) ==> conf.effective_key_prefix() == p,
        conf.key_prefix is None ==> conf.effective_key_prefix() == "00"@,
        conf.expires matches Some(t) ==> conf.effective_expires() == t,
        conf.expires is None ==> conf.effective_expires().secs == 5 * 60
            && conf.effective_expires().nanos == 0,
{
}

/// A context that sets nothing has no setting at all.
pub proof fn unset_context_has_no_setting()
    ensures
        ConfigView::unset().hmac_signature_secret is None,
        ConfigView::unset().hmac_key_signature_secret is None,
        ConfigView::unset().algorithm is None,
        ConfigView::unset().cost is None,
        ConfigView::unset().hmac_algorithm is None,
        ConfigView::unset().key_length is None,
        ConfigView::unset().key_prefix is None,
        ConfigView::unset().expires is None,
        ConfigView::unset().verify_input is None,
{
}

/// A configuration is valid where, and only where, a cost that is set is
/// positive, a key length from one to sixty-four, a key prefix hex and a lifetime
/// not zero, whatever else is set.
pub proof fn valid_settings_are_the_allowed_ones(conf: ConfigView)
    ensures
        conf.valid() <==> {
            &&& conf.cost is Some ==> conf.cost->0 > 0
            &&& conf.key_length is Some ==> 1 <= conf.key_length->0 <= 64
            &&& conf.key_prefix is Some ==> is_hex(conf.key_prefix->0)
            &&& conf.expires is Some ==> conf.expires->0.secs > 0 || conf.expires->0.nanos > 0
        },
{
}

/// The view of a configuration shows every setting, the texts as their
/// characters, and only what is set.
pub proof fn view_shows_every_setting(conf: ModuleConfig)
    ensures
        conf.hmac_signature_secret matches Some(s) ==> conf@.hmac_signature_secret == Some(s@),
        conf.hmac_signature_secret is None ==> conf@.hmac_signature_secret is None,
        conf.hmac_key_signature_secret matches Some(s) ==> conf@.hmac_key_signature_secret
            == Some(s@),
        conf.hmac_key_signature_secret is None ==> conf@.hmac_key_signature_secret is None,
        conf.algorithm matches Some(s) ==> conf@.algorithm == Some(s@),
        conf.algorithm is None ==> conf@.algorithm is None,
        conf@.cost == conf.cost,
        conf@.hmac_algorithm == conf.hmac_algorithm,
        conf@.key_length == conf.key_length,
        conf.key_prefix matches Some(s) ==> conf@.key_prefix == Some(s@),
        conf.key_prefix is None ==> conf@.key_prefix is None,
        conf@.expires == conf.expires,
        conf@.verify_input == conf.verify_input,
{
}

} // verus!
