//! The request variables `$altcha_challenge` and `$altcha_verified`.
//!
//! Each is computed once per request, when it is first read, and remembered in
//! the context of the request.
use crate::challenge::{
    challenge_json, challenge_options, challenge_signature, drawn_from, issue_challenge,
    issued_challenge_carries_its_options, issued_from, options_at, options_carry_the_settings,
    to_json, Challenge, ChallengeView, HmacAlgorithm,
};
use crate::config::{text_view, ConfigView, ModuleConfig};
use crate::encoding::{encoded, Wrapping};
use crate::text::is_hex;
use crate::verify::{
    bytes_view, can_verify, conf_view, good_payload_is_signed_and_solved, key_signature,
    possible_answer, possible_outcome, solved_challenge_is_good, solves, submission,
    submission_is_answered_as_found, submits_solved, submitted, unchecked_for, unexpired_answer,
    verdict, verify_submission, PayloadView, SolutionView, Verification, VerifyError,
};
use vstd::prelude::*;
use vstd::utf8::encode_utf8;

verus! {

/// What one request remembers of its variables.
#[derive(Debug)]
pub struct AltchaCtx {
    pub challenge_json: Option<String>,
    pub verified: Option<bool>,
}

/// What a request context holds.
#[verifier::ext_equal]
pub struct CtxView {
    pub challenge_json: Option<Seq<char>>,
    pub verified: Option<bool>,
}

/// A variable value as NGINX keeps it: its flags, its length and its bytes.
#[derive(Debug)]
pub struct VariableValue {
    pub valid: bool,
    pub no_cacheable: bool,
    pub not_found: bool,
    pub len: u32,
    pub data: Vec<u8>,
}

/// What a variable value holds.
#[verifier::ext_equal]
pub struct ValueView {
    pub valid: bool,
    pub no_cacheable: bool,
    pub not_found: bool,
    pub len: u32,
    pub data: Seq<u8>,
}

/// How reading a variable went.
#[derive(Clone, Copy, Debug, PartialEq, Eq, Structural)]
pub enum Status {
    Done,
    Failed,
}

impl View for AltchaCtx {
    type V = CtxView;

    open spec fn view(&self) -> CtxView {
        CtxView { challenge_json: text_view(self.challenge_json), verified: self.verified }
    }
}

impl View for VariableValue {
    type V = ValueView;

    open spec fn view(&self) -> ValueView {
        ValueView {
            valid: self.valid,
            no_cacheable: self.no_cacheable,
            not_found: self.not_found,
            len: self.len,
            data: self.data@,
        }
    }
}

impl Default for AltchaCtx {
    /// The context of a request that has read nothing.
    fn default() -> (r: Self)
        ensures
            r@ == (CtxView { challenge_json: None, verified: None }),
    {
        AltchaCtx { challenge_json: None, verified: None }
    }
}

/// A value that is found, cacheable, and made of some bytes.
pub open spec fn bound(data: Seq<u8>) -> ValueView {
    ValueView {
        valid: true,
        no_cacheable: false,
        not_found: false,
        len: data.len() as u32,
        data,
    }
}

/// The bytes of an answer: `1` for yes, `0` for no.
pub open spec fn answer_bytes(value: bool) -> Seq<u8> {
    if value {
        seq![49u8]
    } else {
        seq![48u8]
    }
}

/// Binds a variable to a text.
pub fn bind_str(v: &mut VariableValue, s: &str)
    ensures
        final(v)@ == bound(encode_utf8(s@)),
{
    let data = s.as_bytes_vec();
    v.valid = true;
    v.no_cacheable = false;
    v.not_found = false;
    v.len = #[verifier::truncate] (data.len() as u32);
    v.data = data;
}

/// Binds a variable to an answer: `1` for yes, `0` for no.
pub fn bind_static_bool(v: &mut VariableValue, value: bool)
    ensures
        final(v)@ == bound(answer_bytes(value)),
{
    let data: Vec<u8> = if value {
        vec![49u8]
    } else {
        vec![48u8]
    };
    v.valid = true;
    v.no_cacheable = false;
    v.not_found = false;
    v.len = 1;
    v.data = data;
    assert(v.data@ =~= answer_bytes(value));
}

/// Whether reading `$altcha_challenge` takes a new challenge: none is remembered,
/// and there is a secret to sign one with.
pub open spec fn must_issue(conf: Option<ConfigView>, ctx: CtxView) -> bool {
    &&& ctx.challenge_json is None
    &&& conf matches Some(c)
    &&& c.hmac_signature_secret is Some
}

/// Whether reading `$altcha_challenge` can go like this. A remembered challenge
/// is handed out again. Without a configuration the read fails. Without a secret
/// to sign with there is no value. Otherwise a challenge is issued from the
/// values in force, written out, remembered and handed out.
pub open spec fn challenge_read(
    conf: Option<ConfigView>,
    now: u64,
    ctx: CtxView,
    v: ValueView,
    new_ctx: CtxView,
    new_v: ValueView,
    status: Status,
) -> bool {
    match (ctx.challenge_json, conf) {
        (Some(json), _) => {
            &&& status == Status::Done
            &&& new_ctx == ctx
            &&& new_v == bound(encode_utf8(json))
        },
        (None, None) => {
            &&& status == Status::Failed
            &&& new_ctx == ctx
            &&& new_v == v
        },
        (None, Some(conf)) => if conf.hmac_signature_secret is None {
            &&& status == Status::Done
            &&& new_ctx == ctx
            &&& new_v == (ValueView { not_found: true, ..v })
        } else {
            &&& status == Status::Done
            &&& exists|c: ChallengeView|
                {
                    &&& #[trigger] issued_from(c, options_at(conf, now))
                    &&& drawn_from(c, options_at(conf, now))
                    &&& challenge_json(c) is Some
                    &&& new_ctx == (CtxView { challenge_json: challenge_json(c), ..ctx })
                    &&& new_v == bound(encode_utf8(challenge_json(c)->0))
                }
        },
    }
}

/// Whether reading `$altcha_verified` can go like this. A remembered answer is
/// handed out again; otherwise the submission is answered, and the answer
/// remembered and handed out.
pub open spec fn verified_read(
    conf: Option<ConfigView>,
    value: Option<Seq<u8>>,
    ctx: CtxView,
    new_ctx: CtxView,
    new_v: ValueView,
    status: Status,
) -> bool {
    &&& status == Status::Done
    &&& new_ctx.verified is Some
    &&& new_ctx == (CtxView { verified: new_ctx.verified, ..ctx })
    &&& new_v == bound(answer_bytes(new_ctx.verified->0))
    &&& match ctx.verified {
        Some(answer) => new_ctx.verified == Some(answer),
        None => possible_answer(conf, value, new_ctx.verified->0),
    }
}

/// Writes out a challenge that was issued; nothing, if issuing it failed.
pub fn write_challenge(created: Result<Challenge, altcha::Error>) -> (r: Option<String>)
    ensures
        text_view(r) == (match created {
            Ok(c) => challenge_json(c@),
            Err(_) => None,
        }),
        created matches Ok(c) ==> (c@.parameters.data is None ==> r is Some),
{
    match created {
        Ok(c) => match to_json(&c) {
            Ok(json) => Some(json),
            Err(_) => None,
        },
        Err(_) => None,
    }
}

/// Remembers a challenge that was written out and hands it out; fails if there
/// is none.
pub fn publish_challenge(ctx: &mut AltchaCtx, v: &mut VariableValue, json: Option<String>) -> (r:
    Status)
    ensures
        match text_view(json) {
            Some(json) => {
                &&& r == Status::Done
                &&& final(ctx)@ == (CtxView { challenge_json: Some(json), ..old(ctx)@ })
                &&& final(v)@ == bound(encode_utf8(json))
            },
            None => {
                &&& r == Status::Failed
                &&& final(ctx)@ == old(ctx)@
                &&& final(v)@ == old(v)@
            },
        },
{
    match json {
        Some(s) => {
            bind_str(v, s.as_str());
            ctx.challenge_json = Some(s);
            Status::Done
        },
        None => Status::Failed,
    }
}

/// Reads `$altcha_challenge`: a fresh challenge in JSON, one per request. Takes
/// the moment of the read, in seconds after the epoch.
pub fn challenge_variable(
    conf: Option<&ModuleConfig>,
    now: u64,
    ctx: &mut AltchaCtx,
    v: &mut VariableValue,
) -> (r: Status)
    requires
        must_issue(conf_view(conf), old(ctx)@) ==> now + conf->0@.effective_expires().secs
            <= u64::MAX,
    ensures
        challenge_read(conf_view(conf), now, old(ctx)@, old(v)@, final(ctx)@, final(v)@, r),
{
    if let Some(json) = &ctx.challenge_json {
        bind_str(v, json.as_str());
        return Status::Done;
    }
    let conf = match conf {
        Some(c) => c,
        None => return Status::Failed,
    };
    if conf.hmac_signature_secret.is_none() {
        v.not_found = true;
        return Status::Done;
    }
    let created = issue_challenge(challenge_options(conf, now));
    assert(created matches Ok(c) ==> issued_from(c@, options_at(conf@, now)));
    publish_challenge(ctx, v, write_challenge(created))
}

/// The handle of the expression to evaluate before `$altcha_verified` is read.
/// There is none if the answer is remembered, or will be no without it.
pub fn input_to_evaluate(conf: Option<&ModuleConfig>, ctx: &AltchaCtx) -> (r: Option<usize>)
    ensures
        r == (if ctx@.verified is None && conf is Some && can_verify(conf->0@) {
            conf->0@.verify_input
        } else {
            None
        }),
{
    if ctx.verified.is_some() {
        return None;
    }
    match conf {
        Some(c) => {
            if c.hmac_signature_secret.is_none() || c.hmac_key_signature_secret.is_none() {
                return None;
            }
            c.verify_input
        },
        None => None,
    }
}

/// Remembers the answer that an outcome amounts to and hands it out. With the
/// status comes the reason why the submission could not be checked, if it could
/// not.
pub fn publish_answer(
    ctx: &mut AltchaCtx,
    v: &mut VariableValue,
    outcome: Result<Verification, VerifyError>,
) -> (r: (Status, Option<VerifyError>))
    ensures
        r.0 == Status::Done,
        r.1 == (match outcome {
            Ok(_) => None,
            Err(e) => Some(e),
        }),
        final(ctx)@ == (CtxView {
            verified: Some(outcome is Ok && outcome->Ok_0.verified),
            ..old(ctx)@
        }),
        final(v)@ == bound(answer_bytes(outcome is Ok && outcome->Ok_0.verified)),
{
    let verified = verdict(&outcome);
    ctx.verified = Some(verified);
    bind_static_bool(v, verified);
    match outcome {
        Ok(_) => (Status::Done, None),
        Err(e) => (Status::Done, Some(e)),
    }
}

/// Reads `$altcha_verified`: `1` if the configured input yielded a solved,
/// signed, unexpired payload, `0` otherwise. Takes what the input yielded, or
/// `None` if it was not evaluated or could not be. With the status comes the
/// reason why the submission could not be checked, if it had to be and could
/// not.
pub fn verified_variable(
    conf: Option<&ModuleConfig>,
    value: Option<&[u8]>,
    ctx: &mut AltchaCtx,
    v: &mut VariableValue,
) -> (r: (Status, Option<VerifyError>))
    ensures
        verified_read(conf_view(conf), bytes_view(value), old(ctx)@, final(ctx)@, final(v)@, r.0),
        old(ctx)@.verified is Some ==> r.1 is None,
        old(ctx)@.verified is None ==> match r.1 {
            Some(e) => {
                &&& unchecked_for(conf_view(conf), bytes_view(value), e)
                &&& final(ctx)@.verified == Some(false)
            },
            None => {
                &&& submitted(conf_view(conf), bytes_view(value)) is Some
                &&& exists|outcome: Verification|
                    {
                        &&& #[trigger] possible_outcome(
                            conf->0@,
                            submitted(conf_view(conf), bytes_view(value))->0,
                            Some(outcome),
                        )
                        &&& final(ctx)@.verified == Some(outcome.verified)
                    }
            },
        },
{
    if let Some(answer) = ctx.verified {
        bind_static_bool(v, answer);
        return (Status::Done, None);
    }
    publish_answer(ctx, v, verify_submission(conf, value))
}

/// One challenge per request: once a read of `$altcha_challenge` has left a
/// challenge behind, it handed that one out, and every later read in that
/// request, whenever and under whatever configuration, hands out the same.
pub proof fn challenge_stays_the_same(
    conf: Option<ConfigView>,
    now: u64,
    ctx: CtxView,
    v: ValueView,
    ctx_between: CtxView,
    value: ValueView,
    status: Status,
    later_conf: Option<ConfigView>,
    later: u64,
    later_v: ValueView,
    later_ctx: CtxView,
    later_value: ValueView,
    later_status: Status,
)
    requires
        challenge_read(conf, now, ctx, v, ctx_between, value, status),
        ctx_between.challenge_json is Some,
        challenge_read(
            later_conf,
            later,
            ctx_between,
            later_v,
            later_ctx,
            later_value,
            later_status,
        ),
    ensures
        status == Status::Done,
        later_status == Status::Done,
        later_value == value,
        later_ctx == ctx_between,
{
}

/// One answer per request: once `$altcha_verified` has been read, every later
/// read in that request hands out the same answer, whatever the input yields by
/// then.
pub proof fn answer_stays_the_same(
    conf: Option<ConfigView>,
    input: Option<Seq<u8>>,
    ctx: CtxView,
    ctx_between: CtxView,
    value: ValueView,
    status: Status,
    later_conf: Option<ConfigView>,
    later_input: Option<Seq<u8>>,
    later_ctx: CtxView,
    later_value: ValueView,
    later_status: Status,
)
    requires
        verified_read(conf, input, ctx, ctx_between, value, status),
        verified_read(
            later_conf,
            later_input,
            ctx_between,
            later_ctx,
            later_value,
            later_status,
        ),
    ensures
        later_value == value,
        later_ctx == ctx_between,
{
}

/// `$altcha_verified` is `1` or `0` and nothing else, and is always found.
pub proof fn answer_is_one_or_zero(
    conf: Option<ConfigView>,
    input: Option<Seq<u8>>,
    ctx: CtxView,
    new_ctx: CtxView,
    value: ValueView,
    status: Status,
)
    requires
        verified_read(conf, input, ctx, new_ctx, value, status),
    ensures
        status == Status::Done,
        value.valid && !value.not_found,
        value.len == 1,
        value.data == seq![49u8] || value.data == seq![48u8],
{
}

/// A fresh yes is only given to a payload that is signed and solved: its
/// challenge bears the signature of the configured secret, and its key either
/// has the signature that the challenge asks for or solves it.
pub proof fn yes_is_for_signed_and_solved_payloads(
    conf: Option<ConfigView>,
    input: Option<Seq<u8>>,
    ctx: CtxView,
    new_ctx: CtxView,
    value: ValueView,
    status: Status,
)
    requires
        verified_read(conf, input, ctx, new_ctx, value, status),
        ctx.verified is None,
        value.data == answer_bytes(true),
    ensures
        conf is Some,
        can_verify(conf->0),
        submitted(conf, input) is Some,
        ({
            let p = submitted(conf, input)->0;
            let hmac_algorithm = conf->0.effective_hmac_algorithm();
            &&& p.challenge.signature is Some
            &&& p.challenge.signature == challenge_signature(
                p.challenge.parameters,
                hmac_algorithm,
                conf->0.hmac_signature_secret->0,
            )
            &&& match p.challenge.parameters.key_signature {
                Some(signature) => key_signature(
                    p.solution.derived_key,
                    hmac_algorithm,
                    conf->0.hmac_key_signature_secret->0,
                ) == Some(signature),
                None => solves(p.solution, p.challenge),
            }
        }),
{
    assert(answer_bytes(true)[0] != answer_bytes(false)[0]);
    good_payload_is_signed_and_solved(conf->0, submitted(conf, input)->0);
}

/// Without all that verification needs, the answer is no, whatever is submitted.
pub proof fn incomplete_configuration_answers_no(
    conf: Option<ConfigView>,
    input: Option<Seq<u8>>,
    ctx: CtxView,
    new_ctx: CtxView,
    value: ValueView,
    status: Status,
)
    requires
        verified_read(conf, input, ctx, new_ctx, value, status),
        ctx.verified is None,
        conf is None || !can_verify(conf->0),
    ensures
        value.data == answer_bytes(false),
{
}

/// A challenge that was handed out is good once it is solved: whatever solution
/// to it comes back with it, in any kind of base64, submits a solved
/// challenge, and the answer to that is yes unless it has expired.
pub proof fn handed_out_challenge_is_good_once_solved(
    conf: ConfigView,
    now: u64,
    ctx: CtxView,
    v: ValueView,
    new_ctx: CtxView,
    new_v: ValueView,
)
    requires
        conf.valid(),
        can_verify(conf),
        must_issue(Some(conf), ctx),
        challenge_read(Some(conf), now, ctx, v, new_ctx, new_v, Status::Done),
    ensures
        new_ctx.challenge_json is Some,
        new_v.data == encode_utf8(new_ctx.challenge_json->0),
        exists|c: ChallengeView|
            {
                &&& #[trigger] issued_from(c, options_at(conf, now))
                &&& forall|wrapping: Wrapping, solution: SolutionView|
                    solves(solution, c) && is_hex(solution.derived_key) ==> #[trigger] submits_solved(
                        conf,
                        encoded(wrapping, submission(new_ctx.challenge_json->0, solution)),
                        wrapping,
                        c,
                        now,
                        solution,
                    ) && unexpired_answer(conf, PayloadView { challenge: c, solution }) == Some(true)
            },
{
    let c = choose|c: ChallengeView|
        {
            &&& #[trigger] issued_from(c, options_at(conf, now))
            &&& challenge_json(c) is Some
            &&& new_ctx == (CtxView { challenge_json: challenge_json(c), ..ctx })
            &&& new_v == bound(encode_utf8(challenge_json(c)->0))
        };
    assert forall|wrapping: Wrapping, solution: SolutionView|
        solves(solution, c) && is_hex(solution.derived_key) implies #[trigger] submits_solved(
        conf,
        encoded(wrapping, submission(new_ctx.challenge_json->0, solution)),
        wrapping,
        c,
        now,
        solution,
    ) && unexpired_answer(conf, PayloadView { challenge: c, solution }) == Some(true) by {
        solved_challenge_is_good(conf, c, now, solution);
    }
}

/// The two variables do not disturb each other: reading one leaves what is
/// remembered of the other as it is.
pub proof fn variables_are_independent(
    conf: Option<ConfigView>,
    now: u64,
    input: Option<Seq<u8>>,
    ctx: CtxView,
    v: ValueView,
    new_ctx: CtxView,
    new_v: ValueView,
    status: Status,
)
    ensures
        challenge_read(conf, now, ctx, v, new_ctx, new_v, status) ==> new_ctx.verified
            == ctx.verified,
        verified_read(conf, input, ctx, new_ctx, new_v, status) ==> new_ctx.challenge_json
            == ctx.challenge_json,
{
}

/// A request takes a new challenge where none is remembered and there is a secret
/// to sign one with, whatever else is remembered or configured.
pub proof fn new_challenge_is_due_without_a_remembered_one(conf: Option<ConfigView>, ctx: CtxView)
    ensures
        must_issue(conf, ctx) <==> {
            &&& ctx.challenge_json is None
            &&& conf is Some
            &&& conf->0.hmac_signature_secret is Some
        },
{
}

/// Wherever there is a secret to sign with, or a challenge is remembered, reading
/// `$altcha_challenge` ends well and hands a challenge out, whatever is remembered
/// of `$altcha_verified`.
pub proof fn challenge_is_always_handed_out(
    conf: Option<ConfigView>,
    now: u64,
    ctx: CtxView,
    v: ValueView,
    new_ctx: CtxView,
    new_v: ValueView,
    status: Status,
)
    requires
        challenge_read(conf, now, ctx, v, new_ctx, new_v, status),
        ctx.challenge_json is Some || (conf is Some && conf->0.hmac_signature_secret is Some),
    ensures
        status == Status::Done,
        new_ctx.challenge_json is Some,
        ctx.challenge_json is Some ==> new_ctx.challenge_json == ctx.challenge_json,
        new_ctx.verified == ctx.verified,
        new_v.valid,
        !new_v.no_cacheable,
        !new_v.not_found,
        new_v.data == encode_utf8(new_ctx.challenge_json->0),
        new_v.data.len() <= u32::MAX ==> new_v.len == new_v.data.len(),
{
}

/// Without a remembered challenge and a secret nothing is handed out or
/// remembered. Without a configuration that is an error; without a secret the
/// value is marked as not found, and left as it was otherwise.
pub proof fn no_challenge_without_a_secret(
    conf: Option<ConfigView>,
    now: u64,
    ctx: CtxView,
    v: ValueView,
    new_ctx: CtxView,
    new_v: ValueView,
    status: Status,
)
    requires
        challenge_read(conf, now, ctx, v, new_ctx, new_v, status),
        ctx.challenge_json is None,
        conf is None || conf->0.hmac_signature_secret is None,
    ensures
        new_ctx == ctx,
        status == Status::Failed <==> conf is None,
        new_v.not_found == (v.not_found || conf is Some),
        new_v.valid == v.valid,
        new_v.no_cacheable == v.no_cacheable,
        new_v.len == v.len,
        new_v.data == v.data,
{
}

/// A new challenge is drawn for the request, from the settings and the moment of
/// the read, and is handed out as it was drawn: its algorithm, cost, key length
/// and prefix are those set, or else the defaults, it expires one lifetime after
/// that moment, and it is signed with the configured secret.
pub proof fn new_challenge_is_drawn_from_the_settings(
    conf: ConfigView,
    now: u64,
    ctx: CtxView,
    v: ValueView,
    new_ctx: CtxView,
    new_v: ValueView,
    status: Status,
)
    requires
        challenge_read(Some(conf), now, ctx, v, new_ctx, new_v, status),
        ctx.challenge_json is None,
        conf.hmac_signature_secret is Some,
    ensures
        exists|c: ChallengeView|
            {
                &&& #[trigger] drawn_from(c, options_at(conf, now))
                &&& challenge_json(c) == new_ctx.challenge_json
                &&& conf.algorithm matches Some(a) ==> c.parameters.algorithm == a
                &&& conf.algorithm is None ==> c.parameters.algorithm == "PBKDF2/SHA-256"@
                &&& conf.cost matches Some(n) ==> c.parameters.cost == n
                &&& conf.cost is None ==> c.parameters.cost == 100_000
                &&& conf.key_length matches Some(n) ==> c.parameters.key_length == n
                &&& conf.key_length is None ==> c.parameters.key_length == 32
                &&& conf.key_prefix matches Some(p) ==> c.parameters.key_prefix == p
                &&& conf.key_prefix is None ==> c.parameters.key_prefix == "00"@
                &&& c.parameters.expires_at is Some
                &&& conf.expires matches Some(t) ==> now + t.secs <= u64::MAX
                    ==> c.parameters.expires_at->0 == now + t.secs
                &&& conf.expires is None ==> now + 300 <= u64::MAX ==> c.parameters.expires_at->0
                    == now + 300
                &&& c.signature is Some
                &&& conf.hmac_algorithm matches Some(a) ==> c.signature == challenge_signature(
                    c.parameters,
                    a,
                    conf.hmac_signature_secret->0,
                )
                &&& conf.hmac_algorithm is None ==> c.signature == challenge_signature(
                    c.parameters,
                    HmacAlgorithm::Sha256,
                    conf.hmac_signature_secret->0,
                )
            },
{
    let c = choose|c: ChallengeView|
        {
            &&& #[trigger] issued_from(c, options_at(conf, now))
            &&& drawn_from(c, options_at(conf, now))
            &&& challenge_json(c) is Some
            &&& new_ctx == (CtxView { challenge_json: challenge_json(c), ..ctx })
            &&& new_v == bound(encode_utf8(challenge_json(c)->0))
        };
    options_carry_the_settings(conf, now);
    issued_challenge_carries_its_options(c, options_at(conf, now));
    assert(drawn_from(c, options_at(conf, now)));
}

/// Reading `$altcha_verified` hands out, as `1` for yes and `0` for no, the answer
/// that is remembered from then on, and leaves a remembered challenge alone. The
/// answer is the one remembered before, if there was one, and otherwise one that
/// the submission can be given.
pub proof fn answer_handed_out_is_the_one_remembered(
    conf: Option<ConfigView>,
    input: Option<Seq<u8>>,
    ctx: CtxView,
    new_ctx: CtxView,
    value: ValueView,
    status: Status,
)
    requires
        verified_read(conf, input, ctx, new_ctx, value, status),
    ensures
        status == Status::Done,
        new_ctx.challenge_json == ctx.challenge_json,
        new_ctx.verified is Some,
        ctx.verified is Some ==> new_ctx.verified == ctx.verified,
        ctx.verified is None ==> possible_answer(conf, input, new_ctx.verified->0),
        new_ctx.verified == Some(true) ==> value.data == seq![49u8],
        new_ctx.verified == Some(false) ==> value.data == seq![48u8],
        value.len == 1,
        value.valid,
        !value.no_cacheable,
        !value.not_found,
{
}

/// A fresh answer is how a check of the submitted payload turned out: yes where
/// one found it verified, no where one found it expired or not verified or failed;
/// and no where there is no payload to check.
pub proof fn fresh_answer_is_how_a_check_turned_out(
    conf: Option<ConfigView>,
    input: Option<Seq<u8>>,
    ctx: CtxView,
    new_ctx: CtxView,
    value: ValueView,
    status: Status,
)
    requires
        verified_read(conf, input, ctx, new_ctx, value, status),
        ctx.verified is None,
    ensures
        submitted(conf, input) is None ==> value.data == seq![48u8],
        submitted(conf, input) matches Some(p) ==> exists|outcome: Option<Verification>|
            {
                &&& #[trigger] possible_outcome(conf->0, p, outcome)
                &&& value.data == if outcome == Some(
                    Verification { expired: false, verified: true },
                ) {
                    seq![49u8]
                } else {
                    seq![48u8]
                }
            },
{
    submission_is_answered_as_found(conf, input, new_ctx.verified->0);
}

/// The views of a request's memory and of a variable show every field.
pub proof fn memory_views_show_every_field(ctx: AltchaCtx, v: VariableValue)
    ensures
        ctx.challenge_json matches Some(s) ==> ctx@.challenge_json == Some(s@),
        ctx.challenge_json is None ==> ctx@.challenge_json is None,
        ctx@.verified == ctx.verified,
        v@.valid == v.valid,
        v@.no_cacheable == v.no_cacheable,
        v@.not_found == v.not_found,
        v@.len == v.len,
        v@.data == v.data@,
{
}

} // verus!
