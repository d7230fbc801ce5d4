//! Codex usage limits: the shape of the usage endpoint's reply, how it maps to
//! limit snapshots, and the address and headers of the request.
use vstd::prelude::*;
use crate::domain::{
    opt_view, ChatgptPlanType, LimitWindow, LimitsSnapshot, LimitsSnapshotSet, OAuthSession,
};
use crate::interop::{header_value_accepts, header_value_text, utc_from_timestamp, utc_instant};
use crate::text::{
    chars_of, ends_with, ends_with_chars, i64_decimal, push_all, signed_decimal, starts_with,
    starts_with_chars, str_eq, string_from, text, trim_end_char, trim_end_char_chars,
};

verus! {

/// One usage window as the endpoint reports it. `used_percent_bits` holds the
/// IEEE-754 bits of the used percentage.
pub struct UsageWindow {
    pub used_percent_bits: u64,
    pub limit_window_seconds: Option<i64>,
    pub reset_at: i64,
}

/// The primary and secondary windows of one rate limit.
pub struct UsageRateLimitDetails {
    pub primary_window: Option<UsageWindow>,
    pub secondary_window: Option<UsageWindow>,
}

/// A metered feature with a rate limit of its own.
pub struct AdditionalUsageLimit {
    pub metered_feature: String,
    pub limit_name: String,
    pub rate_limit: Option<UsageRateLimitDetails>,
}

/// The body of the usage endpoint's reply.
pub struct UsagePayload {
    pub account_id: Option<String>,
    pub email: Option<String>,
    pub plan_type: Option<String>,
    pub rate_limit: Option<UsageRateLimitDetails>,
    pub additional_rate_limits: Option<Vec<AdditionalUsageLimit>>,
}

/// The plan named by the endpoint; anything unrecognised is `Unknown`.
pub open spec fn plan_of(raw: Option<Seq<char>>) -> ChatgptPlanType {
    match raw {
        Some(s) => if s == "free"@ {
            ChatgptPlanType::Free
        } else if s == "plus"@ {
            ChatgptPlanType::Plus
        } else if s == "pro"@ {
            ChatgptPlanType::Pro
        } else if s == "team"@ {
            ChatgptPlanType::Team
        } else if s == "enterprise"@ {
            ChatgptPlanType::Enterprise
        } else {
            ChatgptPlanType::Unknown
        },
        None => ChatgptPlanType::Unknown,
    }
}

/// Integer division rounding toward zero, as Rust's `/` does.
pub open spec fn div_toward_zero(a: int, b: int) -> int {
    if a >= 0 {
        a / b
    } else {
        -((-a) / b)
    }
}

/// The label of a window of the given length: `5h`, `weekly`, whole minutes, or
/// `window` when the length is unknown.
pub open spec fn window_label_of(seconds: Option<i64>) -> Seq<char> {
    match seconds {
        Some(s) => if s == 18000 {
            "5h"@
        } else if s == 604800 {
            "weekly"@
        } else {
            signed_decimal(div_toward_zero(s as int, 60)) + "m"@
        },
        None => "window"@,
    }
}

/// `w` is the snapshot window made from the reported window `u`.
pub open spec fn window_made_from(w: LimitWindow, u: UsageWindow) -> bool {
    &&& w.label@ == window_label_of(u.limit_window_seconds)
    &&& w.used_percent_bits == u.used_percent_bits
    &&& w.limit_window_seconds == u.limit_window_seconds
    &&& w.resets_at == utc_instant(u.reset_at)
}

pub open spec fn opt_window_made_from(w: Option<LimitWindow>, u: Option<UsageWindow>) -> bool {
    match (w, u) {
        (Some(w), Some(u)) => window_made_from(w, u),
        (None, None) => true,
        _ => false,
    }
}

pub open spec fn primary_of(rl: Option<UsageRateLimitDetails>) -> Option<UsageWindow> {
    match rl {
        Some(d) => d.primary_window,
        None => None,
    }
}

pub open spec fn secondary_of(rl: Option<UsageRateLimitDetails>) -> Option<UsageWindow> {
    match rl {
        Some(d) => d.secondary_window,
        None => None,
    }
}

/// `s` is the snapshot of the limit `id` (named `name`) with the reported windows
/// `rl`, under `plan`.
pub open spec fn snapshot_made_from(
    s: LimitsSnapshot,
    id: Seq<char>,
    name: Option<Seq<char>>,
    plan: ChatgptPlanType,
    rl: Option<UsageRateLimitDetails>,
) -> bool {
    &&& s.limit_id@ == id
    &&& opt_view(s.limit_name) == name
    &&& s.plan_type == plan
    &&& opt_window_made_from(s.primary, primary_of(rl))
    &&& opt_window_made_from(s.secondary, secondary_of(rl))
}

/// The additional limits reported, none where the field is absent.
pub open spec fn additional_of(p: UsagePayload) -> Seq<AdditionalUsageLimit> {
    match p.additional_rate_limits {
        Some(v) => v@,
        None => Seq::empty(),
    }
}

/// `r` is the snapshot set made from the reply `p`.
pub open spec fn snapshot_set_made_from(r: LimitsSnapshotSet, p: UsagePayload) -> bool {
    let plan = plan_of(opt_view(p.plan_type));
    let extra = additional_of(p);
    &&& r.email == p.email
    &&& r.account_id == p.account_id
    &&& r.plan_type == plan
    &&& snapshot_made_from(r.primary_limit, "codex"@, None, plan, p.rate_limit)
    &&& r.additional_limits@.len() == extra.len()
    &&& forall|i: int|
        0 <= i < extra.len() ==> #[trigger] snapshot_made_from(
            r.additional_limits@[i],
            extra[i].metered_feature@,
            Some(extra[i].limit_name@),
            plan,
            extra[i].rate_limit,
        )
}

/// The plan named by the endpoint's `plan_type`.
pub fn map_plan(raw: Option<&str>) -> (r: ChatgptPlanType)
    ensures
        r == plan_of(match raw {
            Some(s) => Some(s@),
            None => None,
        }),
{
    proof {
        reveal_strlit("free");
        reveal_strlit("plus");
        reveal_strlit("pro");
        reveal_strlit("team");
        reveal_strlit("enterprise");
    }
    match raw {
        Some(s) => if str_eq(s, "free") {
            ChatgptPlanType::Free
        } else if str_eq(s, "plus") {
            ChatgptPlanType::Plus
        } else if str_eq(s, "pro") {
            ChatgptPlanType::Pro
        } else if str_eq(s, "team") {
            ChatgptPlanType::Team
        } else if str_eq(s, "enterprise") {
            ChatgptPlanType::Enterprise
        } else {
            ChatgptPlanType::Unknown
        },
        None => ChatgptPlanType::Unknown,
    }
}

/// `seconds / 60` with Rust's rounding toward zero.
fn minutes_toward_zero(seconds: i64) -> (r: i64)
    ensures
        r as int == div_toward_zero(seconds as int, 60),
{
    if seconds >= 0 {
        seconds / 60
    } else {
        let m: u64 = (-(seconds + 1)) as u64 + 1;
        assert(m as int == -(seconds as int));
        let q: u64 = m / 60;
        -(q as i64)
    }
}

/// The label of a window of the given length.
pub fn window_label(seconds: Option<i64>) -> (r: String)
    ensures
        r@ == window_label_of(seconds),
{
    proof {
        reveal_strlit("5h");
        reveal_strlit("weekly");
        reveal_strlit("window");
    }
    match seconds {
        Some(s) => if s == 18000 {
            text("5h")
        } else if s == 604800 {
            text("weekly")
        } else {
            let mut out = i64_decimal(minutes_toward_zero(s));
            out.push('m');
            proof {
                reveal_strlit("m");
            }
            string_from(out.as_slice())
        },
        None => text("window"),
    }
}

/// The snapshot window made from a reported window.
pub fn map_window(window: &UsageWindow) -> (r: LimitWindow)
    ensures
        window_made_from(r, *window),
{
    LimitWindow {
        label: window_label(window.limit_window_seconds),
        used_percent_bits: window.used_percent_bits,
        limit_window_seconds: window.limit_window_seconds,
        resets_at: utc_from_timestamp(window.reset_at),
    }
}

fn map_opt_window(w: &Option<UsageWindow>) -> (r: Option<LimitWindow>)
    ensures
        opt_window_made_from(r, *w),
{
    match w {
        Some(u) => Some(map_window(u)),
        None => None,
    }
}

fn map_snapshot(
    id: String,
    name: Option<String>,
    plan: ChatgptPlanType,
    rl: &Option<UsageRateLimitDetails>,
) -> (r: LimitsSnapshot)
    ensures
        snapshot_made_from(r, id@, opt_view(name), plan, *rl),
{
    let (primary, secondary) = match rl {
        Some(d) => (map_opt_window(&d.primary_window), map_opt_window(&d.secondary_window)),
        None => (None, None),
    };
    LimitsSnapshot { limit_id: id, limit_name: name, plan_type: plan, primary, secondary }
}

/// The snapshot set made from the endpoint's reply: the `codex` limit first,
/// then each additional limit in the order reported, all under the reported plan.
pub fn map_usage_payload(payload: UsagePayload) -> (r: LimitsSnapshotSet)
    ensures
        snapshot_set_made_from(r, payload),
{
    let raw_plan: Option<&str> = match &payload.plan_type {
        Some(s) => Some(s.as_str()),
        None => None,
    };
    let plan_type = map_plan(raw_plan);
    proof {
        reveal_strlit("codex");
    }
    let primary_limit = map_snapshot(text("codex"), None, plan_type, &payload.rate_limit);
    let ghost extra = additional_of(payload);
    let mut additional_limits: Vec<LimitsSnapshot> = Vec::new();
    match &payload.additional_rate_limits {
        Some(entries) => {
            let mut i: usize = 0;
            while i < entries.len()
                invariant
                    i <= entries@.len(),
                    extra == entries@,
                    plan_type == plan_of(opt_view(payload.plan_type)),
                    additional_limits@.len() == i,
                    forall|k: int|
                        0 <= k < i ==> #[trigger] snapshot_made_from(
                            additional_limits@[k],
                            extra[k].metered_feature@,
                            Some(extra[k].limit_name@),
                            plan_type,
                            extra[k].rate_limit,
                        ),
                decreases entries@.len() - i,
            {
                let entry = &entries[i];
                let s = map_snapshot(
                    entry.metered_feature.clone(),
                    Some(entry.limit_name.clone()),
                    plan_type,
                    &entry.rate_limit,
                );
                additional_limits.push(s);
                i = i + 1;
            }
        },
        None => {},
    }
    LimitsSnapshotSet {
        email: payload.email,
        account_id: payload.account_id,
        plan_type,
        primary_limit,
        additional_limits,
    }
}

/// The base address as the client keeps it: trailing `/` removed, and
/// `/backend-api` added to a ChatGPT address that lacks it.
pub open spec fn normalized_base_url(base: Seq<char>) -> Seq<char> {
    let t = trim_end_char(base, '/');
    if ends_with(t, "/backend-api"@) {
        t
    } else if starts_with(t, "https://chatgpt.com"@) || starts_with(t, "https://chat.openai.com"@) {
        t + "/backend-api"@
    } else {
        t
    }
}

/// The base address of the usage endpoint, normalised.
pub fn normalize_base_url(base_url: String) -> (r: String)
    ensures
        r@ == normalized_base_url(base_url@),
{
    proof {
        reveal_strlit("/backend-api");
        reveal_strlit("https://chatgpt.com");
        reveal_strlit("https://chat.openai.com");
    }
    let t = trim_end_char_chars(chars_of(base_url.as_str()).as_slice(), '/');
    let suffix = chars_of("/backend-api");
    if ends_with_chars(t.as_slice(), suffix.as_slice()) {
        string_from(t.as_slice())
    } else if starts_with_chars(t.as_slice(), chars_of("https://chatgpt.com").as_slice())
        || starts_with_chars(t.as_slice(), chars_of("https://chat.openai.com").as_slice()) {
        let mut out = t;
        push_all(&mut out, suffix.as_slice());
        string_from(out.as_slice())
    } else {
        string_from(t.as_slice())
    }
}

/// Why the headers of a usage request could not be built.
#[derive(Debug, Clone, Copy, PartialEq, Eq, Structural)]
pub enum LimitsError {
    InvalidAccessTokenHeader,
    InvalidAccountIdHeader,
}

impl LimitsError {
    /// The message shown for this error.
    pub fn message(&self) -> (r: String)
        ensures
            r@ == match self {
                LimitsError::InvalidAccessTokenHeader => "invalid access token header"@,
                LimitsError::InvalidAccountIdHeader => "invalid account id header"@,
            },
    {
        proof {
            reveal_strlit("invalid access token header");
            reveal_strlit("invalid account id header");
        }
        match self {
            LimitsError::InvalidAccessTokenHeader => text("invalid access token header"),
            LimitsError::InvalidAccountIdHeader => text("invalid account id header"),
        }
    }
}

/// One request header: name and value.
pub open spec fn header_view(h: (String, String)) -> (Seq<char>, Seq<char>) {
    (h.0@, h.1@)
}

/// The headers a usage request carries for `session`, or the header that cannot
/// be sent.
pub open spec fn usage_headers(session: OAuthSession) -> Result<Seq<(Seq<char>, Seq<char>)>, LimitsError> {
    let bearer = "Bearer "@ + session.tokens.access_token@;
    let base = seq![
        ("user-agent"@, "codex_cli_rs/0.120.0 shapeshifter"@),
        ("originator"@, "codex_cli_rs"@),
        ("authorization"@, bearer),
    ];
    if !header_value_text(bearer) {
        Err(LimitsError::InvalidAccessTokenHeader)
    } else {
        match session.chatgpt_account_id {
            Some(a) => if header_value_text(a@) {
                Ok(base.push(("chatgpt-account-id"@, a@)))
            } else {
                Err(LimitsError::InvalidAccountIdHeader)
            },
            None => Ok(base),
        }
    }
}

/// Client of the Codex usage endpoint: the normalised base address it calls.
pub struct CodexLimitsClient {
    base_url: String,
}

impl View for CodexLimitsClient {
    type V = Seq<char>;

    closed spec fn view(&self) -> Seq<char> {
        self.base_url@
    }
}

impl CodexLimitsClient {
    /// A client of the usage endpoint under `base_url`.
    pub fn new(base_url: String) -> (r: CodexLimitsClient)
        ensures
            r@ == normalized_base_url(base_url@),
    {
        CodexLimitsClient { base_url: normalize_base_url(base_url) }
    }

    /// The address of the usage endpoint.
    pub fn usage_url(&self) -> (r: String)
        ensures
            r@ == trim_end_char(self@, '/') + "/codex/usage"@,
    {
        proof {
            reveal_strlit("/codex/usage");
        }
        let mut out = trim_end_char_chars(chars_of(self.base_url.as_str()).as_slice(), '/');
        push_all(&mut out, chars_of("/codex/usage").as_slice());
        string_from(out.as_slice())
    }

    /// The headers of a usage request for `session`.
    pub fn headers(&self, session: &OAuthSession) -> (r: Result<Vec<(String, String)>, LimitsError>)
        ensures
            match (r, usage_headers(*session)) {
                (Ok(v), Ok(h)) => v@.map_values(|p: (String, String)| header_view(p)) == h,
                (Err(e), Err(f)) => e == f,
                _ => false,
            },
    {
        proof {
            reveal_strlit("Bearer ");
            reveal_strlit("user-agent");
            reveal_strlit("codex_cli_rs/0.120.0 shapeshifter");
            reveal_strlit("originator");
            reveal_strlit("codex_cli_rs");
            reveal_strlit("authorization");
            reveal_strlit("chatgpt-account-id");
        }
        let mut bearer = chars_of("Bearer ");
        push_all(&mut bearer, chars_of(session.tokens.access_token.as_str()).as_slice());
        let bearer = string_from(bearer.as_slice());
        let mut out: Vec<(String, String)> = Vec::new();
        out.push((text("user-agent"), text("codex_cli_rs/0.120.0 shapeshifter")));
        out.push((text("originator"), text("codex_cli_rs")));
        if !header_value_accepts(bearer.as_str()) {
            return Err(LimitsError::InvalidAccessTokenHeader);
        }
        out.push((text("authorization"), bearer));
        let ghost base = out@.map_values(|p: (String, String)| header_view(p));
        assert(base =~= seq![
            ("user-agent"@, "codex_cli_rs/0.120.0 shapeshifter"@),
            ("originator"@, "codex_cli_rs"@),
            ("authorization"@, "Bearer "@ + session.tokens.access_token@),
        ]);
        match &session.chatgpt_account_id {
            Some(a) => {
                if !header_value_accepts(a.as_str()) {
                    return Err(LimitsError::InvalidAccountIdHeader);
                }
                out.push((text("chatgpt-account-id"), a.clone()));
                assert(out@.map_values(|p: (String, String)| header_view(p)) =~= base.push(
                    ("chatgpt-account-id"@, a@),
                ));
            },
            None => {},
        }
        Ok(out)
    }
}

/// The snapshot window `w` carries the numbers of the reported window `u`: its
/// used share, its length and its reset instant, and is labelled by its length.
pub open spec fn carries(w: Option<LimitWindow>, u: Option<UsageWindow>) -> bool {
    match u {
        Some(u) => w matches Some(w) && w.used_percent_bits == u.used_percent_bits
            && w.limit_window_seconds == u.limit_window_seconds && w.resets_at == utc_instant(
            u.reset_at,
        ) && w.label@ == window_label_of(u.limit_window_seconds),
        None => w is None,
    }
}

/// Each limit of a mapped reply keeps its own windows: the codex limit's
/// primary and secondary windows carry the reply's primary and secondary
/// windows, and the `i`-th additional limit, named by its metered feature,
/// carries the primary and secondary windows that the reply reports for that
/// feature, whatever its other window holds.
pub proof fn lemma_reply_windows_carried(r: LimitsSnapshotSet, p: UsagePayload)
    requires
        snapshot_set_made_from(r, p),
    ensures
        carries(
            r.primary_limit.primary,
            match p.rate_limit {
                Some(d) => d.primary_window,
                None => None,
            },
        ),
        carries(
            r.primary_limit.secondary,
            match p.rate_limit {
                Some(d) => d.secondary_window,
                None => None,
            },
        ),
        match p.additional_rate_limits {
            Some(list) => {
                &&& r.additional_limits@.len() == list@.len()
                &&& forall|i: int|
                    0 <= i < list@.len() ==> {
                        &&& (#[trigger] r.additional_limits@[i]).limit_id@
                            == list@[i].metered_feature@
                        &&& carries(
                            r.additional_limits@[i].primary,
                            match list@[i].rate_limit {
                                Some(d) => d.primary_window,
                                None => None,
                            },
                        )
                        &&& carries(
                            r.additional_limits@[i].secondary,
                            match list@[i].rate_limit {
                                Some(d) => d.secondary_window,
                                None => None,
                            },
                        )
                    }
            },
            None => r.additional_limits@.len() == 0,
        },
{
    let extra = additional_of(p);
    let plan = plan_of(opt_view(p.plan_type));
    if let Some(list) = p.additional_rate_limits {
        assert(extra == list@);
        assert forall|i: int| 0 <= i < list@.len() implies {
            &&& (#[trigger] r.additional_limits@[i]).limit_id@ == list@[i].metered_feature@
            &&& carries(
                r.additional_limits@[i].primary,
                match list@[i].rate_limit {
                    Some(d) => d.primary_window,
                    None => None,
                },
            )
            &&& carries(
                r.additional_limits@[i].secondary,
                match list@[i].rate_limit {
                    Some(d) => d.secondary_window,
                    None => None,
                },
            )
        } by {
            assert(snapshot_made_from(
                r.additional_limits@[i],
                extra[i].metered_feature@,
                Some(extra[i].limit_name@),
                plan,
                extra[i].rate_limit,
            ));
        }
    }
}

/// Normalising a base address twice gives what normalising it once gives.
pub proof fn lemma_normalized_base_url_idempotent(base: Seq<char>)
    ensures
        normalized_base_url(normalized_base_url(base)) == normalized_base_url(base),
{
    reveal_strlit("/backend-api");
    reveal_strlit("https://chatgpt.com");
    reveal_strlit("https://chat.openai.com");
    let t = trim_end_char(base, '/');
    lemma_trim_end_char_done(base, '/');
    let n = normalized_base_url(base);
    if ends_with(t, "/backend-api"@) || !(starts_with(t, "https://chatgpt.com"@) || starts_with(
        t,
        "https://chat.openai.com"@,
    )) {
        assert(n == t);
        lemma_trim_end_char_fixed(t, '/');
    } else {
        let suffix = "/backend-api"@;
        assert(n == t + suffix);
        assert(n.last() == 'i');
        lemma_trim_end_char_fixed(n, '/');
        assert(n.skip(n.len() - suffix.len()) =~= suffix);
    }
}

/// The result of removing trailing `c` does not end with `c`.
proof fn lemma_trim_end_char_done(s: Seq<char>, c: char)
    ensures
        trim_end_char(s, c).len() == 0 || trim_end_char(s, c).last() != c,
    decreases s.len(),
{
    if s.len() > 0 && s.last() == c {
        lemma_trim_end_char_done(s.drop_last(), c);
    }
}

/// Removing trailing `c` from a sequence that does not end with `c` changes nothing.
proof fn lemma_trim_end_char_fixed(s: Seq<char>, c: char)
    requires
        s.len() == 0 || s.last() != c,
    ensures
        trim_end_char(s, c) == s,
{
}

} // verus!
