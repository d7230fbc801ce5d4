//! Codex OAuth sign-in: PKCE values, the browser authorisation prompt, the OAuth
//! callback, the device-code flow, and the sessions built from token replies.
use vstd::prelude::*;
use crate::domain::{
    clone_opt_string, email_from_id_token, extract_account_id_from_access_token, jwt_claim,
    account_id_pointer, email_pointer, opt_view, AuthFile, AuthTokens, ChatgptPlanType,
    OAuthSession,
};
use crate::interop::{
    base64_url_encoded, encode_base64_url, json_pointer_text, json_text_at_pointer, lower_hex,
    url_safe_base64_char, variant_digit, pair_views, parse_query_pairs, parse_url, parse_url_with_params, random_uuid_hyphenated,
    random_uuid_simple, sha256_of, sha256_text, url_parsed, url_query_pairs, url_with_params,
};
use crate::text::{
    chars_of, decimal, first_ws, first_ws_from, index_of, index_of_chars, leading_ws_len,
    lemma_first_ws_bounds, lemma_index_of_bounds, parse_u64, parse_u64_chars, push_all, slice_chars,
    str_eq, string_from, text, trim_end_char, trim_end_char_chars, trim_start, u64_decimal,
};

verus! {

/// What can go wrong while signing in.
pub enum AuthError {
    Http(String),
    Callback(String),
    CallbackTimeout,
    StateMismatch,
    Authorization(String),
    BrowserOpen(String),
}

/// The message shown for an error.
pub open spec fn auth_error_text(e: AuthError) -> Seq<char> {
    match e {
        AuthError::Http(s) => "http auth request failed: "@ + s@,
        AuthError::Callback(s) => "oauth callback listener failed: "@ + s@,
        AuthError::CallbackTimeout => "oauth callback timed out"@,
        AuthError::StateMismatch => "oauth state mismatch"@,
        AuthError::Authorization(s) => "oauth authorization failed: "@ + s@,
        AuthError::BrowserOpen(s) => "browser open failed: "@ + s@,
    }
}

fn prefixed(prefix: &str, s: &String) -> (r: String)
    ensures
        r@ == prefix@ + s@,
{
    let mut out = chars_of(prefix);
    push_all(&mut out, chars_of(s.as_str()).as_slice());
    string_from(out.as_slice())
}

impl AuthError {
    /// The message shown for this error.
    pub fn message(&self) -> (r: String)
        ensures
            r@ == auth_error_text(*self),
    {
        match self {
            AuthError::Http(s) => prefixed("http auth request failed: ", s),
            AuthError::Callback(s) => prefixed("oauth callback listener failed: ", s),
            AuthError::CallbackTimeout => text("oauth callback timed out"),
            AuthError::StateMismatch => text("oauth state mismatch"),
            AuthError::Authorization(s) => prefixed("oauth authorization failed: ", s),
            AuthError::BrowserOpen(s) => prefixed("browser open failed: ", s),
        }
    }
}

/// The PKCE challenge of a verifier: its SHA-256 digest in unpadded URL-safe
/// base64.
pub open spec fn challenge_of(verifier: Seq<char>) -> Seq<char> {
    base64_url_encoded(sha256_of(verifier))
}

/// The PKCE challenge of `verifier`.
pub fn code_challenge_for(verifier: &str) -> (r: String)
    ensures
        r@ == challenge_of(verifier@),
        r@.len() == 43,
        forall|i: int| 0 <= i < 43 ==> url_safe_base64_char(#[trigger] r@[i]),
{
    let digest = sha256_text(verifier);
    encode_base64_url(digest.as_slice())
}

/// The values of one PKCE exchange: the `state` echoed by the callback, the
/// secret verifier and its challenge.
pub struct PkceVerifier {
    pub state: String,
    pub code_verifier: String,
    pub code_challenge: String,
}

impl Clone for PkceVerifier {
    fn clone(&self) -> (r: Self)
        ensures
            r == *self,
    {
        PkceVerifier {
            state: self.state.clone(),
            code_verifier: self.code_verifier.clone(),
            code_challenge: self.code_challenge.clone(),
        }
    }
}

impl PkceVerifier {
    /// Fresh random PKCE values: a 32-digit hexadecimal verifier, its challenge,
    /// and a hyphenated random UUID as the state.
    pub fn generate() -> (r: PkceVerifier)
        ensures
            r.code_verifier@.len() == 32,
            forall|i: int| 0 <= i < 32 ==> lower_hex(#[trigger] r.code_verifier@[i]),
            r.code_verifier@[12] == '4',
            variant_digit(r.code_verifier@[16]),
            r.code_challenge@ == challenge_of(r.code_verifier@),
            r.code_challenge@.len() == 43,
            forall|i: int| 0 <= i < 43 ==> url_safe_base64_char(#[trigger] r.code_challenge@[i]),
            r.state@.len() == 36,
            r.state@[14] == '4',
            variant_digit(r.state@[19]),
            forall|i: int|
                0 <= i < 36 ==> if i == 8 || i == 13 || i == 18 || i == 23 {
                    #[trigger] r.state@[i] == '-'
                } else {
                    lower_hex(r.state@[i])
                },
    {
        let verifier = random_uuid_simple();
        let challenge = code_challenge_for(verifier.as_str());
        PkceVerifier {
            state: random_uuid_hyphenated(),
            code_verifier: verifier,
            code_challenge: challenge,
        }
    }
}

/// What the user is shown to sign in with a device code.
pub struct DeviceCodePrompt {
    pub verification_url: String,
    pub user_code: String,
    pub device_auth_id: String,
    pub interval_seconds: u64,
}

impl Clone for DeviceCodePrompt {
    fn clone(&self) -> (r: Self)
        ensures
            r == *self,
    {
        DeviceCodePrompt {
            verification_url: self.verification_url.clone(),
            user_code: self.user_code.clone(),
            device_auth_id: self.device_auth_id.clone(),
            interval_seconds: self.interval_seconds,
        }
    }
}

/// Settings of a browser sign-in. `timeout_secs` is how long the callback is
/// waited for.
pub struct BrowserAuthOptions {
    pub issuer: String,
    pub client_id: String,
    pub port: u16,
    pub open_browser: bool,
    pub timeout_secs: u64,
}

pub open spec fn default_issuer_text() -> Seq<char> {
    "https://auth.openai.com"@
}

pub open spec fn default_client_id_text() -> Seq<char> {
    "app_EMoamEEZ73f0CkXaXp7hrann"@
}

pub open spec fn default_scopes_text() -> Seq<char> {
    "openid profile email offline_access api.connectors.read api.connectors.invoke"@
}

impl Default for BrowserAuthOptions {
    fn default() -> (r: Self)
        ensures
            r.issuer@ == default_issuer_text(),
            r.client_id@ == default_client_id_text(),
            r.port == 1455,
            r.open_browser,
            r.timeout_secs == 900,
    {
        BrowserAuthOptions {
            issuer: text("https://auth.openai.com"),
            client_id: text("app_EMoamEEZ73f0CkXaXp7hrann"),
            port: 1455,
            open_browser: true,
            timeout_secs: 15 * 60,
        }
    }
}

/// A browser sign-in ready to start: the page to open, the address the browser
/// is sent back to, and the PKCE values used.
pub struct AuthPrompt {
    pub authorize_url: String,
    pub redirect_url: String,
    pub pkce: PkceVerifier,
}

/// The callback address for a local port.
pub open spec fn redirect_text(port: u16) -> Seq<char> {
    "http://localhost:"@ + decimal(port as nat) + "/auth/callback"@
}

/// The query of the authorisation page, in order.
pub open spec fn authorize_params(
    client_id: Seq<char>,
    redirect: Seq<char>,
    challenge: Seq<char>,
    state: Seq<char>,
) -> Seq<(Seq<char>, Seq<char>)> {
    seq![
        ("response_type"@, "code"@),
        ("client_id"@, client_id),
        ("redirect_uri"@, redirect),
        ("scope"@, default_scopes_text()),
        ("code_challenge"@, challenge),
        ("code_challenge_method"@, "S256"@),
        ("id_token_add_organizations"@, "true"@),
        ("codex_cli_simplified_flow"@, "true"@),
        ("state"@, state),
        ("originator"@, "codex_cli_rs"@),
    ]
}

/// The address of an endpoint under the issuer, trailing `/` of the issuer
/// removed.
pub open spec fn issuer_url(issuer: Seq<char>, path: Seq<char>) -> Seq<char> {
    trim_end_char(issuer, '/') + path
}

/// `r` is the outcome of preparing a browser sign-in with `options` and `pkce`:
/// the callback address parsed, then the authorisation page built from it; a
/// parse error of either is a callback error carrying its text.
pub open spec fn browser_prompt_outcome(
    r: Result<AuthPrompt, AuthError>,
    options: BrowserAuthOptions,
    pkce: PkceVerifier,
) -> bool {
    match url_parsed(redirect_text(options.port)) {
        Err(msg) => r matches Err(AuthError::Callback(m)) && m@ == msg,
        Ok(redirect) => match url_with_params(
            issuer_url(options.issuer@, "/oauth/authorize"@),
            authorize_params(options.client_id@, redirect, pkce.code_challenge@, pkce.state@),
        ) {
            Err(msg) => r matches Err(AuthError::Callback(m)) && m@ == msg,
            Ok(authorize) => r matches Ok(p) && p.authorize_url@ == authorize && p.redirect_url@
                == redirect && p.pkce == pkce,
        },
    }
}

/// `key` is looked up in query pairs as a map built from them would: the last
/// pair with that key wins.
pub open spec fn query_value(q: Seq<(Seq<char>, Seq<char>)>, key: Seq<char>) -> Option<Seq<char>>
    decreases q.len(),
{
    if q.len() == 0 {
        None
    } else if q.last().0 == key {
        Some(q.last().1)
    } else {
        query_value(q.drop_last(), key)
    }
}

/// What a callback query decides: the state must be the expected one, an
/// `error` is an authorisation failure, and otherwise the `code` is the result.
pub open spec fn callback_outcome(
    r: Result<String, AuthError>,
    q: Seq<(Seq<char>, Seq<char>)>,
    expected_state: Seq<char>,
) -> bool {
    if query_value(q, "state"@) != Some(expected_state) {
        r matches Err(AuthError::StateMismatch)
    } else {
        match query_value(q, "error"@) {
            Some(e) => r matches Err(AuthError::Authorization(m)) && m@ == e,
            None => match query_value(q, "code"@) {
                Some(c) => r matches Ok(s) && s@ == c,
                None => r matches Err(AuthError::Authorization(m)) && m@
                    == "missing authorization code"@,
            },
        }
    }
}

/// `str::lines().next()`: the text up to the first line feed, one carriage
/// return before it removed; nothing for an empty text.
pub open spec fn first_line(s: Seq<char>) -> Option<Seq<char>> {
    if s.len() == 0 {
        None
    } else {
        let l = s.take(index_of(s, '\n'));
        if l.len() > 0 && l.last() == '\r' {
            Some(l.drop_last())
        } else {
            Some(l)
        }
    }
}

/// The first whitespace-separated word of `s` and the text after it.
pub open spec fn next_word(s: Seq<char>) -> Option<(Seq<char>, Seq<char>)> {
    let t = trim_start(s);
    if t.len() == 0 {
        None
    } else {
        let k = first_ws(t);
        Some((t.take(k), t.skip(k)))
    }
}

/// `split_whitespace().nth(1)`: the second whitespace-separated word.
pub open spec fn second_word(s: Seq<char>) -> Option<Seq<char>> {
    match next_word(s) {
        Some((_, rest)) => match next_word(rest) {
            Some((w, _)) => Some(w),
            None => None,
        },
        None => None,
    }
}

/// The path of an HTTP request: the second word of its first line.
pub open spec fn request_path(request: Seq<char>) -> Option<Seq<char>> {
    match first_line(request) {
        Some(l) => second_word(l),
        None => None,
    }
}

/// The query pairs of the callback request, or why they could not be read.
pub open spec fn callback_query_outcome(
    r: Result<Vec<(String, String)>, AuthError>,
    request: Seq<char>,
) -> bool {
    match request_path(request) {
        None => r matches Err(AuthError::Callback(m)) && m@ == "invalid callback request"@,
        Some(path) => match url_query_pairs("http://localhost"@ + path) {
            Err(msg) => r matches Err(AuthError::Callback(m)) && m@ == msg,
            Ok(q) => r matches Ok(v) && pair_views(v@) == q,
        },
    }
}

/// Some pair of `q` has the key `key`.
pub open spec fn has_key(q: Seq<(Seq<char>, Seq<char>)>, key: Seq<char>) -> bool {
    exists|i: int| 0 <= i < q.len() && (#[trigger] q[i]).0 == key
}

/// The reply sent to the browser after the callback.
pub open spec fn callback_reply_text(q: Seq<(Seq<char>, Seq<char>)>) -> Seq<char> {
    if has_key(q, "error"@) {
        "HTTP/1.1 400 Bad Request\r\nContent-Type: text/plain\r\n\r\nOAuth failed\r\n"@
    } else {
        "HTTP/1.1 200 OK\r\nContent-Type: text/plain\r\n\r\nLogin completed. You can close this tab.\r\n"@
    }
}

/// The interval of device-code polling: the reported one where it reads as a
/// number, else five seconds.
pub open spec fn poll_interval(interval: Option<Seq<char>>) -> u64 {
    match interval {
        Some(s) => match parse_u64(s) {
            Some(n) => n,
            None => 5,
        },
        None => 5,
    }
}

/// The reply of the device-code endpoint.
pub struct DeviceCodeResponse {
    pub device_auth_id: String,
    pub user_code: Option<String>,
    pub usercode: Option<String>,
    pub interval: Option<String>,
}

/// The reply of the token endpoint.
pub struct TokenResponse {
    pub access_token: String,
    pub refresh_token: Option<String>,
    pub id_token: Option<String>,
    pub expires_in: Option<u64>,
    pub scope: Option<String>,
    pub token_type: Option<String>,
}

/// The e-mail claim of an optional ID token.
pub open spec fn id_token_email(id_token: Option<String>) -> Option<Seq<char>> {
    match id_token {
        Some(t) => jwt_claim(t@, email_pointer()),
        None => None,
    }
}

/// What the poll loop of the device flow does after an error reply.
#[derive(Debug, Clone, Copy, PartialEq, Eq, Structural)]
pub enum DevicePoll {
    /// Sleep for the prompt's interval and ask again.
    Wait,
    /// Stop with the error.
    Fail,
}

/// Signs in to Codex with OAuth: the decisions and requests of each flow.
pub struct CodexAuthService;

impl CodexAuthService {
    /// A sign-in service.
    pub fn new() -> (r: CodexAuthService) {
        CodexAuthService
    }

    /// The issuer used when none is configured.
    pub fn default_issuer(&self) -> (r: &'static str)
        ensures
            r@ == default_issuer_text(),
    {
        "https://auth.openai.com"
    }

    /// The OAuth client id of the Codex CLI.
    pub fn default_client_id(&self) -> (r: &'static str)
        ensures
            r@ == default_client_id_text(),
    {
        "app_EMoamEEZ73f0CkXaXp7hrann"
    }

    /// Prepares a browser sign-in with the given PKCE values.
    pub fn browser_prompt(&self, options: &BrowserAuthOptions, pkce: PkceVerifier) -> (r: Result<
        AuthPrompt,
        AuthError,
    >)
        ensures
            browser_prompt_outcome(r, *options, pkce),
    {
        proof {
            reveal_strlit("http://localhost:");
            reveal_strlit("/auth/callback");
            reveal_strlit("/oauth/authorize");
        }
        let mut redirect_text = chars_of("http://localhost:");
        push_all(&mut redirect_text, u64_decimal(options.port as u64).as_slice());
        push_all(&mut redirect_text, chars_of("/auth/callback").as_slice());
        let redirect_text = string_from(redirect_text.as_slice());
        let redirect_url = match parse_url(redirect_text.as_str()) {
            Ok(u) => u,
            Err(e) => return Err(AuthError::Callback(e)),
        };
        let mut base = trim_end_char_chars(chars_of(options.issuer.as_str()).as_slice(), '/');
        push_all(&mut base, chars_of("/oauth/authorize").as_slice());
        let base = string_from(base.as_slice());
        let params = authorize_query(
            options.client_id.as_str(),
            redirect_url.as_str(),
            pkce.code_challenge.as_str(),
            pkce.state.as_str(),
        );
        match parse_url_with_params(base.as_str(), &params) {
            Ok(authorize_url) => Ok(AuthPrompt { authorize_url, redirect_url, pkce }),
            Err(e) => Err(AuthError::Callback(e)),
        }
    }

    /// Prepares a browser sign-in with fresh PKCE values.
    pub fn begin_browser_login(&self, options: &BrowserAuthOptions) -> (r: Result<
        AuthPrompt,
        AuthError,
    >)
        ensures
            exists|pkce: PkceVerifier|
                #![trigger browser_prompt_outcome(r, *options, pkce)]
                browser_prompt_outcome(r, *options, pkce) && pkce.code_challenge@ == challenge_of(
                    pkce.code_verifier@,
                ),
    {
        let pkce = PkceVerifier::generate();
        let ghost p = pkce;
        let r = self.browser_prompt(options, pkce);
        assert(browser_prompt_outcome(r, *options, p));
        r
    }

    /// The authorisation code carried by a callback query, once its state is
    /// checked against the expected one.
    pub fn callback_code(&self, query: &Vec<(String, String)>, expected_state: &str) -> (r: Result<
        String,
        AuthError,
    >)
        ensures
            callback_outcome(r, pair_views(query@), expected_state@),
    {
        proof {
            reveal_strlit("state");
            reveal_strlit("error");
            reveal_strlit("code");
            reveal_strlit("missing authorization code");
        }
        match lookup_last(query, "state") {
            Some(s) => {
                if !str_eq(s.as_str(), expected_state) {
                    return Err(AuthError::StateMismatch);
                }
            },
            None => return Err(AuthError::StateMismatch),
        }
        match lookup_last(query, "error") {
            Some(e) => return Err(AuthError::Authorization(e)),
            None => {},
        }
        match lookup_last(query, "code") {
            Some(c) => Ok(c),
            None => Err(AuthError::Authorization(text("missing authorization code"))),
        }
    }

    /// The query pairs of the HTTP request that reached the callback listener.
    pub fn callback_query(&self, request: &str) -> (r: Result<Vec<(String, String)>, AuthError>)
        ensures
            callback_query_outcome(r, request@),
    {
        proof {
            reveal_strlit("invalid callback request");
            reveal_strlit("http://localhost");
        }
        let path = match request_path_of(request) {
            Some(p) => p,
            None => return Err(AuthError::Callback(text("invalid callback request"))),
        };
        let mut url = chars_of("http://localhost");
        push_all(&mut url, chars_of(path.as_str()).as_slice());
        let url = string_from(url.as_slice());
        match parse_query_pairs(url.as_str()) {
            Ok(pairs) => Ok(pairs),
            Err(e) => Err(AuthError::Callback(e)),
        }
    }

    /// The HTTP reply sent to the browser once the callback is read.
    pub fn callback_reply(&self, query: &Vec<(String, String)>) -> (r: &'static str)
        ensures
            r@ == callback_reply_text(pair_views(query@)),
    {
        proof {
            reveal_strlit("error");
            reveal_strlit(
                "HTTP/1.1 400 Bad Request\r\nContent-Type: text/plain\r\n\r\nOAuth failed\r\n",
            );
            reveal_strlit(
                "HTTP/1.1 200 OK\r\nContent-Type: text/plain\r\n\r\nLogin completed. You can close this tab.\r\n",
            );
        }
        let ghost q = pair_views(query@);
        let mut i: usize = 0;
        while i < query.len()
            invariant
                i <= query@.len(),
                q == pair_views(query@),
                forall|k: int| 0 <= k < i ==> (#[trigger] q[k]).0 != "error"@,
            decreases query@.len() - i,
        {
            if str_eq(query[i].0.as_str(), "error") {
                assert(q[i as int].0 == "error"@);
                return "HTTP/1.1 400 Bad Request\r\nContent-Type: text/plain\r\n\r\nOAuth failed\r\n";
            }
            i = i + 1;
        }
        "HTTP/1.1 200 OK\r\nContent-Type: text/plain\r\n\r\nLogin completed. You can close this tab.\r\n"
    }
}

/// The query of the authorisation page, in order.
fn authorize_query(client_id: &str, redirect: &str, challenge: &str, state: &str) -> (r: Vec<
    (String, String),
>)
    ensures
        pair_views(r@) == authorize_params(client_id@, redirect@, challenge@, state@),
{
    proof {
        reveal_strlit("response_type");
        reveal_strlit("code");
        reveal_strlit("client_id");
        reveal_strlit("redirect_uri");
        reveal_strlit("scope");
        reveal_strlit(
            "openid profile email offline_access api.connectors.read api.connectors.invoke",
        );
        reveal_strlit("code_challenge");
        reveal_strlit("code_challenge_method");
        reveal_strlit("S256");
        reveal_strlit("id_token_add_organizations");
        reveal_strlit("true");
        reveal_strlit("codex_cli_simplified_flow");
        reveal_strlit("state");
        reveal_strlit("originator");
        reveal_strlit("codex_cli_rs");
    }
    let mut v: Vec<(String, String)> = Vec::new();
    v.push((text("response_type"), text("code")));
    v.push((text("client_id"), text(client_id)));
    v.push((text("redirect_uri"), text(redirect)));
    v.push(
        (
            text("scope"),
            text("openid profile email offline_access api.connectors.read api.connectors.invoke"),
        ),
    );
    v.push((text("code_challenge"), text(challenge)));
    v.push((text("code_challenge_method"), text("S256")));
    v.push((text("id_token_add_organizations"), text("true")));
    v.push((text("codex_cli_simplified_flow"), text("true")));
    v.push((text("state"), text(state)));
    v.push((text("originator"), text("codex_cli_rs")));
    assert(pair_views(v@) =~= authorize_params(client_id@, redirect@, challenge@, state@));
    v
}

/// The value of the last pair of `query` with the key `key`.
fn lookup_last(query: &Vec<(String, String)>, key: &str) -> (r: Option<String>)
    ensures
        opt_view(r) == query_value(pair_views(query@), key@),
{
    let ghost q = pair_views(query@);
    let mut i: usize = query.len();
    assert(q.take(i as int) =~= q);
    while i > 0
        invariant
            i <= query@.len(),
            q == pair_views(query@),
            query_value(q, key@) == query_value(q.take(i as int), key@),
        decreases i,
    {
        proof {
            let t = q.take(i as int);
            assert(t.drop_last() =~= q.take(i - 1));
            assert(t.last() == q[i - 1]);
        }
        if str_eq(query[i - 1].0.as_str(), key) {
            return Some(query[i - 1].1.clone());
        }
        i = i - 1;
    }
    None
}

/// The path of an HTTP request: the second word of its first line.
fn request_path_of(request: &str) -> (r: Option<String>)
    ensures
        opt_view(r) == request_path(request@),
{
    let s = chars_of(request);
    if s.len() == 0 {
        return None;
    }
    let n = index_of_chars(s.as_slice(), '\n');
    proof {
        lemma_index_of_bounds(s@, '\n');
    }
    let mut l = slice_chars(s.as_slice(), 0, n);
    assert(l@ =~= s@.take(n as int));
    if l.len() > 0 && l[l.len() - 1] == '\r' {
        l.pop();
        assert(l@ =~= s@.take(n as int).drop_last());
    }
    let ghost line = l@;
    let a = leading_ws_len(l.as_slice());
    if a == l.len() {
        return None;
    }
    let b = first_ws_from(l.as_slice(), a);
    proof {
        let t = line.skip(a as int);
        lemma_first_ws_bounds(t);
        assert(t.skip(b - a) =~= line.skip(b as int));
        assert(next_word(line) == Some((t.take(b - a), line.skip(b as int))));
    }
    let c0 = leading_ws_len(slice_chars(l.as_slice(), b, l.len()).as_slice());
    let c = b + c0;
    proof {
        let rest = line.skip(b as int);
        assert(line.subrange(b as int, line.len() as int) =~= rest);
        assert(rest.skip(c0 as int) =~= line.skip(c as int));
    }
    if c == l.len() {
        return None;
    }
    let d = first_ws_from(l.as_slice(), c);
    proof {
        let rest = line.skip(b as int);
        let t2 = line.skip(c as int);
        lemma_first_ws_bounds(t2);
        assert(t2.take(d - c) =~= line.subrange(c as int, d as int));
        assert(trim_start(rest) == t2);
    }
    Some(string_from(slice_chars(l.as_slice(), c, d).as_slice()))
}

/// `r` is the device prompt made from the endpoint's reply under `issuer`.
pub open spec fn device_prompt_made(r: DeviceCodePrompt, issuer: Seq<char>, body: DeviceCodeResponse) -> bool {
    &&& r.verification_url@ == issuer_url(issuer, "/codex/device"@)
    &&& r.user_code@ == match body.user_code {
        Some(c) => c@,
        None => match body.usercode {
            Some(c) => c@,
            None => Seq::<char>::empty(),
        },
    }
    &&& r.device_auth_id == body.device_auth_id
    &&& r.interval_seconds == poll_interval(opt_view(body.interval))
}

/// The outcome of reading the device-token reply `body`: its authorisation
/// code and code verifier, or which of them is missing.
pub open spec fn device_grant_outcome(r: Result<(String, String), AuthError>, body: Seq<u8>) -> bool {
    match json_pointer_text(body, "/authorization_code"@) {
        None => r matches Err(AuthError::Authorization(m)) && m@
            == "device auth response missing authorization_code"@,
        Some(code) => match json_pointer_text(body, "/code_verifier"@) {
            None => r matches Err(AuthError::Authorization(m)) && m@
                == "device auth response missing code_verifier"@,
            Some(verifier) => r matches Ok((c, v)) && c@ == code && v@ == verifier,
        },
    }
}

/// `r` is the session built from a token reply for `issuer` and `client_id`.
pub open spec fn session_made_from(
    r: OAuthSession,
    issuer: Seq<char>,
    client_id: Seq<char>,
    t: TokenResponse,
) -> bool {
    let account = jwt_claim(t.access_token@, account_id_pointer());
    &&& r.issuer@ == issuer
    &&& r.client_id@ == client_id
    &&& opt_view(r.email) == id_token_email(t.id_token)
    &&& opt_view(r.chatgpt_account_id) == account
    &&& r.plan == ChatgptPlanType::Unknown
    &&& r.tokens.id_token == t.id_token
    &&& r.tokens.access_token == t.access_token
    &&& r.tokens.refresh_token == t.refresh_token
    &&& opt_view(r.tokens.account_id) == account
    &&& r.tokens.expires_in == t.expires_in
    &&& r.tokens.scope == t.scope
    &&& r.tokens.token_type == t.token_type
}

/// `issuer` with trailing `/` removed, followed by `path`.
fn issuer_endpoint(issuer: &str, path: &str) -> (r: String)
    ensures
        r@ == issuer_url(issuer@, path@),
{
    let mut out = trim_end_char_chars(chars_of(issuer).as_slice(), '/');
    push_all(&mut out, chars_of(path).as_slice());
    string_from(out.as_slice())
}

impl CodexAuthService {
    /// Where a device code is requested.
    pub fn device_code_url(&self, issuer: &str) -> (r: String)
        ensures
            r@ == issuer_url(issuer@, "/api/accounts/deviceauth/usercode"@),
    {
        issuer_endpoint(issuer, "/api/accounts/deviceauth/usercode")
    }

    /// Where the device flow is polled for its authorisation code.
    pub fn device_token_url(&self, issuer: &str) -> (r: String)
        ensures
            r@ == issuer_url(issuer@, "/api/accounts/deviceauth/token"@),
    {
        issuer_endpoint(issuer, "/api/accounts/deviceauth/token")
    }

    /// The redirect address the device flow exchanges its code under.
    pub fn device_redirect_uri(&self, issuer: &str) -> (r: String)
        ensures
            r@ == issuer_url(issuer@, "/deviceauth/callback"@),
    {
        issuer_endpoint(issuer, "/deviceauth/callback")
    }

    /// Where codes and refresh tokens are exchanged for tokens.
    pub fn token_url(&self, issuer: &str) -> (r: String)
        ensures
            r@ == issuer_url(issuer@, "/oauth/token"@),
    {
        issuer_endpoint(issuer, "/oauth/token")
    }

    /// The prompt shown for a device code the endpoint handed out.
    pub fn device_prompt(&self, issuer: &str, body: DeviceCodeResponse) -> (r: DeviceCodePrompt)
        ensures
            device_prompt_made(r, issuer@, body),
    {
        let verification_url = issuer_endpoint(issuer, "/codex/device");
        let user_code = match body.user_code {
            Some(c) => c,
            None => match body.usercode {
                Some(c) => c,
                None => String::new(),
            },
        };
        let interval_seconds = match &body.interval {
            Some(v) => match parse_u64_chars(chars_of(v.as_str()).as_slice()) {
                Some(n) => n,
                None => 5,
            },
            None => 5,
        };
        DeviceCodePrompt {
            verification_url,
            user_code,
            device_auth_id: body.device_auth_id,
            interval_seconds,
        }
    }

    /// Whether polling goes on after an error reply with the given status: only
    /// a 403 or 404 before the deadline means the user has not finished yet.
    pub fn device_poll(&self, status: Option<u16>, before_deadline: bool) -> (r: DevicePoll)
        ensures
            r == (if (status == Some(403u16) || status == Some(404u16)) && before_deadline {
                DevicePoll::Wait
            } else {
                DevicePoll::Fail
            }),
    {
        let code: u16 = match status {
            Some(c) => c,
            None => 0,
        };
        if (code == 403 || code == 404) && before_deadline {
            DevicePoll::Wait
        } else {
            DevicePoll::Fail
        }
    }

    /// The authorisation code and code verifier of a successful device-token
    /// reply.
    pub fn device_grant(&self, body: &[u8]) -> (r: Result<(String, String), AuthError>)
        ensures
            device_grant_outcome(r, body@),
    {
        proof {
            reveal_strlit("/authorization_code");
            reveal_strlit("/code_verifier");
            reveal_strlit("device auth response missing authorization_code");
            reveal_strlit("device auth response missing code_verifier");
        }
        let code = match json_text_at_pointer(body, "/authorization_code") {
            Some(c) => c,
            None => return Err(
                AuthError::Authorization(text("device auth response missing authorization_code")),
            ),
        };
        let verifier = match json_text_at_pointer(body, "/code_verifier") {
            Some(v) => v,
            None => return Err(
                AuthError::Authorization(text("device auth response missing code_verifier")),
            ),
        };
        Ok((code, verifier))
    }

    /// The form that exchanges an authorisation code for tokens.
    pub fn code_exchange_form(
        &self,
        code: &str,
        redirect_uri: &str,
        client_id: &str,
        code_verifier: &str,
    ) -> (r: Vec<(String, String)>)
        ensures
            pair_views(r@) == seq![
                ("grant_type"@, "authorization_code"@),
                ("code"@, code@),
                ("redirect_uri"@, redirect_uri@),
                ("client_id"@, client_id@),
                ("code_verifier"@, code_verifier@),
            ],
    {
        proof {
            reveal_strlit("grant_type");
            reveal_strlit("authorization_code");
            reveal_strlit("code");
            reveal_strlit("redirect_uri");
            reveal_strlit("client_id");
            reveal_strlit("code_verifier");
        }
        let mut v: Vec<(String, String)> = Vec::new();
        v.push((text("grant_type"), text("authorization_code")));
        v.push((text("code"), text(code)));
        v.push((text("redirect_uri"), text(redirect_uri)));
        v.push((text("client_id"), text(client_id)));
        v.push((text("code_verifier"), text(code_verifier)));
        assert(pair_views(v@) =~= seq![
            ("grant_type"@, "authorization_code"@),
            ("code"@, code@),
            ("redirect_uri"@, redirect_uri@),
            ("client_id"@, client_id@),
            ("code_verifier"@, code_verifier@),
        ]);
        v
    }

    /// The form that refreshes `session`, which needs a refresh token.
    pub fn refresh_form(&self, session: &OAuthSession) -> (r: Result<Vec<(String, String)>, AuthError>)
        ensures
            match session.tokens.refresh_token {
                None => r matches Err(AuthError::Authorization(m)) && m@ == "missing refresh token"@,
                Some(t) => r matches Ok(v) && pair_views(v@) == seq![
                    ("grant_type"@, "refresh_token"@),
                    ("client_id"@, session.client_id@),
                    ("refresh_token"@, t@),
                ],
            },
    {
        proof {
            reveal_strlit("missing refresh token");
            reveal_strlit("grant_type");
            reveal_strlit("refresh_token");
            reveal_strlit("client_id");
        }
        let token = match &session.tokens.refresh_token {
            Some(t) => t,
            None => return Err(AuthError::Authorization(text("missing refresh token"))),
        };
        let mut v: Vec<(String, String)> = Vec::new();
        v.push((text("grant_type"), text("refresh_token")));
        v.push((text("client_id"), session.client_id.clone()));
        v.push((text("refresh_token"), token.clone()));
        assert(pair_views(v@) =~= seq![
            ("grant_type"@, "refresh_token"@),
            ("client_id"@, session.client_id@),
            ("refresh_token"@, token@),
        ]);
        Ok(v)
    }

    /// The session made from a token reply: the account id from the access
    /// token's claims, the e-mail from the ID token's claims.
    pub fn session_from_token_response(&self, issuer: &str, client_id: &str, tokens: TokenResponse) -> (r:
        OAuthSession)
        ensures
            session_made_from(r, issuer@, client_id@, tokens),
    {
        let account_id = extract_account_id_from_access_token(tokens.access_token.as_str());
        let email = match &tokens.id_token {
            Some(t) => email_from_id_token(t.as_str()),
            None => None,
        };
        OAuthSession {
            issuer: text(issuer),
            client_id: text(client_id),
            email,
            chatgpt_account_id: clone_opt_string(&account_id),
            plan: ChatgptPlanType::Unknown,
            tokens: AuthTokens {
                id_token: tokens.id_token,
                access_token: tokens.access_token,
                refresh_token: tokens.refresh_token,
                account_id,
                expires_in: tokens.expires_in,
                scope: tokens.scope,
                token_type: tokens.token_type,
            },
        }
    }

    /// The auth file that activates `session`.
    pub fn auth_file_from_session(&self, session: OAuthSession) -> (r: AuthFile)
        ensures
            r.openai_api_key is None,
            r.auth_mode matches Some(m) && m@ == "chatgpt"@,
            r.last_refresh is None,
            r.tokens == session.tokens,
    {
        AuthFile::from_oauth_session(session)
    }
}

} // verus!
