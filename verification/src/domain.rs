//! Account, host and usage-limit records, and the OAuth session derived from an
//! auth file.
use vstd::prelude::*;
use crate::interop::{
    base64_url_decoded, decode_base64_url, json_pointer_text, json_text_at_pointer,
};
use crate::text::{chars_of, split_chars, split_on, string_from, text};

verus! {

/// A copy of an optional string.
pub fn clone_opt_string(o: &Option<String>) -> (r: Option<String>)
    ensures
        r == *o,
{
    match o {
        Some(s) => Some(s.clone()),
        None => None,
    }
}

/// The OAuth tokens stored in an auth file.
pub struct AuthTokens {
    pub id_token: Option<String>,
    pub access_token: String,
    pub refresh_token: Option<String>,
    pub account_id: Option<String>,
    pub expires_in: Option<u64>,
    pub scope: Option<String>,
    pub token_type: Option<String>,
}

impl Clone for AuthTokens {
    fn clone(&self) -> (r: Self)
        ensures
            r == *self,
    {
        AuthTokens {
            id_token: clone_opt_string(&self.id_token),
            access_token: self.access_token.clone(),
            refresh_token: clone_opt_string(&self.refresh_token),
            account_id: clone_opt_string(&self.account_id),
            expires_in: self.expires_in,
            scope: clone_opt_string(&self.scope),
            token_type: clone_opt_string(&self.token_type),
        }
    }
}

impl Default for AuthTokens {
    fn default() -> (r: Self)
        ensures
            r.id_token is None,
            r.access_token@ == Seq::<char>::empty(),
            r.refresh_token is None,
            r.account_id is None,
            r.expires_in is None,
            r.scope is None,
            r.token_type is None,
    {
        AuthTokens {
            id_token: None,
            access_token: String::new(),
            refresh_token: None,
            account_id: None,
            expires_in: None,
            scope: None,
            token_type: None,
        }
    }
}

/// The contents of a Codex `auth.json` file.
pub struct AuthFile {
    pub openai_api_key: Option<String>,
    pub auth_mode: Option<String>,
    pub last_refresh: Option<String>,
    pub tokens: AuthTokens,
}

impl Clone for AuthFile {
    fn clone(&self) -> (r: Self)
        ensures
            r == *self,
    {
        AuthFile {
            openai_api_key: clone_opt_string(&self.openai_api_key),
            auth_mode: clone_opt_string(&self.auth_mode),
            last_refresh: clone_opt_string(&self.last_refresh),
            tokens: self.tokens.clone(),
        }
    }
}

impl Default for AuthFile {
    fn default() -> (r: Self)
        ensures
            r.openai_api_key is None,
            r.auth_mode is None,
            r.last_refresh is None,
            r.tokens.id_token is None,
            r.tokens.access_token@ == Seq::<char>::empty(),
            r.tokens.refresh_token is None,
            r.tokens.account_id is None,
            r.tokens.expires_in is None,
            r.tokens.scope is None,
            r.tokens.token_type is None,
    {
        AuthFile {
            openai_api_key: None,
            auth_mode: None,
            last_refresh: None,
            tokens: AuthTokens::default(),
        }
    }
}

/// Subscription tier of a ChatGPT account.
#[derive(Debug, Clone, Copy, PartialEq, Eq, Structural)]
pub enum ChatgptPlanType {
    Free,
    Plus,
    Pro,
    Team,
    Enterprise,
    Unknown,
}

impl Default for ChatgptPlanType {
    fn default() -> (r: Self)
        ensures
            r == ChatgptPlanType::Unknown,
    {
        ChatgptPlanType::Unknown
    }
}

/// An OAuth session: who issued it, for which client, and its tokens.
pub struct OAuthSession {
    pub issuer: String,
    pub client_id: String,
    pub email: Option<String>,
    pub chatgpt_account_id: Option<String>,
    pub plan: ChatgptPlanType,
    pub tokens: AuthTokens,
}

impl Clone for OAuthSession {
    fn clone(&self) -> (r: Self)
        ensures
            r == *self,
    {
        OAuthSession {
            issuer: self.issuer.clone(),
            client_id: self.client_id.clone(),
            email: clone_opt_string(&self.email),
            chatgpt_account_id: clone_opt_string(&self.chatgpt_account_id),
            plan: self.plan,
            tokens: self.tokens.clone(),
        }
    }
}

/// The payload segment of a JWT: the second `.`-separated piece, if there is one.
pub open spec fn jwt_payload(token: Seq<char>) -> Option<Seq<char>> {
    let pieces = split_on(token, '.');
    if pieces.len() >= 2 {
        Some(pieces[1])
    } else {
        None
    }
}

/// The string claim found at `pointer` in the decoded payload of a JWT.
pub open spec fn jwt_claim(token: Seq<char>, pointer: Seq<char>) -> Option<Seq<char>> {
    match jwt_payload(token) {
        Some(payload) => match base64_url_decoded(payload) {
            Some(bytes) => json_pointer_text(bytes, pointer),
            None => None,
        },
        None => None,
    }
}

/// JSON pointer of the `email` claim.
pub open spec fn email_pointer() -> Seq<char> {
    "/email"@
}

/// JSON pointer of the ChatGPT account id inside the OpenAI auth claim.
pub open spec fn account_id_pointer() -> Seq<char> {
    "/https:~1~1api.openai.com~1auth/chatgpt_account_id"@
}

/// Reads the string claim at `pointer` from the payload of `token`.
pub fn jwt_claim_text(token: &str, pointer: &str) -> (r: Option<String>)
    ensures
        match r {
            Some(s) => jwt_claim(token@, pointer@) == Some(s@),
            None => jwt_claim(token@, pointer@) is None,
        },
{
    let cs = chars_of(token);
    let pieces = split_chars(cs.as_slice(), '.');
    if pieces.len() < 2 {
        return None;
    }
    let payload = string_from(pieces[1].as_slice());
    let bytes = match decode_base64_url(payload.as_str()) {
        Some(b) => b,
        None => return None,
    };
    json_text_at_pointer(bytes.as_slice(), pointer)
}

/// The ChatGPT account id carried in an access token's claims.
pub fn extract_account_id_from_access_token(token: &str) -> (r: Option<String>)
    ensures
        match r {
            Some(s) => jwt_claim(token@, account_id_pointer()) == Some(s@),
            None => jwt_claim(token@, account_id_pointer()) is None,
        },
{
    let pointer = "/https:~1~1api.openai.com~1auth/chatgpt_account_id";
    proof {
        reveal_strlit("/https:~1~1api.openai.com~1auth/chatgpt_account_id");
    }
    jwt_claim_text(token, pointer)
}

/// The e-mail address carried in an ID token's claims.
pub fn email_from_id_token(token: &str) -> (r: Option<String>)
    ensures
        match r {
            Some(s) => jwt_claim(token@, email_pointer()) == Some(s@),
            None => jwt_claim(token@, email_pointer()) is None,
        },
{
    let pointer = "/email";
    proof {
        reveal_strlit("/email");
    }
    jwt_claim_text(token, pointer)
}

/// Spec view of an optional string.
pub open spec fn opt_view(o: Option<String>) -> Option<Seq<char>> {
    match o {
        Some(s) => Some(s@),
        None => None,
    }
}

/// The e-mail a session derives from its tokens.
pub open spec fn session_email(tokens: AuthTokens) -> Option<Seq<char>> {
    match tokens.id_token {
        Some(t) => jwt_claim(t@, email_pointer()),
        None => None,
    }
}

/// The account id a session derives from its tokens: the stored one, else the
/// one inside the access token.
pub open spec fn session_account_id(tokens: AuthTokens) -> Option<Seq<char>> {
    match tokens.account_id {
        Some(a) => Some(a@),
        None => jwt_claim(tokens.access_token@, account_id_pointer()),
    }
}

impl AuthFile {
    /// The auth file that activates `session`: ChatGPT mode with its tokens.
    pub fn from_oauth_session(session: OAuthSession) -> (r: AuthFile)
        ensures
            r.openai_api_key is None,
            r.auth_mode matches Some(m) && m@ == "chatgpt"@,
            r.last_refresh is None,
            r.tokens == session.tokens,
    {
        AuthFile {
            openai_api_key: None,
            auth_mode: Some(text("chatgpt")),
            last_refresh: None,
            tokens: session.tokens,
        }
    }

    /// The session described by this file, for the given issuer and client.
    pub fn to_session(&self, issuer: &str, client_id: &str) -> (r: OAuthSession)
        ensures
            r.issuer@ == issuer@,
            r.client_id@ == client_id@,
            opt_view(r.email) == session_email(self.tokens),
            opt_view(r.chatgpt_account_id) == session_account_id(self.tokens),
            r.plan == ChatgptPlanType::Unknown,
            r.tokens == self.tokens,
    {
        let email = match &self.tokens.id_token {
            Some(t) => email_from_id_token(t.as_str()),
            None => None,
        };
        let chatgpt_account_id = match &self.tokens.account_id {
            Some(a) => Some(a.clone()),
            None => extract_account_id_from_access_token(self.tokens.access_token.as_str()),
        };
        OAuthSession {
            issuer: text(issuer),
            client_id: text(client_id),
            email,
            chatgpt_account_id,
            plan: ChatgptPlanType::Unknown,
            tokens: self.tokens.clone(),
        }
    }
}

/// A saved account profile.
pub struct AccountProfile {
    pub id: String,
    pub label: String,
    pub source_path: String,
    pub auth_file: AuthFile,
}

impl Clone for AccountProfile {
    fn clone(&self) -> (r: Self)
        ensures
            r == *self,
    {
        AccountProfile {
            id: self.id.clone(),
            label: self.label.clone(),
            source_path: self.source_path.clone(),
            auth_file: self.auth_file.clone(),
        }
    }
}

/// A remote machine reached over SSH.
pub struct RemoteHost {
    pub ssh_alias: String,
    pub auth_file_path: String,
    pub managed_data_dir: String,
}

impl Clone for RemoteHost {
    fn clone(&self) -> (r: Self)
        ensures
            r == *self,
    {
        RemoteHost {
            ssh_alias: self.ssh_alias.clone(),
            auth_file_path: self.auth_file_path.clone(),
            managed_data_dir: self.managed_data_dir.clone(),
        }
    }
}

/// Where a host keeps its active auth file.
pub enum HostTarget {
    Local { auth_file_path: String },
    Remote(RemoteHost),
}

impl Clone for HostTarget {
    fn clone(&self) -> (r: Self)
        ensures
            r == *self,
    {
        match self {
            HostTarget::Local { auth_file_path } => HostTarget::Local {
                auth_file_path: auth_file_path.clone(),
            },
            HostTarget::Remote(remote) => HostTarget::Remote(remote.clone()),
        }
    }
}

/// A machine whose active account this tool manages.
pub struct ManagedHost {
    pub id: String,
    pub label: String,
    pub target: HostTarget,
}

impl Clone for ManagedHost {
    fn clone(&self) -> (r: Self)
        ensures
            r == *self,
    {
        ManagedHost { id: self.id.clone(), label: self.label.clone(), target: self.target.clone() }
    }
}

/// One usage window of a rate limit. `used_percent_bits` holds the IEEE-754 bits
/// of the used percentage; `resets_at` is a Unix timestamp in seconds.
pub struct LimitWindow {
    pub label: String,
    pub used_percent_bits: u64,
    pub limit_window_seconds: Option<i64>,
    pub resets_at: Option<i64>,
}

impl Clone for LimitWindow {
    fn clone(&self) -> (r: Self)
        ensures
            r == *self,
    {
        LimitWindow {
            label: self.label.clone(),
            used_percent_bits: self.used_percent_bits,
            limit_window_seconds: self.limit_window_seconds,
            resets_at: self.resets_at,
        }
    }
}

/// A copy of an optional window.
pub fn clone_opt_window(o: &Option<LimitWindow>) -> (r: Option<LimitWindow>)
    ensures
        r == *o,
{
    match o {
        Some(w) => Some(w.clone()),
        None => None,
    }
}

/// The state of one rate limit.
pub struct LimitsSnapshot {
    pub limit_id: String,
    pub limit_name: Option<String>,
    pub plan_type: ChatgptPlanType,
    pub primary: Option<LimitWindow>,
    pub secondary: Option<LimitWindow>,
}

impl Clone for LimitsSnapshot {
    fn clone(&self) -> (r: Self)
        ensures
            r == *self,
    {
        LimitsSnapshot {
            limit_id: self.limit_id.clone(),
            limit_name: clone_opt_string(&self.limit_name),
            plan_type: self.plan_type,
            primary: clone_opt_window(&self.primary),
            secondary: clone_opt_window(&self.secondary),
        }
    }
}

/// All rate limits reported for one account.
pub struct LimitsSnapshotSet {
    pub email: Option<String>,
    pub account_id: Option<String>,
    pub plan_type: ChatgptPlanType,
    pub primary_limit: LimitsSnapshot,
    pub additional_limits: Vec<LimitsSnapshot>,
}

impl Clone for LimitsSnapshotSet {
    fn clone(&self) -> (r: Self)
        ensures
            r.email == self.email,
            r.account_id == self.account_id,
            r.plan_type == self.plan_type,
            r.primary_limit == self.primary_limit,
            r.additional_limits@ == self.additional_limits@,
    {
        let mut extra: Vec<LimitsSnapshot> = Vec::new();
        let mut i: usize = 0;
        while i < self.additional_limits.len()
            invariant
                i <= self.additional_limits@.len(),
                extra@ == self.additional_limits@.take(i as int),
            decreases self.additional_limits@.len() - i,
        {
            extra.push(self.additional_limits[i].clone());
            i = i + 1;
            assert(extra@ =~= self.additional_limits@.take(i as int));
        }
        assert(self.additional_limits@.take(i as int) =~= self.additional_limits@);
        LimitsSnapshotSet {
            email: clone_opt_string(&self.email),
            account_id: clone_opt_string(&self.account_id),
            plan_type: self.plan_type,
            primary_limit: self.primary_limit.clone(),
            additional_limits: extra,
        }
    }
}

} // verus!
