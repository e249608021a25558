//! Microsoft OAuth 2.0 for IMAP (Outlook.com and Microsoft 365): the endpoints, the PKCE
//! pair, the redirect a browser may come back to, and what each answer of the token
//! endpoint means.
//!
//! The refresh token is the credential and is sealed like a password; access tokens live in
//! memory for their hour. Microsoft rotates the refresh token on every exchange, so a new
//! one is persisted each time. The flows in progress and the token cache are process state
//! kept by the server; every decision they need is here.

use base64::Engine;
use sha2::Digest;
use vstd::prelude::*;

use crate::text::{
    chars_of, find, index_of, lemma_index_of_bounds, slice_chars, str_eq, string_of, trim,
    trim_vec,
};

verus! {

/// Delegated permissions requested: IMAP access, plus a refresh token.
pub const SCOPE: &'static str = "offline_access https://outlook.office.com/IMAP.AccessAsUser.All";
/// Access tokens are re-used until this many seconds of their life are left.
pub const EXPIRY_MARGIN_SECS: u64 = 300;
/// Seconds after which a sign-in that nobody completes is dropped.
pub const FLOW_TTL_SECS: u64 = 1200;
/// The route Microsoft sends the browser back to; the user registers it as the
/// application's redirect URI, so it must stay stable.
pub const CALLBACK_PATH: &'static str = "/mailbox/oauth";

/// The tenant's OAuth 2.0 v2 endpoint root; a blank tenant is `common`.
pub open spec fn base_of(tenant: Seq<char>) -> Seq<char> {
    let t = if trim(tenant).len() == 0 { "common"@ } else { trim(tenant) };
    "https://login.microsoftonline.com/"@ + t + "/oauth2/v2.0"@
}

pub fn base(tenant: &str) -> (r: String)
    ensures
        r@ == base_of(tenant@),
{
    let t = string_of(trim_vec(&chars_of(tenant)).as_slice());
    let mut r = "https://login.microsoftonline.com/".to_string();
    if t.as_str().is_empty() {
        r.append("common");
    } else {
        r.append(t.as_str());
    }
    r.append("/oauth2/v2.0");
    r
}

// ── The redirect URI ─────────────────────────────────────────────────────────

/// What the URL parser says of a string: its scheme, its host, and its origin as ASCII.
pub struct UrlParts {
    pub scheme: String,
    pub host: Option<String>,
    pub origin: String,
}

/// `Url::parse(s)`, then its `scheme()`, `host_str()` and `origin().ascii_serialization()`;
/// `None` when `s` is not a URL. A function of the text alone.
pub uninterp spec fn url_parts_of(s: Seq<char>) -> Option<(Seq<char>, Option<Seq<char>>, Seq<char>)>;

pub open spec fn parts_view(p: UrlParts) -> (Seq<char>, Option<Seq<char>>, Seq<char>) {
    (p.scheme@, match p.host { Some(h) => Some(h@), None => None }, p.origin@)
}

/// The parse, through the `url` crate that `reqwest` re-exports.
#[verifier::external_body]
fn parse_url(s: &str) -> (r: Option<UrlParts>)
    ensures
        match r {
            Some(p) => url_parts_of(s@) == Some(parts_view(p)),
            None => url_parts_of(s@) is None,
        },
{
    let url = reqwest::Url::parse(s).ok()?;
    Some(UrlParts {
        scheme: url.scheme().to_string(),
        host: url.host_str().map(|h| h.to_string()),
        origin: url.origin().ascii_serialization(),
    })
}

/// The redirect Microsoft accepts for this origin: any `https://` origin, or `http://` on
/// the loopback interface (`[::1]` is not supported by Microsoft, so it is not loopback here).
pub open spec fn redirect_of(origin: Seq<char>) -> Option<Seq<char>> {
    match url_parts_of(trim(origin)) {
        None => None,
        Some((scheme, host, o)) => match host {
            None => None,
            Some(h) => {
                let loopback = h == "localhost"@ || h == "127.0.0.1"@;
                if !(scheme == "https"@ || (scheme == "http"@ && loopback)) || o == "null"@ {
                    None
                } else {
                    Some(o + "/mailbox/oauth"@)
                }
            },
        },
    }
}

/// Turn the browser's own origin into a redirect URI Microsoft will accept, or `None` when it
/// cannot be registered at all: a plain-HTTP LAN address, which is what the device-code
/// fallback exists for.
pub fn redirect_uri(origin: &str) -> (r: Option<String>)
    ensures
        match r {
            Some(u) => redirect_of(origin@) == Some(u@),
            None => redirect_of(origin@) is None,
        },
{
    let t = string_of(trim_vec(&chars_of(origin)).as_slice());
    let parts = match parse_url(t.as_str()) {
        Some(p) => p,
        None => return None,
    };
    let host = match &parts.host {
        Some(h) => h.as_str(),
        None => return None,
    };
    let loopback = str_eq(host, "localhost") || str_eq(host, "127.0.0.1");
    let scheme = parts.scheme.as_str();
    if !(str_eq(scheme, "https") || (str_eq(scheme, "http") && loopback)) {
        return None;
    }
    if str_eq(parts.origin.as_str(), "null") {
        return None;
    }
    let mut r = parts.origin.clone();
    r.append(CALLBACK_PATH);
    proof {
        reveal_strlit("/mailbox/oauth");
    }
    Some(r)
}

// ── PKCE ─────────────────────────────────────────────────────────────────────

/// SHA-256 of the UTF-8 bytes of a text.
pub uninterp spec fn sha256_of(text: Seq<char>) -> Seq<u8>;

/// `Sha256::digest` of the text's bytes: 32 bytes.
#[verifier::external_body]
fn sha256(text: &str) -> (r: Vec<u8>)
    ensures
        r@ == sha256_of(text@),
        r@.len() == 32,
{
    sha2::Sha256::digest(text.as_bytes()).to_vec()
}

/// Base64 of bytes, with the URL-safe alphabet and no padding.
pub uninterp spec fn base64_url_of(bytes: Seq<u8>) -> Seq<char>;

/// `URL_SAFE_NO_PAD.encode`.
#[verifier::external_body]
fn base64_url(bytes: &[u8]) -> (r: String)
    ensures
        r@ == base64_url_of(bytes@),
{
    base64::engine::general_purpose::URL_SAFE_NO_PAD.encode(bytes)
}

/// `getrandom::fill` on `n` fresh bytes; the error's own words when the system has no
/// randomness to give. Nothing is promised of the bytes but their number.
#[verifier::external_body]
fn random_bytes(n: usize) -> (r: Result<Vec<u8>, String>)
    ensures
        r matches Ok(b) ==> b@.len() == n,
{
    let mut buf = vec![0u8; n];
    match getrandom::fill(&mut buf) {
        Ok(()) => Ok(buf),
        Err(e) => Err(format!("getrandom: {e}")),
    }
}

/// A fresh PKCE verifier: 48 random bytes, base64url without padding.
pub fn new_verifier() -> (r: Result<String, String>)
    ensures
        r matches Ok(v) ==> exists|b: Seq<u8>| b.len() == 48 && v@ == base64_url_of(b),
{
    match random_bytes(48) {
        Ok(b) => Ok(base64_url(b.as_slice())),
        Err(e) => Err(e),
    }
}

/// The PKCE challenge sent with the sign-in: the SHA-256 of the verifier, base64url.
pub fn pkce_challenge(verifier: &str) -> (c: String)
    ensures
        c@ == base64_url_of(sha256_of(verifier@)),
{
    let d = sha256(verifier);
    base64_url(d.as_slice())
}

// ── Authorization code ───────────────────────────────────────────────────────

/// Where to send the browser, and the redirect it will come back to.
#[derive(Debug, Clone)]
pub struct CodeSignIn {
    pub authorize_url: String,
    pub redirect_uri: String,
}

pub open spec fn pair(k: Seq<char>, v: Seq<char>) -> (Seq<char>, Seq<char>) {
    (k, v)
}

/// The query of the authorization request. The mailbox address is fixed by the account, so
/// the account picker is offered rather than whoever the browser saw last; the login hint
/// goes along when there is one.
pub open spec fn code_params_of(client_id: Seq<char>, redirect: Seq<char>, state: Seq<char>, challenge: Seq<char>, hint: Seq<char>) -> Seq<(Seq<char>, Seq<char>)> {
    let base = seq![
        pair("client_id"@, client_id),
        pair("response_type"@, "code"@),
        pair("redirect_uri"@, redirect),
        pair("response_mode"@, "query"@),
        pair("scope"@, SCOPE@),
        pair("state"@, state),
        pair("code_challenge"@, challenge),
        pair("code_challenge_method"@, "S256"@),
        pair("prompt"@, "select_account"@),
    ];
    if trim(hint).len() == 0 { base } else { base.push(pair("login_hint"@, trim(hint))) }
}

pub open spec fn pairs_view(v: Seq<(String, String)>) -> Seq<(Seq<char>, Seq<char>)> {
    v.map_values(|p: (String, String)| (p.0@, p.1@))
}

fn push_pair(v: &mut Vec<(String, String)>, k: &str, val: &str)
    ensures
        pairs_view(final(v)@) == pairs_view(old(v)@).push(pair(k@, val@)),
{
    v.push((k.to_string(), val.to_string()));
    proof {
        assert(pairs_view(final(v)@) =~= pairs_view(old(v)@).push(pair(k@, val@)));
    }
}

pub fn code_params(client_id: &str, redirect: &str, state: &str, challenge: &str, hint: &str) -> (r: Vec<(String, String)>)
    ensures
        pairs_view(r@) == code_params_of(client_id@, redirect@, state@, challenge@, hint@),
{
    let mut v: Vec<(String, String)> = Vec::new();
    assert(pairs_view(v@) =~= Seq::<(Seq<char>, Seq<char>)>::empty());
    push_pair(&mut v, "client_id", client_id);
    push_pair(&mut v, "response_type", "code");
    push_pair(&mut v, "redirect_uri", redirect);
    push_pair(&mut v, "response_mode", "query");
    push_pair(&mut v, "scope", SCOPE);
    push_pair(&mut v, "state", state);
    push_pair(&mut v, "code_challenge", challenge);
    push_pair(&mut v, "code_challenge_method", "S256");
    push_pair(&mut v, "prompt", "select_account");
    let h = string_of(trim_vec(&chars_of(hint)).as_slice());
    if !h.as_str().is_empty() {
        push_pair(&mut v, "login_hint", h.as_str());
    }
    v
}

/// The URL with these query pairs, as `Url::parse_with_params` writes it; `None` when the
/// base is not a URL. A function of its arguments alone.
pub uninterp spec fn url_with_params_of(base: Seq<char>, params: Seq<(Seq<char>, Seq<char>)>) -> Option<Seq<char>>;

#[verifier::external_body]
fn url_with_params(base: &str, params: &Vec<(String, String)>) -> (r: Option<String>)
    ensures
        match r {
            Some(u) => url_with_params_of(base@, pairs_view(params@)) == Some(u@),
            None => url_with_params_of(base@, pairs_view(params@)) is None,
        },
{
    reqwest::Url::parse_with_params(base, params.iter()).ok().map(|u| u.to_string())
}

/// Build an authorization-code sign-in for a verifier and a state (the flow's handle, so a
/// callback can only settle the flow it was issued for). No network call: the browser
/// makes the request.
pub fn code_sign_in(tenant: &str, client_id: &str, login_hint: &str, redirect: &str, state: &str, verifier: &str) -> (r: Result<CodeSignIn, String>)
    ensures
        match r {
            Ok(s) => url_with_params_of(
                base_of(tenant@) + "/authorize"@,
                code_params_of(client_id@, redirect@, state@, base64_url_of(sha256_of(verifier@)), login_hint@),
            ) == Some(s.authorize_url@) && s.redirect_uri@ == redirect@,
            Err(m) => url_with_params_of(
                base_of(tenant@) + "/authorize"@,
                code_params_of(client_id@, redirect@, state@, base64_url_of(sha256_of(verifier@)), login_hint@),
            ) is None && m@ == "building the sign-in URL"@,
        },
{
    let challenge = pkce_challenge(verifier);
    let params = code_params(client_id, redirect, state, challenge.as_str(), login_hint);
    let mut b = base(tenant);
    b.append("/authorize");
    match url_with_params(b.as_str(), &params) {
        Some(u) => Ok(CodeSignIn { authorize_url: u, redirect_uri: redirect.to_string() }),
        None => Err("building the sign-in URL".to_string()),
    }
}

// ── Device code ──────────────────────────────────────────────────────────────

/// What the user must do, in their own browser, on any device.
#[derive(Debug, Clone)]
pub struct DeviceCode {
    pub user_code: String,
    pub verification_uri: String,
    pub expires_in: u64,
    pub interval: u64,
}

/// Seconds between device-code polls when Microsoft does not say.
pub fn default_interval() -> (s: u64)
    ensures
        s == 5,
{
    5
}

/// An access token's life in seconds when Microsoft does not say.
pub fn default_expiry() -> (s: u64)
    ensures
        s == 3600,
{
    3600
}

// ── Polling ──────────────────────────────────────────────────────────────────

/// Where a sign-in stands.
pub enum Progress {
    /// Still waiting for the user to approve; poll again in `interval` seconds.
    Pending { interval: u64 },
    /// Approved. `refresh_token` carries the credential when the poll itself obtained it
    /// (device code); a redirect sign-in was already sealed by its callback.
    Done { refresh_token: Option<String>, account_id: u128 },
    /// Declined, expired, or refused by a tenant policy, in Microsoft's own words.
    Failed(String),
}

/// A redirect sign-in's progress from what its callback recorded.
pub fn code_progress(outcome: Option<Result<(), String>>, account_id: u128) -> (p: Progress)
    ensures
        match outcome {
            None => p matches Progress::Pending { interval } && interval == 2,
            Some(Ok(())) => p matches Progress::Done { refresh_token, account_id: a } && refresh_token is None && a == account_id,
            Some(Err(m)) => p matches Progress::Failed(f) && f@ == m@,
        },
{
    match outcome {
        None => Progress::Pending { interval: 2 },
        Some(Ok(())) => Progress::Done { refresh_token: None, account_id },
        Some(Err(m)) => Progress::Failed(m),
    }
}

/// Whether a poll retires its flow: every answer but "still waiting" does.
pub fn retires(p: &Progress) -> (b: bool)
    ensures
        b == !(p is Pending),
{
    match p {
        Progress::Pending { .. } => false,
        _ => true,
    }
}

/// What a refused device-code poll means: keep waiting (at Microsoft's pace when it asks to
/// slow down), or give up with its words.
pub open spec fn device_refusal_of(code: Seq<char>) -> Option<u64> {
    if code == "authorization_pending"@ {
        Some(5)
    } else if code == "slow_down"@ {
        Some(10)
    } else {
        None
    }
}

pub fn device_refusal(code: &str, described: String) -> (p: Progress)
    ensures
        match device_refusal_of(code@) {
            Some(i) => p matches Progress::Pending { interval } && interval == i,
            None => p matches Progress::Failed(m) && m@ == described@,
        },
{
    if str_eq(code, "authorization_pending") {
        Progress::Pending { interval: 5 }
    } else if str_eq(code, "slow_down") {
        Progress::Pending { interval: 10 }
    } else {
        Progress::Failed(described)
    }
}

/// A successful device-code answer without a refresh token cannot be used.
pub fn device_done(refresh_token: Option<String>, account_id: u128) -> (r: Result<Progress, String>)
    ensures
        match refresh_token {
            Some(t) => r matches Ok(Progress::Done { refresh_token: Some(u), account_id: a }) && u@ == t@ && a == account_id,
            None => r matches Err(m) && m@ == "Microsoft returned no refresh token — is offline_access allowed for this app?"@,
        },
{
    match refresh_token {
        Some(t) => Ok(Progress::Done { refresh_token: Some(t), account_id }),
        None => Err("Microsoft returned no refresh token — is offline_access allowed for this app?".to_string()),
    }
}

// ── Refresh ──────────────────────────────────────────────────────────────────

/// Outcome of exchanging a refresh token.
pub struct Refreshed {
    pub access_token: String,
    /// Microsoft rotates refresh tokens; store this one when present.
    pub refresh_token: Option<String>,
    pub expires_in: u64,
}

/// Why a refresh failed. A network blip must not unlink a mailbox, and a revoked grant must
/// not be retried every minute.
pub enum RefreshError {
    /// The grant is gone: only the user can fix it.
    Revoked(String),
    /// Anything else (offline, 5xx, timeout): worth retrying on the next poll.
    Transient(String),
}

impl RefreshError {
    /// The words to show.
    pub fn message(&self) -> (m: &String)
        ensures
            m == (match self {
                RefreshError::Revoked(s) => s,
                RefreshError::Transient(s) => s,
            }),
    {
        match self {
            RefreshError::Revoked(m) => m,
            RefreshError::Transient(m) => m,
        }
    }
}

/// `invalid_grant`, `invalid_client` and `unauthorized_client` mean the credential itself is
/// finished; a 5xx or a throttle is the network having a bad day; anything else is treated
/// as finished too.
pub open spec fn refresh_revoked(code: Seq<char>, server_error: bool) -> bool {
    code == "invalid_grant"@ || code == "invalid_client"@ || code == "unauthorized_client"@ || !(server_error
        || code == "temporarily_unavailable"@)
}

/// The credential codes: the only answers that end a sign-in whatever the status.
pub open spec fn credential_code(code: Seq<char>) -> bool {
    code == "invalid_grant"@ || code == "invalid_client"@ || code == "unauthorized_client"@
}

/// A failed refresh keeps the sign-in exactly when the failure is the service's, not the
/// credential's: a server error (5xx) or a throttle (`temporarily_unavailable`) with no
/// credential code is transient; a credential code always revokes; any other client-side
/// failure revokes.
pub proof fn lemma_only_credential_failures_revoke(code: Seq<char>, server_error: bool)
    ensures
        credential_code(code) ==> refresh_revoked(code, server_error),
        !credential_code(code) && server_error ==> !refresh_revoked(code, server_error),
        !credential_code(code) && code == "temporarily_unavailable"@ ==> !refresh_revoked(code, server_error),
        !credential_code(code) && !server_error && code != "temporarily_unavailable"@
            ==> refresh_revoked(code, server_error),
{
}

pub fn refresh_failure(code: &str, message: String, server_error: bool) -> (e: RefreshError)
    ensures
        refresh_revoked(code@, server_error) ==> (e matches RefreshError::Revoked(m) && m@ == message@),
        !refresh_revoked(code@, server_error) ==> (e matches RefreshError::Transient(m) && m@ == message@),
        credential_code(code@) ==> e is Revoked,
        !credential_code(code@) && (server_error || code@ == "temporarily_unavailable"@) ==> e is Transient,
        !credential_code(code@) && !server_error && code@ != "temporarily_unavailable"@ ==> e is Revoked,
{
    proof {
        lemma_only_credential_failures_revoke(code@, server_error);
    }
    if str_eq(code, "invalid_grant") || str_eq(code, "invalid_client") || str_eq(code, "unauthorized_client") {
        RefreshError::Revoked(message)
    } else if server_error || str_eq(code, "temporarily_unavailable") {
        RefreshError::Transient(message)
    } else {
        RefreshError::Revoked(message)
    }
}

/// Seconds an access token is cached: its life less the margin.
pub fn cache_life(expires_in: u64) -> (s: u64)
    ensures
        s == (if expires_in >= EXPIRY_MARGIN_SECS { expires_in - EXPIRY_MARGIN_SECS } else { 0 }),
{
    expires_in.saturating_sub(EXPIRY_MARGIN_SECS)
}

/// One step of getting an OAuth mailbox its access token, in the order they are taken.
#[derive(Debug)]
pub enum TokenStep {
    /// Seal this rotated refresh token against the account.
    Persist(String),
    /// Note that the account refreshed now.
    Touch,
    /// Cache this access token for the life Microsoft gave it, in seconds.
    Cache { token: String, expires_in: u64 },
    /// Drop any cached token.
    Forget,
    /// Mark the mailbox as needing a new sign-in, for this reason.
    NeedsReauth(String),
}

/// The steps after a refresh answered, in order, and what the poll gets. A rotated refresh
/// token is sealed **before** the access token is handed out, so a crash mid-poll can never
/// leave the account holding a token Microsoft has already retired; a revoked grant is
/// recorded so the mailbox stops trying; a network blip changes nothing.
/// `fresh` is the access token, the refresh token that came with it, and its life.
pub fn after_refresh(old_refresh: &str, fresh: Result<(String, Option<String>, u64), RefreshError>) -> (r: (Vec<TokenStep>, Result<String, String>))
    ensures
        match fresh {
            Ok((access, rotated, life)) => {
                let persists = rotated matches Some(t) && t@ != old_refresh@;
                let n: int = if persists { 1 } else { 0 };
                &&& r.0@.len() == n + 2
                &&& persists ==> (r.0@[0] matches TokenStep::Persist(t) && rotated == Some(t))
                &&& r.0@[n] is Touch
                &&& r.0@[n + 1] matches TokenStep::Cache { token, expires_in } && token@ == access@ && expires_in == life
                &&& r.1 matches Ok(a) && a@ == access@
            },
            Err(RefreshError::Revoked(m)) => {
                &&& r.0@.len() == 2
                &&& r.0@[0] is Forget
                &&& r.0@[1] matches TokenStep::NeedsReauth(x) && x@ == m@
                &&& r.1 matches Err(e) && e@ == "sign-in expired: "@ + m@
            },
            Err(RefreshError::Transient(m)) => r.0@.len() == 0 && (r.1 matches Err(e) && e@ == m@),
        },
{
    let mut steps: Vec<TokenStep> = Vec::new();
    match fresh {
        Ok((access, rotated, life)) => {
            if let Some(t) = rotated {
                if !str_eq(t.as_str(), old_refresh) {
                    steps.push(TokenStep::Persist(t));
                }
            }
            steps.push(TokenStep::Touch);
            let handed = access.clone();
            steps.push(TokenStep::Cache { token: access, expires_in: life });
            (steps, Ok(handed))
        },
        Err(RefreshError::Revoked(m)) => {
            let mut e = "sign-in expired: ".to_string();
            e.append(m.as_str());
            steps.push(TokenStep::Forget);
            steps.push(TokenStep::NeedsReauth(m));
            (steps, Err(e))
        },
        Err(RefreshError::Transient(m)) => (steps, Err(m)),
    }
}

// ── Error shaping ────────────────────────────────────────────────────────────

/// The `error` of an error body (`error` and `error_description`, as parsed), empty when the
/// body was not one.
pub fn error_code(body: Option<(String, String)>) -> (c: String)
    ensures
        c@ == (match body {
            Some((e, _)) => e@,
            None => Seq::empty(),
        }),
{
    match body {
        Some((e, _)) => e,
        None => String::new(),
    }
}

/// The first line of a text, trimmed.
pub open spec fn first_line(s: Seq<char>) -> Seq<char> {
    let k = index_of(s, seq!['\n'], 0);
    trim(if k >= 0 { s.take(k) } else { s })
}

pub open spec fn describe_of(body: Option<(Seq<char>, Seq<char>)>, status: u16) -> Seq<char> {
    match body {
        Some((e, d)) => if d.len() > 0 {
            first_line(d)
        } else if e.len() > 0 {
            e
        } else {
            "Microsoft answered "@ + crate::text::decimal_of(status as nat)
        },
        None => "Microsoft answered "@ + crate::text::decimal_of(status as nat),
    }
}

/// Microsoft's own error text, cut to its first line: it names the actual cause, which is far
/// more useful than anything invented here.
pub fn describe(body: Option<(String, String)>, status: u16) -> (m: String)
    ensures
        m@ == describe_of(
            match body {
                Some((e, d)) => Some((e@, d@)),
                None => None,
            },
            status,
        ),
{
    match body {
        Some((e, d)) => {
            if !d.as_str().is_empty() {
                let v = chars_of(d.as_str());
                let nl = vec!['\n'];
                assert(nl@ == seq!['\n']);
                let line = match find(&v, &nl, 0) {
                    Some(k) => {
                        proof {
                            lemma_index_of_bounds(v@, seq!['\n'], 0);
                        }
                        slice_chars(&v, 0, k)
                    },
                    None => slice_chars(&v, 0, v.len()),
                };
                proof {
                    assert(v@.subrange(0, v@.len() as int) == v@);
                }
                return string_of(trim_vec(&line).as_slice());
            }
            if !e.as_str().is_empty() {
                return e;
            }
        },
        None => {},
    }
    let mut m = "Microsoft answered ".to_string();
    m.append(crate::text::decimal(status as u64).as_str());
    m
}

// ── SASL XOAUTH2 ─────────────────────────────────────────────────────────────

/// SASL XOAUTH2: the initial response `user=…^Aauth=Bearer …^A^A`, sent once. On failure the
/// server sends a second challenge carrying a JSON error and expects an empty response
/// before it reports the tagged NO.
pub struct XOAuth2 {
    payload: String,
    sent: bool,
}

pub open spec fn xoauth2_payload(user: Seq<char>, token: Seq<char>) -> Seq<char> {
    "user="@ + user + seq!['\u{1}'] + "auth=Bearer "@ + token + seq!['\u{1}', '\u{1}']
}

impl XOAuth2 {
    pub closed spec fn payload_of(&self) -> Seq<char> {
        self.payload@
    }

    pub closed spec fn is_sent(&self) -> bool {
        self.sent
    }

    pub fn new(user: &str, access_token: &str) -> (a: XOAuth2)
        ensures
            a.payload_of() == xoauth2_payload(user@, access_token@),
            !a.is_sent(),
    {
        let mut p = "user=".to_string();
        p.append(user);
        crate::text::push_char(&mut p, '\u{1}');
        p.append("auth=Bearer ");
        p.append(access_token);
        crate::text::push_char(&mut p, '\u{1}');
        crate::text::push_char(&mut p, '\u{1}');
        XOAuth2 { payload: p, sent: false }
    }

    /// The response to a challenge: the payload the first time, empty afterwards.
    pub fn process(&mut self, challenge: &[u8]) -> (r: String)
        ensures
            r@ == (if old(self).is_sent() { Seq::empty() } else { old(self).payload_of() }),
            final(self).is_sent(),
            final(self).payload_of() == old(self).payload_of(),
    {
        if self.sent {
            String::new()
        } else {
            self.sent = true;
            self.payload.clone()
        }
    }
}

/// The payload goes out exactly once: the second challenge of a session, whatever it
/// carries, is answered with an empty line.
pub proof fn lemma_payload_sent_once(a: XOAuth2, b: XOAuth2, r1: Seq<char>, r2: Seq<char>)
    requires
        !a.is_sent(),
        r1 == (if a.is_sent() { Seq::empty() } else { a.payload_of() }),
        b.is_sent(),
        b.payload_of() == a.payload_of(),
        r2 == (if b.is_sent() { Seq::<char>::empty() } else { b.payload_of() }),
    ensures
        r1 == a.payload_of(),
        r2.len() == 0,
{
}

} // verus!
