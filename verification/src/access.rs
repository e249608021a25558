//! Who gets in: the session cookie's name, the failed-login delay, the first-run setup
//! token, and the one-use rule for TOTP codes.
//!
//! Both login counters produce *delays*, never rejections: a hard lockout would let any
//! visitor lock the owner out of their own app by spraying bad passwords.

use subtle::ConstantTimeEq;
use vstd::prelude::*;

use crate::live::hub::uuid_text_of;
use crate::text::{byte_len, char_width, chars_of, decimal, decimal_of, str_eq, string_of, trim, trim_vec};

verus! {

/// Session cookie name in plain-HTTP modes.
pub const SESSION_COOKIE: &'static str = "otw_session";
/// Session cookie name whenever the app serves over HTTPS: the `__Host-` prefix makes the
/// browser refuse it from any other host.
pub const SESSION_COOKIE_HOST: &'static str = "__Host-otw_session";
/// Absolute session lifetime, in hours.
pub const SESSION_TTL_HOURS: i64 = 168;
/// Sliding inactivity limit in the network-facing modes, in hours.
pub const SESSION_IDLE_HOURS: i64 = 24;
/// Failures from one source before its delay starts.
pub const LOGIN_FAIL_GRACE: u32 = 3;
/// Delay added per failure past the grace, in milliseconds.
pub const LOGIN_DELAY_STEP_MS: u64 = 500;
/// The longest delay, in milliseconds.
pub const LOGIN_DELAY_MAX_MS: u64 = 20_000;
/// Seconds a failure is remembered.
pub const LOGIN_FAIL_WINDOW_SECS: u64 = 900;
/// Failures from any source before the shared delay starts.
pub const LOGIN_GLOBAL_GRACE: u32 = 20;
/// Failures from one source before the owner is told.
pub const LOGIN_ALERT_AFTER: u32 = 10;

/// The network modes that terminate TLS.
pub open spec fn https_mode(mode: Seq<char>) -> bool {
    mode == "lan_https"@ || mode == "web"@
}

/// True for the network modes that terminate TLS.
pub fn is_https_mode(mode: &str) -> (b: bool)
    ensures
        b == https_mode(mode@),
{
    str_eq(mode, "lan_https") || str_eq(mode, "web")
}

/// Whether the first-run wizard on this network mode needs the setup token: only where it
/// faces a network.
pub fn setup_token_required(network_mode: &str) -> (b: bool)
    ensures
        b == https_mode(network_mode@),
{
    is_https_mode(network_mode)
}

/// The inactivity limit for this mode, or `None` where only the absolute lifetime applies.
pub fn idle_limit(mode: &str) -> (h: Option<i64>)
    ensures
        h == (if https_mode(mode@) { Some(SESSION_IDLE_HOURS) } else { None }),
{
    if is_https_mode(mode) { Some(SESSION_IDLE_HOURS) } else { None }
}

/// The cookie a new session is set under, and the one cleared so a mode switch cannot leave
/// two cookies racing to authenticate.
pub fn cookie_names(https: bool) -> (r: (&'static str, &'static str))
    ensures
        r.0@ == (if https { SESSION_COOKIE_HOST@ } else { SESSION_COOKIE@ }),
        r.1@ == (if https { SESSION_COOKIE@ } else { SESSION_COOKIE_HOST@ }),
{
    if https { (SESSION_COOKIE_HOST, SESSION_COOKIE) } else { (SESSION_COOKIE, SESSION_COOKIE_HOST) }
}

/// The session token out of whichever cookie the browser holds. Both names are accepted, and
/// with both present the `__Host-` one wins: it is the one no other host could have written.
pub fn session_token(host_cookie: Option<&str>, plain_cookie: Option<&str>) -> (t: Option<String>)
    ensures
        match t {
            Some(v) => match host_cookie {
                Some(h) => v@ == h@,
                None => plain_cookie matches Some(p) && v@ == p@,
            },
            None => host_cookie is None && plain_cookie is None,
        },
{
    match host_cookie {
        Some(h) => Some(h.to_string()),
        None => match plain_cookie {
            Some(p) => Some(p.to_string()),
            None => None,
        },
    }
}

/// How long an attempt waits before any password work happens: the larger of the two
/// counters past its grace, half a second per failure, at most twenty seconds.
pub open spec fn login_delay_of(by_ip: u32, global: u32) -> int {
    let a: int = if by_ip > LOGIN_FAIL_GRACE { by_ip - LOGIN_FAIL_GRACE } else { 0 };
    let b: int = if global > LOGIN_GLOBAL_GRACE { global - LOGIN_GLOBAL_GRACE } else { 0 };
    let m = if a >= b { a } else { b };
    if LOGIN_DELAY_STEP_MS * m <= LOGIN_DELAY_MAX_MS { LOGIN_DELAY_STEP_MS * m } else { LOGIN_DELAY_MAX_MS as int }
}

/// The delay in milliseconds for the failures counted from this source and from all.
pub fn login_delay_ms(by_ip: u32, global: u32) -> (d: u64)
    ensures
        d == login_delay_of(by_ip, global),
{
    let a = by_ip.saturating_sub(LOGIN_FAIL_GRACE);
    let b = global.saturating_sub(LOGIN_GLOBAL_GRACE);
    let m = if a >= b { a } else { b };
    let d = LOGIN_DELAY_STEP_MS * (m as u64);
    if d <= LOGIN_DELAY_MAX_MS { d } else { LOGIN_DELAY_MAX_MS }
}

/// The delay never exceeds its ceiling and is zero for a source within its grace while the
/// global count is too: one person mistyping slows down nothing.
pub proof fn lemma_login_delay_bounds(by_ip: u32, global: u32)
    ensures
        0 <= login_delay_of(by_ip, global) <= LOGIN_DELAY_MAX_MS,
        by_ip <= LOGIN_FAIL_GRACE && global <= LOGIN_GLOBAL_GRACE ==> login_delay_of(by_ip, global) == 0,
        login_delay_of(by_ip, global) == 0 ==> by_ip <= LOGIN_FAIL_GRACE && global <= LOGIN_GLOBAL_GRACE,
{
}

/// Whether a source has crossed from "mistyped it" into "working through a list".
pub fn should_alert(failures: u32) -> (b: bool)
    ensures
        b == (failures >= LOGIN_ALERT_AFTER),
{
    failures >= LOGIN_ALERT_AFTER
}

/// What the log records of one failed sign-in.
pub open spec fn failure_line_of(what: Seq<char>, ip: Seq<char>, n: nat) -> Seq<char> {
    what + " from "@ + ip + " (attempt "@ + decimal_of(n) + " in the last 15 minutes)"@
}

/// What the owner is told once a source has failed often enough.
pub open spec fn failure_alert_of(ip: Seq<char>, n: nat) -> Seq<char> {
    "Source: "@ + ip + "\nFailed attempts in the last 15 minutes: "@ + decimal_of(n)
        + "\n\nEach one from this address now waits longer than the last. If it was not you, nothing has been granted, but a password this instance shares with anywhere else is worth changing."@
}

/// The log line for a failed sign-in from `ip`, the `n`th from it in the window, and the
/// alert the owner gets once `n` reaches [`LOGIN_ALERT_AFTER`].
pub fn failure_notice(what: &str, ip: &str, n: u32) -> (r: (String, Option<String>))
    ensures
        r.0@ == failure_line_of(what@, ip@, n as nat),
        match r.1 {
            Some(a) => n >= LOGIN_ALERT_AFTER && a@ == failure_alert_of(ip@, n as nat),
            None => n < LOGIN_ALERT_AFTER,
        },
{
    let count = decimal(n as u64);
    let mut line = what.to_string();
    line.append(" from ");
    line.append(ip);
    line.append(" (attempt ");
    line.append(count.as_str());
    line.append(" in the last 15 minutes)");
    if !should_alert(n) {
        return (line, None);
    }
    let mut alert = "Source: ".to_string();
    alert.append(ip);
    alert.append("\nFailed attempts in the last 15 minutes: ");
    alert.append(count.as_str());
    alert.append("\n\nEach one from this address now waits longer than the last. If it was not you, nothing has been granted, but a password this instance shares with anywhere else is worth changing.");
    (line, Some(alert))
}

/// A refused sign-in: the machine code the client keys on (if any), the message shown, and
/// what is recorded as a failed attempt (nothing, when the refusal is only a prompt).
#[derive(Debug)]
pub struct Refusal {
    pub code: Option<String>,
    pub message: String,
    pub failure: Option<String>,
}

/// Where a sign-in stands once the password has been checked.
#[derive(Debug)]
pub enum SignIn {
    Refused(Refusal),
    /// The password was right and a second factor is on: check this code (trimmed).
    CheckCode(String),
    Admitted,
}

/// The next step of a sign-in. A wrong password and an unknown username are the same
/// refusal, so the answer does not name valid usernames; with the password right and a
/// second factor on, a missing code is asked for, which discloses nothing an attacker holding
/// the password does not already have.
pub fn sign_in(password_ok: bool, totp_enabled: bool, code: Option<&str>) -> (r: SignIn)
    ensures
        !password_ok ==> (r matches SignIn::Refused(f) && f.code is None
            && f.message@ == "invalid username or password"@
            && (f.failure matches Some(w) && w@ == "wrong username or password"@)),
        password_ok && !totp_enabled ==> r is Admitted,
        password_ok && totp_enabled ==> match code {
            Some(c) if trim(c@).len() > 0 => r matches SignIn::CheckCode(t) && t@ == trim(c@),
            _ => r matches SignIn::Refused(f) && (f.code matches Some(k) && k@ == "totp_required"@)
                && f.message@ == "enter the six-digit code from your authenticator"@
                && f.failure is None,
        },
{
    if !password_ok {
        return SignIn::Refused(Refusal {
            code: None,
            message: "invalid username or password".to_string(),
            failure: Some("wrong username or password".to_string()),
        });
    }
    if !totp_enabled {
        return SignIn::Admitted;
    }
    let trimmed = match code {
        Some(c) => string_of(trim_vec(&chars_of(c)).as_slice()),
        None => String::new(),
    };
    if trimmed.as_str().is_empty() {
        return SignIn::Refused(Refusal {
            code: Some("totp_required".to_string()),
            message: "enter the six-digit code from your authenticator".to_string(),
            failure: None,
        });
    }
    SignIn::CheckCode(trimmed)
}

/// The answer to a second-factor code: admitted when it was valid (and not spent before),
/// otherwise refused and counted against the source.
pub fn code_verdict(username: &str, valid: bool) -> (r: Result<(), Refusal>)
    ensures
        valid <==> r is Ok,
        r matches Err(f) ==> (f.code is None && f.message@ == "that code is not valid"@
            && (f.failure matches Some(w) && w@ == "wrong second factor for '"@ + username@ + "'"@)),
{
    if valid {
        return Ok(());
    }
    let mut w = "wrong second factor for '".to_string();
    w.append(username);
    w.append("'");
    Err(Refusal { code: None, message: "that code is not valid".to_string(), failure: Some(w) })
}

// ── The setup token ──────────────────────────────────────────────────────────

/// `ConstantTimeEq` on the two strings' bytes: true exactly when they are equal, in time that
/// does not depend on where they differ.
#[verifier::external_body]
fn ct_eq(a: &str, b: &str) -> (r: bool)
    ensures
        r == (a@ == b@),
{
    bool::from(a.as_bytes().ct_eq(b.as_bytes()))
}

/// Whether the supplied header carries the setup token (trimmed; a missing header is empty).
pub fn setup_token_ok(supplied: Option<&str>, expected: &str) -> (b: bool)
    ensures
        b == (trim(match supplied {
            Some(s) => s@,
            None => Seq::empty(),
        }) == expected@),
{
    let s = match supplied {
        Some(s) => string_of(trim_vec(&chars_of(s)).as_slice()),
        None => String::new(),
    };
    proof {
        reveal_strlit("");
    }
    ct_eq(s.as_str(), expected)
}

/// The setup token as printed: the first sixteen bytes of a generated token.
pub open spec fn setup_token_of(generated: Seq<char>) -> Seq<char> {
    let k = choose|k: int| 0 <= k <= generated.len() && byte_len(#[trigger] generated.take(k)) == 16;
    generated.take(k)
}

pub open spec fn cut_at_16(generated: Seq<char>) -> bool {
    exists|k: int| 0 <= k <= generated.len() && byte_len(#[trigger] generated.take(k)) == 16
}

/// The token required on `/api/setup` for this mode and freshly generated secret, if any.
pub fn setup_token(network_mode: &str, generated: Option<&str>) -> (t: Option<String>)
    requires
        generated matches Some(g) ==> cut_at_16(g@),
    ensures
        match t {
            Some(v) => https_mode(network_mode@) && (generated matches Some(g) && v@ == setup_token_of(g@)),
            None => !https_mode(network_mode@) || generated is None,
        },
{
    if !setup_token_required(network_mode) {
        return None;
    }
    let g = match generated {
        Some(g) => g,
        None => return None,
    };
    let v = chars_of(g);
    let mut bytes: usize = 0;
    let mut k: usize = 0;
    while k < v.len() && bytes < 16
        invariant
            k <= v@.len(),
            bytes == byte_len(v@.take(k as int)),
            k > 0 ==> byte_len(v@.take(k - 1)) < 16,
            v@ == g@,
            cut_at_16(g@),
        decreases v@.len() - k,
    {
        proof {
            crate::text::lemma_byte_len_take_step(v@, k as int);
            assert(v@.take(k + 1 - 1) == v@.take(k as int));
        }
        bytes = bytes + char_width(v[k]);
        k = k + 1;
    }
    proof {
        let j = choose|j: int| 0 <= j <= g@.len() && byte_len(#[trigger] g@.take(j)) == 16;
        if j < k {
            if j < k - 1 {
                crate::text::lemma_byte_len_prefix_strict(v@, j, k - 1);
            }
            assert(false);
        } else if j > k {
            crate::text::lemma_byte_len_prefix_strict(v@, k as int, j);
            assert(false);
        }
        assert(j == k);
    }
    let mut out: Vec<char> = Vec::new();
    let mut i: usize = 0;
    while i < k
        invariant
            i <= k <= v@.len(),
            out@ == v@.take(i as int),
        decreases k - i,
    {
        out.push(v[i]);
        proof {
            assert(v@.take(i + 1) == v@.take(i as int).push(v@[i as int]));
        }
        i = i + 1;
    }
    Some(string_of(out.as_slice()))
}

// ── One use per TOTP code ────────────────────────────────────────────────────

/// `user:step`, the identity of one code.
pub open spec fn totp_key_of(user: u128, step: u64) -> Seq<char> {
    uuid_text_of(user) + ":"@ + decimal_of(step as nat)
}

pub fn totp_key(user: u128, step: u64) -> (k: String)
    ensures
        k@ == totp_key_of(user, step),
{
    let mut k = crate::live::hub::uuid_text(user);
    k.append(":");
    k.append(decimal(step).as_str());
    k
}

/// Codes already spent, each with the second it was claimed at.
pub struct SpentCodes {
    pub entries: Vec<(String, u64)>,
}

pub open spec fn entries_view(e: Seq<(String, u64)>) -> Seq<(Seq<char>, u64)> {
    e.map_values(|p: (String, u64)| (p.0@, p.1))
}

/// The entries still within their life at `now`.
pub open spec fn fresh(e: Seq<(Seq<char>, u64)>, now: u64, ttl: u64) -> Seq<(Seq<char>, u64)> {
    e.filter(|p: (Seq<char>, u64)| now < p.1 + ttl)
}

pub open spec fn spent(e: Seq<(Seq<char>, u64)>, key: Seq<char>) -> bool {
    exists|i: int| 0 <= i < e.len() && #[trigger] e[i].0 == key
}

impl SpentCodes {
    pub fn new() -> (s: SpentCodes)
        ensures
            s.entries@.len() == 0,
    {
        SpentCodes { entries: Vec::new() }
    }

    pub open spec fn view_at(&self) -> Seq<(Seq<char>, u64)> {
        entries_view(self.entries@)
    }

    /// Claim a code at `now`: entries older than `ttl` seconds are pruned first; the claim
    /// fails when the code is still spent, and otherwise records it.
    pub fn claim(&mut self, key: &str, now: u64, ttl: u64) -> (ok: bool)
        requires
            forall|i: int| 0 <= i < old(self).entries@.len() ==> (#[trigger] old(self).entries@[i]).1 <= now,
        ensures
            ok == !spent(fresh(old(self).view_at(), now, ttl), key@),
            final(self).view_at() == (if ok {
                fresh(old(self).view_at(), now, ttl).push((key@, now))
            } else {
                fresh(old(self).view_at(), now, ttl)
            }),
            forall|i: int| 0 <= i < final(self).entries@.len() ==> (#[trigger] final(self).entries@[i]).1 <= now,
    {
        let mut kept: Vec<(String, u64)> = Vec::new();
        let mut i: usize = 0;
        let ghost old_view = self.view_at();
        proof {
            reveal(Seq::filter);
            assert(old_view.take(0) =~= Seq::<(Seq<char>, u64)>::empty());
            assert(entries_view(kept@) =~= fresh(old_view.take(0), now, ttl));
        }
        while i < self.entries.len()
            invariant
                i <= self.entries@.len(),
                old_view == entries_view(self.entries@),
                old_view == old(self).view_at(),
                self.entries@ == old(self).entries@,
                forall|j: int| 0 <= j < self.entries@.len() ==> (#[trigger] self.entries@[j]).1 <= now,
                entries_view(kept@) == fresh(old_view.take(i as int), now, ttl),
                forall|j: int| 0 <= j < kept@.len() ==> (#[trigger] kept@[j]).1 <= now,
            decreases self.entries@.len() - i,
        {
            let at = self.entries[i].1;
            proof {
                assert(old_view.take(i + 1) == old_view.take(i as int).push(old_view[i as int]));
                old_view.take(i as int).lemma_filter_push(old_view[i as int], |p: (Seq<char>, u64)| now < p.1 + ttl);
            }
            if (now as u128) < (at as u128) + (ttl as u128) {
                let k = self.entries[i].0.clone();
                let ghost before = entries_view(kept@);
                kept.push((k, at));
                proof {
                    assert(entries_view(kept@) =~= before.push(old_view[i as int]));
                }
            }
            i = i + 1;
        }
        proof {
            assert(old_view.take(old_view.len() as int) == old_view);
        }
        let mut j: usize = 0;
        while j < kept.len()
            invariant
                j <= kept@.len(),
                old_view == old(self).view_at(),
                entries_view(kept@) == fresh(old_view, now, ttl),
                forall|m: int| 0 <= m < kept@.len() ==> (#[trigger] kept@[m]).1 <= now,
                forall|m: int| 0 <= m < j ==> (#[trigger] entries_view(kept@)[m]).0 != key@,
            decreases kept@.len() - j,
        {
            if str_eq(kept[j].0.as_str(), key) {
                assert(entries_view(kept@)[j as int].0 == key@);
                self.entries = kept;
                return false;
            }
            j = j + 1;
        }
        let ghost before = entries_view(kept@);
        kept.push((key.to_string(), now));
        proof {
            assert(entries_view(kept@) =~= before.push((key@, now)));
        }
        self.entries = kept;
        true
    }
}

/// A code can be claimed once: claimed again before its life runs out, it is refused.
pub proof fn lemma_code_claimed_once(e: Seq<(Seq<char>, u64)>, key: Seq<char>, now: u64, later: u64, ttl: u64)
    requires
        now <= later,
        later < now + ttl,
    ensures
        spent(fresh(fresh(e, now, ttl).push((key, now)), later, ttl), key),
{
    let f = fresh(e, now, ttl);
    f.lemma_filter_push((key, now), |p: (Seq<char>, u64)| later < p.1 + ttl);
    let g = fresh(f.push((key, now)), later, ttl);
    assert(g == fresh(f, later, ttl).push((key, now)));
    assert(g[g.len() - 1].0 == key);
}

} // verus!
