//! Network exposure: which modes exist, what a settings change must satisfy, and the two
//! env files compose reads (one secret-free, one holding the DNS provider token).
//!
//! Everything that reaches a file is validated first, so the rendered lines are a fixed
//! shape: no loose interpolation of free-form user text.

use vstd::prelude::*;

use crate::text::{
    is_ws, lemma_split_join, lemma_split_single, push_char, slice_chars,
    chars_of, decimal, decimal_of, ends_with, is_ascii_alnum, join_with, split_chars, split_on,
    starts_with, str_eq, string_of, trim, trim_vec, views,
};

verus! {

/// A fresh install is reachable only from the host machine.
pub const DEFAULT_MODE: &'static str = "local";
pub const DEFAULT_PORT: &'static str = "5454";

// ── Validators ───────────────────────────────────────────────────────────────

/// A character allowed in a hostname label.
pub open spec fn label_char(c: char) -> bool {
    is_ascii_alnum(c) || c == '-'
}

pub open spec fn valid_label(l: Seq<char>) -> bool {
    &&& l.len() > 0
    &&& l.len() <= 63
    &&& l[0] != '-'
    &&& l.last() != '-'
    &&& forall|i: int| 0 <= i < l.len() ==> label_char(#[trigger] l[i])
}

/// Labels of `[A-Za-z0-9-]`, dot-separated, none empty, none starting or ending with a
/// hyphen, at most 253 bytes in all. Strict, so nothing shell- or newline-special can reach
/// `network.env`.
pub open spec fn valid_hostname(h: Seq<char>) -> bool {
    &&& h.len() > 0
    &&& crate::text::byte_len(h) <= 253
    &&& forall|i: int| 0 <= i < split_on(h, '.').len() ==> valid_label(#[trigger] split_on(h, '.')[i])
}

fn label_ok(l: &Vec<char>) -> (b: bool)
    ensures
        b == valid_label(l@),
{
    let n = l.len();
    if n == 0 || n > 63 || l[0] == '-' || l[n - 1] == '-' {
        return false;
    }
    let mut i: usize = 0;
    while i < n
        invariant
            i <= n,
            n == l@.len(),
            forall|j: int| 0 <= j < i ==> label_char(#[trigger] l@[j]),
        decreases n - i,
    {
        if !(crate::text::ascii_alnum(l[i]) || l[i] == '-') {
            return false;
        }
        i = i + 1;
    }
    true
}

pub fn is_valid_hostname(host: &str) -> (b: bool)
    ensures
        b == valid_hostname(host@),
{
    let v = chars_of(host);
    if v.len() == 0 {
        return false;
    }
    let mut bytes: usize = 0;
    let mut k: usize = 0;
    while k < v.len()
        invariant
            k <= v@.len(),
            v@ == host@,
            bytes == crate::text::byte_len(v@.take(k as int)),
            bytes <= 253,
        decreases v@.len() - k,
    {
        proof {
            crate::text::lemma_byte_len_take_step(v@, k as int);
        }
        bytes = bytes + crate::text::char_width(v[k]);
        if bytes > 253 {
            proof {
                if k + 1 < v@.len() {
                    crate::text::lemma_byte_len_prefix_strict(v@, k + 1, v@.len() as int);
                }
                assert(v@.take(v@.len() as int) == v@);
            }
            return false;
        }
        k = k + 1;
    }
    proof {
        assert(v@.take(v@.len() as int) == v@);
    }
    let labels = split_chars(host, '.');
    let mut i: usize = 0;
    while i < labels.len()
        invariant
            i <= labels@.len(),
            views(labels@) == split_on(host@, '.'),
            forall|j: int| 0 <= j < i ==> valid_label(#[trigger] split_on(host@, '.')[j]),
        decreases labels@.len() - i,
    {
        proof {
            assert(views(labels@)[i as int] == labels@[i as int]@);
        }
        if !label_ok(&chars_of(labels[i].as_str())) {
            return false;
        }
        i = i + 1;
    }
    true
}

/// DNS provider tokens (DuckDNS UUIDs, Cloudflare API tokens) are URL-safe already: 8 to 200
/// bytes of letters, digits, `-` and `_`, which keeps the rendered Caddy line injection-proof.
pub open spec fn valid_token(t: Seq<char>) -> bool {
    &&& 8 <= t.len() <= 200
    &&& forall|i: int| 0 <= i < t.len() ==> is_ascii_alnum(#[trigger] t[i]) || t[i] == '-' || t[i] == '_'
}

pub fn is_valid_token(token: &str) -> (b: bool)
    ensures
        b == valid_token(token@),
{
    let v = chars_of(token);
    let mut i: usize = 0;
    while i < v.len()
        invariant
            i <= v@.len(),
            v@ == token@,
            forall|j: int| 0 <= j < i ==> is_ascii_alnum(#[trigger] v@[j]) || v@[j] == '-' || v@[j] == '_',
        decreases v@.len() - i,
    {
        if !(crate::text::ascii_alnum(v[i]) || v[i] == '-' || v[i] == '_') {
            return false;
        }
        i = i + 1;
    }
    // Every character is ASCII here, so the byte length is the character count.
    proof {
        lemma_ascii_byte_len(v@);
    }
    8 <= v.len() && v.len() <= 200
}

proof fn lemma_ascii_byte_len(s: Seq<char>)
    requires
        forall|i: int| 0 <= i < s.len() ==> is_ascii_alnum(#[trigger] s[i]) || s[i] == '-' || s[i] == '_',
    ensures
        crate::text::byte_len(s) == s.len(),
    decreases s.len(),
{
    if s.len() > 0 {
        let d = s.drop_last();
        assert forall|i: int| 0 <= i < d.len() implies is_ascii_alnum(#[trigger] d[i]) || d[i] == '-' || d[i] == '_' by {
            assert(d[i] == s[i]);
        }
        lemma_ascii_byte_len(d);
        assert(s.last() == s[s.len() - 1]);
    }
}

/// A decimal octet as `Ipv4Addr` reads it: one to three digits, no leading zero, at most 255.
pub open spec fn octet_value(p: Seq<char>) -> Option<nat> {
    if p.len() == 0 || p.len() > 3 || (p.len() > 1 && p[0] == '0') || !(forall|i: int| 0 <= i < p.len() ==> crate::text::is_digit(#[trigger] p[i])) {
        None
    } else {
        let v = digits_value(p);
        if v <= 255 { Some(v) } else { None }
    }
}

pub open spec fn digits_value(p: Seq<char>) -> nat
    decreases p.len(),
{
    if p.len() == 0 {
        0
    } else {
        digits_value(p.drop_last()) * 10 + ((p.last() as u32) - ('0' as u32)) as nat
    }
}

/// A dotted-quad IPv4 address.
pub open spec fn valid_ipv4(s: Seq<char>) -> bool {
    let parts = split_on(s, '.');
    parts.len() == 4 && forall|i: int| 0 <= i < 4 ==> octet_value(#[trigger] parts[i]) is Some
}

fn octet_ok(p: &Vec<char>) -> (b: bool)
    ensures
        b == (octet_value(p@) is Some),
{
    let n = p.len();
    if n == 0 || n > 3 || (n > 1 && p[0] == '0') {
        return false;
    }
    let mut v: u32 = 0;
    let mut i: usize = 0;
    while i < n
        invariant
            i <= n <= 3,
            n == p@.len(),
            forall|j: int| 0 <= j < i ==> crate::text::is_digit(#[trigger] p@[j]),
            v == digits_value(p@.take(i as int)),
            v < 1000,
        decreases n - i,
    {
        let c = p[i];
        if !('0' <= c && c <= '9') {
            return false;
        }
        proof {
            assert(p@.take(i + 1).drop_last() == p@.take(i as int));
            assert(p@.take(i + 1).last() == c);
            assert(v * 10 + 9 < 10000) by (nonlinear_arith)
                requires
                    v < 1000,
            ;
            if i + 1 <= 3 {
                assert(digits_value(p@.take(i as int)) < 100) by {
                    lemma_digits_bound(p@.take(i as int));
                }
            }
        }
        v = v * 10 + ((c as u32) - ('0' as u32));
        i = i + 1;
    }
    proof {
        assert(p@.take(n as int) == p@);
    }
    v <= 255
}

proof fn lemma_digits_bound(p: Seq<char>)
    requires
        p.len() <= 2,
        forall|j: int| 0 <= j < p.len() ==> crate::text::is_digit(#[trigger] p[j]),
    ensures
        digits_value(p) < 100,
    decreases p.len(),
{
    if p.len() > 0 {
        let d = p.drop_last();
        assert forall|j: int| 0 <= j < d.len() implies crate::text::is_digit(#[trigger] d[j]) by {
            assert(d[j] == p[j]);
        }
        lemma_digits_bound(d);
        assert(crate::text::is_digit(p[p.len() - 1]));
        if d.len() == 0 {
            assert(digits_value(d) == 0);
        } else {
            lemma_digits_below_ten(d);
        }
    }
}

proof fn lemma_digits_below_ten(p: Seq<char>)
    requires
        p.len() == 1,
        crate::text::is_digit(p[0]),
    ensures
        digits_value(p) < 10,
{
    assert(p.drop_last().len() == 0);
    assert(digits_value(p.drop_last()) == 0);
    assert(p.last() == p[0]);
    assert((p[0] as u32) <= ('9' as u32));
}

pub fn is_valid_ipv4(s: &str) -> (b: bool)
    ensures
        b == valid_ipv4(s@),
{
    let parts = split_chars(s, '.');
    if parts.len() != 4 {
        return false;
    }
    let mut i: usize = 0;
    while i < 4
        invariant
            i <= 4,
            parts@.len() == 4,
            views(parts@) == split_on(s@, '.'),
            forall|j: int| 0 <= j < i ==> octet_value(#[trigger] split_on(s@, '.')[j]) is Some,
        decreases 4 - i,
    {
        proof {
            assert(views(parts@)[i as int] == parts@[i as int]@);
        }
        if !octet_ok(&chars_of(parts[i].as_str())) {
            return false;
        }
        i = i + 1;
    }
    true
}

// ── A settings change ────────────────────────────────────────────────────────

pub open spec fn known_mode(m: Seq<char>) -> bool {
    m == "local"@ || m == "lan"@ || m == "lan_https"@ || m == "web"@
}

/// What a valid settings change stores and writes.
pub struct NetworkPlan {
    pub mode: String,
    pub port: u32,
    pub domain: String,
    /// For `lan_https`: the DNS provider, the token, the LAN address, and the DuckDNS
    /// subdomain when the provider is DuckDNS.
    pub acme: Option<AcmePlan>,
}

pub struct AcmePlan {
    pub provider: String,
    pub token: String,
    pub lan_ip: String,
    pub duckdns_sub: Option<String>,
}

/// The DuckDNS subdomain of `yourname.duckdns.org`: non-empty, without a dot.
pub open spec fn duckdns_sub_of(domain: Seq<char>) -> Option<Seq<char>> {
    if ends_with(domain, ".duckdns.org"@) {
        let sub = domain.take(domain.len() - ".duckdns.org"@.len());
        if sub.len() > 0 && !sub.contains('.') { Some(sub) } else { None }
    } else {
        None
    }
}

pub fn duckdns_sub(domain: &str) -> (r: Option<String>)
    ensures
        match r {
            Some(s) => duckdns_sub_of(domain@) == Some(s@),
            None => duckdns_sub_of(domain@) is None,
        },
{
    proof {
        reveal_strlit(".duckdns.org");
    }
    if !crate::text::str_ends_with(domain, ".duckdns.org") {
        return None;
    }
    let v = chars_of(domain);
    let cut = v.len() - 12;
    let sub = crate::text::slice_chars(&v, 0, cut);
    proof {
        assert(v@.subrange(0, cut as int) == v@.take(cut as int));
    }
    if sub.len() > 0 && !crate::text::has_char(&sub, '.') {
        Some(string_of(sub.as_slice()))
    } else {
        None
    }
}

/// Check a settings change. `stored_token` is the previously saved DNS token, when there is
/// one, used when the form leaves the token blank.
pub open spec fn plan_error(mode: Seq<char>, port: u32, domain: Seq<char>, provider: Seq<char>, token: Seq<char>, lan_ip: Seq<char>, stored: Option<Seq<char>>) -> Option<Seq<char>> {
    let m = trim(mode);
    let d = trim(domain);
    let p = trim(provider);
    let t = if trim(token).len() == 0 { stored } else { Some(trim(token)) };
    if !known_mode(m) {
        Some("mode must be local, lan, lan_https, or web"@)
    } else if port < 1 || port > 65535 {
        Some("port must be between 1 and 65535"@)
    } else if (m == "web"@ || m == "lan_https"@) && d.len() == 0 {
        Some("this mode requires a domain"@)
    } else if (m == "web"@ || m == "lan_https"@) && !valid_hostname(d) {
        Some("invalid domain"@)
    } else if m != "lan_https"@ {
        None
    } else if !(p == "duckdns"@ || p == "cloudflare"@) {
        Some("dns_provider must be duckdns or cloudflare"@)
    } else if t is None {
        Some("a DNS provider token is required"@)
    } else if !valid_token(t->0) {
        Some("invalid token (letters, digits, - and _ only)"@)
    } else if p == "duckdns"@ && duckdns_sub_of(d) is None {
        Some("DuckDNS domain must look like yourname.duckdns.org"@)
    } else if p == "duckdns"@ && !valid_ipv4(trim(lan_ip)) {
        Some("a valid LAN IPv4 address is required"@)
    } else {
        None
    }
}

/// The settings changes that are accepted: a known mode, a port in 1..=65535, a valid
/// domain for the modes served under one (`web`, `lan_https`), and for `lan_https` a DuckDNS
/// or Cloudflare provider with a valid token — the typed one, or the saved one when the field
/// is blank — plus, for DuckDNS, a `name.duckdns.org` domain and a LAN IPv4 address.
pub open spec fn change_accepted(mode: Seq<char>, port: u32, domain: Seq<char>, provider: Seq<char>, token: Seq<char>, lan_ip: Seq<char>, stored: Option<Seq<char>>) -> bool {
    let m = trim(mode);
    let d = trim(domain);
    let p = trim(provider);
    &&& known_mode(m)
    &&& 1 <= port <= 65535
    &&& (m == "web"@ || m == "lan_https"@) ==> d.len() > 0 && valid_hostname(d)
    &&& m == "lan_https"@ ==> {
        &&& (p == "duckdns"@ || p == "cloudflare"@)
        &&& (trim(token).len() > 0 ==> valid_token(trim(token)))
        &&& (trim(token).len() == 0 ==> (stored matches Some(st) && valid_token(st)))
        &&& (p == "duckdns"@ ==> duckdns_sub_of(d) is Some && valid_ipv4(trim(lan_ip)))
    }
}

/// A change is refused exactly when it is not one of the accepted ones.
pub proof fn lemma_plan_refuses_exactly_the_invalid(mode: Seq<char>, port: u32, domain: Seq<char>, provider: Seq<char>, token: Seq<char>, lan_ip: Seq<char>, stored: Option<Seq<char>>)
    ensures
        plan_error(mode, port, domain, provider, token, lan_ip, stored) is None
            <==> change_accepted(mode, port, domain, provider, token, lan_ip, stored),
{
}

pub fn plan_network(mode: &str, port: u32, domain: &str, provider: &str, token: &str, lan_ip: &str, stored_token: Option<&str>) -> (r: Result<NetworkPlan, String>)
    ensures
        match r {
            Ok(p) => plan_error(mode@, port, domain@, provider@, token@, lan_ip@, crate::text::opt_str(stored_token)) is None
                && p.mode@ == trim(mode@) && p.port == port && p.domain@ == trim(domain@)
                && (p.acme is Some <==> trim(mode@) == "lan_https"@)
                && (p.acme matches Some(a) ==> {
                    // A typed token replaces the saved one; the saved one fills a blank field.
                    &&& (trim(token@).len() > 0 ==> a.token@ == trim(token@))
                    &&& (trim(token@).len() == 0 ==> (stored_token matches Some(s) && a.token@ == s@))
                    &&& a.provider@ == trim(provider@)
                    &&& a.lan_ip@ == trim(lan_ip@)
                    &&& (trim(provider@) == "duckdns"@ ==> (a.duckdns_sub matches Some(sub)
                        && duckdns_sub_of(trim(domain@)) == Some(sub@)))
                    &&& (trim(provider@) != "duckdns"@ ==> a.duckdns_sub is None)
                }),
            Err(_) => !change_accepted(mode@, port, domain@, provider@, token@, lan_ip@, crate::text::opt_str(stored_token)),
        },
        r is Ok ==> change_accepted(mode@, port, domain@, provider@, token@, lan_ip@, crate::text::opt_str(stored_token)),
        match r {
            Ok(_) => true,
            Err(m) => plan_error(mode@, port, domain@, provider@, token@, lan_ip@, crate::text::opt_str(stored_token)) == Some(m@),
        },
{
    proof {
        lemma_plan_refuses_exactly_the_invalid(mode@, port, domain@, provider@, token@, lan_ip@, crate::text::opt_str(stored_token));
    }
    let m = string_of(trim_vec(&chars_of(mode)).as_slice());
    let d = string_of(trim_vec(&chars_of(domain)).as_slice());
    let ms = m.as_str();
    if !(str_eq(ms, "local") || str_eq(ms, "lan") || str_eq(ms, "lan_https") || str_eq(ms, "web")) {
        return Err("mode must be local, lan, lan_https, or web".to_string());
    }
    if port < 1 || port > 65535 {
        return Err("port must be between 1 and 65535".to_string());
    }
    let public = str_eq(ms, "web") || str_eq(ms, "lan_https");
    if public && d.as_str().is_empty() {
        return Err("this mode requires a domain".to_string());
    }
    if public && !is_valid_hostname(d.as_str()) {
        return Err("invalid domain".to_string());
    }
    if !str_eq(ms, "lan_https") {
        return Ok(NetworkPlan { mode: m, port, domain: d, acme: None });
    }
    let p = string_of(trim_vec(&chars_of(provider)).as_slice());
    if !(str_eq(p.as_str(), "duckdns") || str_eq(p.as_str(), "cloudflare")) {
        return Err("dns_provider must be duckdns or cloudflare".to_string());
    }
    let typed = string_of(trim_vec(&chars_of(token)).as_slice());
    let t = if typed.as_str().is_empty() {
        match stored_token {
            Some(s) => s.to_string(),
            None => return Err("a DNS provider token is required".to_string()),
        }
    } else {
        typed
    };
    if !is_valid_token(t.as_str()) {
        return Err("invalid token (letters, digits, - and _ only)".to_string());
    }
    let ip = string_of(trim_vec(&chars_of(lan_ip)).as_slice());
    let sub = if str_eq(p.as_str(), "duckdns") {
        let s = match duckdns_sub(d.as_str()) {
            Some(s) => s,
            None => return Err("DuckDNS domain must look like yourname.duckdns.org".to_string()),
        };
        if !is_valid_ipv4(ip.as_str()) {
            return Err("a valid LAN IPv4 address is required".to_string());
        }
        Some(s)
    } else {
        None
    };
    Ok(NetworkPlan { mode: m, port, domain: d, acme: Some(AcmePlan { provider: p, token: t, lan_ip: ip, duckdns_sub: sub }) })
}

/// The DuckDNS update request for a subdomain, token and address.
pub fn duckdns_url(sub: &str, token: &str, ip: &str) -> (u: String)
    ensures
        u@ == "https://www.duckdns.org/update?domains="@ + sub@ + "&token="@ + token@ + "&ip="@ + ip@,
{
    let mut u = "https://www.duckdns.org/update?domains=".to_string();
    u.append(sub);
    u.append("&token=");
    u.append(token);
    u.append("&ip=");
    u.append(ip);
    u
}

/// DuckDNS answers `OK` or `KO`, with no detail.
pub fn duckdns_accepted(body: &str) -> (b: bool)
    ensures
        b == (trim(body@) == "OK"@),
{
    let t = string_of(trim_vec(&chars_of(body)).as_slice());
    str_eq(t.as_str(), "OK")
}

// ── The env files ────────────────────────────────────────────────────────────

/// The compose knobs for a mode: bind address, HTTPS bind address, HTTP port, HTTPS port and
/// Caddy's site address. Plain-HTTP modes keep HTTPS on loopback on a throwaway port, and
/// serve `:80`, which matches any Host; HTTPS modes pin 80 and 443 and serve the domain.
pub open spec fn knobs_of(mode: Seq<char>, port: u32, domain: Seq<char>) -> (Seq<char>, Seq<char>, u32, u32, Seq<char>) {
    if mode == "local"@ {
        ("127.0.0.1"@, "127.0.0.1"@, port, 8443, ":80"@)
    } else if mode == "lan"@ {
        ("0.0.0.0"@, "127.0.0.1"@, port, 8443, ":80"@)
    } else {
        ("0.0.0.0"@, "0.0.0.0"@, 80, 443, domain)
    }
}

/// A line break.
pub open spec fn nl() -> Seq<char> {
    seq!['\n']
}

/// `KEY=value`.
pub open spec fn env_line(key: Seq<char>, value: Seq<char>) -> Seq<char> {
    key + seq!['='] + value
}

pub open spec fn net_comment_1() -> Seq<char> {
    "# Generated by OpenTraderWorld — network exposure. Secret-free; safe to read."@
}

pub open spec fn net_comment_2() -> Seq<char> {
    "# Edit via Settings → Network, then run: docker compose up -d"@
}

/// `network.env` with these values.
pub open spec fn net_text(bind: Seq<char>, https_bind: Seq<char>, http_port: Seq<char>, https_port: Seq<char>, site: Seq<char>) -> Seq<char> {
    net_comment_1() + nl() + net_comment_2() + nl() + env_line("OTW_BIND"@, bind) + nl()
        + env_line("OTW_HTTPS_BIND"@, https_bind) + nl() + env_line("OTW_HTTP_PORT"@, http_port) + nl()
        + env_line("OTW_HTTPS_PORT"@, https_port) + nl() + env_line("OTW_DOMAIN"@, site) + nl()
}

pub open spec fn network_env_of(mode: Seq<char>, port: u32, domain: Seq<char>) -> Seq<char> {
    let (bind, https_bind, http_port, https_port, site) = knobs_of(mode, port, domain);
    net_text(bind, https_bind, decimal_of(http_port as nat), decimal_of(https_port as nat), site)
}

/// The secret-free env file compose reads, for a validated mode.
pub fn network_env(mode: &str, port: u32, domain: &str) -> (body: String)
    requires
        known_mode(mode@),
    ensures
        body@ == network_env_of(mode@, port, domain@),
{
    let (bind, https_bind, http_port, https_port, site): (&str, &str, u32, u32, String) = if str_eq(mode, "local") {
        ("127.0.0.1", "127.0.0.1", port, 8443, ":80".to_string())
    } else if str_eq(mode, "lan") {
        ("0.0.0.0", "127.0.0.1", port, 8443, ":80".to_string())
    } else {
        ("0.0.0.0", "0.0.0.0", 80, 443, domain.to_string())
    };
    let mut b = String::new();
    b.append("# Generated by OpenTraderWorld — network exposure. Secret-free; safe to read.");
    push_char(&mut b, '\n');
    b.append("# Edit via Settings → Network, then run: docker compose up -d");
    push_char(&mut b, '\n');
    push_line(&mut b, "OTW_BIND", bind);
    push_line(&mut b, "OTW_HTTPS_BIND", https_bind);
    push_line(&mut b, "OTW_HTTP_PORT", decimal(http_port as u64).as_str());
    push_line(&mut b, "OTW_HTTPS_PORT", decimal(https_port as u64).as_str());
    push_line(&mut b, "OTW_DOMAIN", site.as_str());
    proof {
        assert(b@ =~= network_env_of(mode@, port, domain@));
    }
    b
}

/// Append `KEY=value` and a line break.
fn push_line(b: &mut String, key: &str, value: &str)
    ensures
        final(b)@ == old(b)@ + env_line(key@, value@) + nl(),
{
    b.append(key);
    push_char(b, '=');
    b.append(value);
    push_char(b, '\n');
    proof {
        assert(final(b)@ =~= old(b)@ + env_line(key@, value@) + nl());
    }
}

/// The ACME DNS line for `lan_https`: `acme_dns <provider> <token>`.
pub fn acme_line(provider: &str, token: &str) -> (l: String)
    ensures
        l@ == "acme_dns "@ + provider@ + " "@ + token@,
{
    let mut l = "acme_dns ".to_string();
    l.append(provider);
    l.append(" ");
    l.append(token);
    l
}

pub open spec fn dns_comment_1() -> Seq<char> {
    "# Generated by OpenTraderWorld — ACME DNS challenge for Caddy (LAN + HTTPS mode)."@
}

pub open spec fn dns_comment_2() -> Seq<char> {
    "# Contains your DNS provider token when set: do not commit or share."@
}

pub open spec fn dns_env_of(acme_line: Seq<char>) -> Seq<char> {
    dns_comment_1() + nl() + dns_comment_2() + nl() + net_comment_2() + nl() + env_line("OTW_ACME_GLOBAL"@, acme_line)
        + nl()
}

/// The file holding the ACME DNS line; it carries the DNS token when set, which is why it is
/// separate from the secret-free one.
pub fn dns_env(acme_line: &str) -> (body: String)
    ensures
        body@ == dns_env_of(acme_line@),
{
    let mut b = String::new();
    b.append("# Generated by OpenTraderWorld — ACME DNS challenge for Caddy (LAN + HTTPS mode).");
    push_char(&mut b, '\n');
    b.append("# Contains your DNS provider token when set: do not commit or share.");
    push_char(&mut b, '\n');
    b.append("# Edit via Settings → Network, then run: docker compose up -d");
    push_char(&mut b, '\n');
    push_line(&mut b, "OTW_ACME_GLOBAL", acme_line);
    proof {
        assert(b@ =~= dns_env_of(acme_line@));
    }
    b
}

// ── Hex, for the sealed token ────────────────────────────────────────────────

pub open spec fn hex_digit(d: nat) -> char {
    crate::live::hub::hex_char(d)
}

/// Two lowercase hex digits per byte.
pub open spec fn hex_of(bytes: Seq<u8>) -> Seq<char>
    decreases bytes.len(),
{
    if bytes.len() == 0 {
        Seq::empty()
    } else {
        hex_of(bytes.drop_last()) + seq![hex_digit((bytes.last() / 16) as nat), hex_digit((bytes.last() % 16) as nat)]
    }
}

fn hex_char_of(d: u8) -> (c: char)
    requires
        d < 16,
    ensures
        c == hex_digit(d as nat),
{
    if d < 10 {
        ((('0' as u8) + d) as char)
    } else {
        ((('a' as u8) + (d - 10)) as char)
    }
}

pub fn hex_encode(bytes: &[u8]) -> (s: String)
    ensures
        s@ == hex_of(bytes@),
{
    let mut out: Vec<char> = Vec::new();
    let mut i: usize = 0;
    while i < bytes.len()
        invariant
            i <= bytes@.len(),
            out@ == hex_of(bytes@.take(i as int)),
        decreases bytes@.len() - i,
    {
        proof {
            assert(bytes@.take(i + 1).drop_last() == bytes@.take(i as int));
        }
        let b = bytes[i];
        out.push(hex_char_of(b / 16));
        out.push(hex_char_of(b % 16));
        i = i + 1;
    }
    proof {
        assert(bytes@.take(bytes@.len() as int) == bytes@);
    }
    string_of(out.as_slice())
}

/// The value of one hex digit (either case), as `u8::from_str_radix(_, 16)` reads it.
pub open spec fn hex_value(c: char) -> Option<nat> {
    if '0' <= c && c <= '9' {
        Some(((c as u32) - ('0' as u32)) as nat)
    } else if 'a' <= c && c <= 'f' {
        Some(((c as u32) - ('a' as u32) + 10) as nat)
    } else if 'A' <= c && c <= 'F' {
        Some(((c as u32) - ('A' as u32) + 10) as nat)
    } else {
        None
    }
}

/// The bytes of a hex text of even length, two digits each; `None` on an odd length or a
/// character that is not a hex digit.
pub open spec fn unhex(s: Seq<char>) -> Option<Seq<u8>>
    decreases s.len(),
{
    if s.len() % 2 != 0 {
        None
    } else if s.len() == 0 {
        Some(Seq::empty())
    } else {
        match (unhex(s.take(s.len() - 2)), hex_value(s[s.len() - 2]), hex_value(s[s.len() - 1])) {
            (Some(b), Some(h), Some(l)) => Some(b.push((h * 16 + l) as u8)),
            _ => None,
        }
    }
}

fn hex_val(c: char) -> (r: Option<u8>)
    ensures
        match r {
            Some(v) => hex_value(c) == Some(v as nat) && v < 16,
            None => hex_value(c) is None,
        },
{
    if '0' <= c && c <= '9' {
        Some(((c as u32) - ('0' as u32)) as u8)
    } else if 'a' <= c && c <= 'f' {
        Some(((c as u32) - ('a' as u32) + 10) as u8)
    } else if 'A' <= c && c <= 'F' {
        Some(((c as u32) - ('A' as u32) + 10) as u8)
    } else {
        None
    }
}

/// Hex back to bytes. Only ASCII text can decode, so counting characters is counting bytes.
pub fn hex_decode(s: &str) -> (r: Option<Vec<u8>>)
    ensures
        match r {
            Some(b) => unhex(s@) == Some(b@),
            None => unhex(s@) is None,
        },
{
    let v = chars_of(s);
    if v.len() % 2 != 0 {
        return None;
    }
    let mut out: Vec<u8> = Vec::new();
    let mut i: usize = 0;
    while i < v.len()
        invariant
            i <= v@.len(),
            v@ == s@,
            v@.len() % 2 == 0,
            i % 2 == 0,
            unhex(v@.take(i as int)) == Some(out@),
        decreases v@.len() - i,
    {
        let hi = match hex_val(v[i]) {
            Some(h) => h,
            None => {
                proof {
                    lemma_unhex_prefix_fails(v@, i as int);
                }
                return None;
            },
        };
        let lo = match hex_val(v[i + 1]) {
            Some(l) => l,
            None => {
                proof {
                    lemma_unhex_prefix_fails(v@, i as int);
                }
                return None;
            },
        };
        proof {
            let t = v@.take(i + 2);
            assert(t.take(t.len() - 2) == v@.take(i as int));
            assert(t[t.len() - 2] == v@[i as int]);
            assert(t[t.len() - 1] == v@[i + 1]);
        }
        out.push(hi * 16 + lo);
        i = i + 2;
    }
    proof {
        assert(v@.take(v@.len() as int) == v@);
    }
    Some(out)
}

/// A bad digit pair anywhere fails the whole decode.
proof fn lemma_unhex_prefix_fails(s: Seq<char>, i: int)
    requires
        0 <= i,
        i + 2 <= s.len(),
        i % 2 == 0,
        s.len() % 2 == 0,
        hex_value(s[i]) is None || hex_value(s[i + 1]) is None,
    ensures
        unhex(s) is None,
    decreases s.len(),
{
    if s.len() > i + 2 {
        let p = s.take(s.len() - 2);
        assert(p[i] == s[i] && p[i + 1] == s[i + 1]);
        lemma_unhex_prefix_fails(p, i);
    } else {
        assert(s[s.len() - 2] == s[i]);
        assert(s[s.len() - 1] == s[i + 1]);
    }
}

/// Decoding what was encoded gives the bytes back: a sealed token survives the round trip
/// through the settings table.
pub proof fn lemma_hex_round_trip(bytes: Seq<u8>)
    ensures
        unhex(hex_of(bytes)) == Some(bytes),
    decreases bytes.len(),
{
    if bytes.len() > 0 {
        let p = bytes.drop_last();
        lemma_hex_round_trip(p);
        lemma_hex_len(p);
        let h = hex_of(bytes);
        let b = bytes.last();
        assert(h.take(h.len() - 2) == hex_of(p));
        let hi = (b / 16) as nat;
        let lo = (b % 16) as nat;
        assert(hex_value(hex_digit(hi)) == Some(hi));
        assert(hex_value(hex_digit(lo)) == Some(lo));
        assert(h[h.len() - 2] == hex_digit(hi));
        assert(h[h.len() - 1] == hex_digit(lo));
        assert((hi * 16 + lo) as u8 == b);
        assert(p.push(b) == bytes);
    }
}

proof fn lemma_hex_len(bytes: Seq<u8>)
    ensures
        hex_of(bytes).len() == 2 * bytes.len(),
    decreases bytes.len(),
{
    if bytes.len() > 0 {
        lemma_hex_len(bytes.drop_last());
    }
}

/// The sealed token as stored: the nonce and the ciphertext in hex, joined by a colon.
pub fn sealed_text(nonce: &[u8], ciphertext: &[u8]) -> (s: String)
    ensures
        s@ == hex_of(nonce@) + ":"@ + hex_of(ciphertext@),
{
    let mut s = hex_encode(nonce);
    s.append(":");
    s.append(hex_encode(ciphertext).as_str());
    s
}


// ── Reading the files back ────────────────────────────────────────────────────

/// The value of `key=` in an env file: the first line that, trimmed, starts with the key and
/// an `=`, and what follows it.
pub open spec fn env_in(lines: Seq<Seq<char>>, key: Seq<char>) -> Option<Seq<char>>
    decreases lines.len(),
{
    if lines.len() == 0 {
        None
    } else if starts_with(trim(lines[0]), key + seq!['=']) {
        Some(trim(lines[0]).skip(key.len() + 1int))
    } else {
        env_in(lines.drop_first(), key)
    }
}

pub open spec fn env_value(text: Seq<char>, key: Seq<char>) -> Option<Seq<char>> {
    env_in(split_on(text, '\n'), key)
}

/// Where the word starting at `i` ends.
pub open spec fn word_end(s: Seq<char>, i: int) -> int
    decreases s.len() - i,
{
    if i < 0 || i >= s.len() || is_ws(s[i]) { i } else { word_end(s, i + 1) }
}

pub proof fn lemma_word_end(s: Seq<char>, i: int)
    requires
        0 <= i <= s.len(),
    ensures
        i <= word_end(s, i) <= s.len(),
        forall|j: int| i <= j < word_end(s, i) ==> !is_ws(#[trigger] s[j]),
        word_end(s, i) < s.len() ==> is_ws(s[word_end(s, i)]),
    decreases s.len() - i,
{
    if i < s.len() && !is_ws(s[i]) {
        lemma_word_end(s, i + 1);
    }
}

/// `str::split_whitespace` from index `i`: the runs of non-white-space characters.
pub open spec fn words_from(s: Seq<char>, i: int) -> Seq<Seq<char>>
    decreases s.len() - i,
{
    if i < 0 || i >= s.len() {
        Seq::empty()
    } else if is_ws(s[i]) {
        words_from(s, i + 1)
    } else {
        let e = word_end(s, i + 1);
        if e <= i || e > s.len() { Seq::empty() } else { seq![s.subrange(i, e)] + words_from(s, e) }
    }
}

/// The words of a text.
pub fn words(text: &str) -> (r: Vec<String>)
    ensures
        views(r@) == words_from(text@, 0),
{
    let v = chars_of(text);
    let mut out: Vec<String> = Vec::new();
    let mut i: usize = 0;
    proof {
        assert(views(out@) + words_from(v@, 0) == words_from(v@, 0));
    }
    while i < v.len()
        invariant
            i <= v@.len(),
            v@ == text@,
            views(out@) + words_from(v@, i as int) == words_from(v@, 0),
        decreases v@.len() - i,
    {
        if crate::text::is_whitespace(v[i]) {
            i = i + 1;
        } else {
            let mut e: usize = i + 1;
            while e < v.len() && !crate::text::is_whitespace(v[e])
                invariant
                    i < e <= v@.len(),
                    word_end(v@, i + 1) == word_end(v@, e as int),
                decreases v@.len() - e,
            {
                e = e + 1;
            }
            let w = string_of(slice_chars(&v, i, e).as_slice());
            let ghost before = views(out@);
            out.push(w);
            proof {
                assert(views(out@) == before.push(v@.subrange(i as int, e as int)));
                assert(words_from(v@, i as int) == seq![v@.subrange(i as int, e as int)] + words_from(v@, e as int));
                assert(before.push(v@.subrange(i as int, e as int)) + words_from(v@, e as int)
                    =~= before + (seq![v@.subrange(i as int, e as int)] + words_from(v@, e as int)));
            }
            i = e;
        }
    }
    proof {
        assert(words_from(v@, i as int) == Seq::<Seq<char>>::empty());
        assert(views(out@) + Seq::<Seq<char>>::empty() =~= views(out@));
    }
    out
}

/// The value of `key=` in an env file's text.
pub fn env_get(text: &str, key: &str) -> (r: Option<String>)
    ensures
        match r {
            Some(v) => env_value(text@, key@) == Some(v@),
            None => env_value(text@, key@) is None,
        },
{
    let lines = split_chars(text, '\n');
    let mut want = key.to_string();
    crate::text::push_char(&mut want, '=');
    let w = chars_of(want.as_str());
    let ghost ls = views(lines@);
    let mut i: usize = 0;
    proof {
        assert(ls.skip(0) == ls);
    }
    while i < lines.len()
        invariant
            i <= lines@.len(),
            ls == views(lines@),
            ls == split_on(text@, '\n'),
            w@ == key@ + seq!['='],
            env_in(ls, key@) == env_in(ls.skip(i as int), key@),
        decreases lines@.len() - i,
    {
        proof {
            assert(ls.skip(i as int)[0] == lines@[i as int]@);
            assert(ls.skip(i as int).drop_first() == ls.skip(i + 1));
        }
        let t = trim_vec(&chars_of(lines[i].as_str()));
        if crate::text::matches_at(&t, &w, 0) {
            let n = w.len();
            return Some(string_of(slice_chars(&t, n, t.len()).as_slice()));
        }
        i = i + 1;
    }
    None
}

/// The ACME line's words after `acme_dns`: the provider and the token.
pub open spec fn acme_words(dns: Option<Seq<char>>) -> Seq<Seq<char>> {
    match dns {
        Some(t) => match env_value(t, "OTW_ACME_GLOBAL"@) {
            Some(line) => words_from(line, 0),
            None => Seq::empty(),
        },
        None => Seq::empty(),
    }
}

/// The DNS provider token in `dns.env`, if it holds one.
pub fn dns_token(dns: &str) -> (r: Option<String>)
    ensures
        match r {
            Some(t) => acme_words(Some(dns@)).len() > 2 && t@ == acme_words(Some(dns@))[2],
            None => acme_words(Some(dns@)).len() <= 2,
        },
{
    match env_get(dns, "OTW_ACME_GLOBAL") {
        Some(line) => {
            let ws = words(line.as_str());
            if ws.len() > 2 {
                proof {
                    assert(views(ws@)[2] == ws@[2]@);
                }
                Some(ws[2].clone())
            } else {
                None
            }
        },
        None => None,
    }
}

/// What the deploy files say of the network settings.
pub struct NetworkRead {
    pub mode: &'static str,
    pub port: String,
    pub domain: String,
    pub dns_provider: String,
    pub dns_token_set: bool,
}

/// The settings `network.env` and `dns.env` describe: the mode from the bind address and
/// whether a domain and a DNS token are configured, or nothing when `network.env` lacks a
/// key it always has.
pub open spec fn network_read_of(net: Seq<char>, dns: Option<Seq<char>>) -> Option<(Seq<char>, Seq<char>, Seq<char>, Seq<char>, bool)> {
    match (env_value(net, "OTW_BIND"@), env_value(net, "OTW_DOMAIN"@), env_value(net, "OTW_HTTP_PORT"@)) {
        (Some(bind), Some(domain), Some(http_port)) => {
            let w = acme_words(dns);
            let provider = if w.len() > 1 { w[1] } else { "duckdns"@ };
            let token_set = w.len() > 2;
            if domain == ":80"@ || domain.len() == 0 {
                Some((if bind == "127.0.0.1"@ { "local"@ } else { "lan"@ }, http_port, Seq::empty(), provider, token_set))
            } else if token_set {
                Some(("lan_https"@, "443"@, domain, provider, token_set))
            } else {
                Some(("web"@, "443"@, domain, provider, token_set))
            }
        },
        _ => None,
    }
}

pub open spec fn read_view(r: NetworkRead) -> (Seq<char>, Seq<char>, Seq<char>, Seq<char>, bool) {
    (r.mode@, r.port@, r.domain@, r.dns_provider@, r.dns_token_set)
}

/// Read the settings back from the deploy files' text (`dns` when that file exists).
pub fn network_from_env(net: &str, dns: Option<&str>) -> (r: Option<NetworkRead>)
    ensures
        match r {
            Some(x) => network_read_of(net@, crate::text::opt_str(dns)) == Some(read_view(x)),
            None => network_read_of(net@, crate::text::opt_str(dns)) is None,
        },
{
    let bind = match env_get(net, "OTW_BIND") {
        Some(b) => b,
        None => return None,
    };
    let domain = match env_get(net, "OTW_DOMAIN") {
        Some(d) => d,
        None => return None,
    };
    let http_port = match env_get(net, "OTW_HTTP_PORT") {
        Some(p) => p,
        None => return None,
    };
    let ws: Vec<String> = match dns {
        Some(t) => match env_get(t, "OTW_ACME_GLOBAL") {
            Some(line) => words(line.as_str()),
            None => Vec::new(),
        },
        None => Vec::new(),
    };
    proof {
        assert(views(ws@) == acme_words(crate::text::opt_str(dns)));
        reveal_strlit("duckdns");
        reveal_strlit(":80");
        reveal_strlit("127.0.0.1");
        reveal_strlit("443");
    }
    let provider = if ws.len() > 1 {
        proof {
            assert(views(ws@)[1] == ws@[1]@);
        }
        ws[1].clone()
    } else {
        "duckdns".to_string()
    };
    let token_set = ws.len() > 2;
    if str_eq(domain.as_str(), ":80") || domain.as_str().is_empty() {
        let mode = if str_eq(bind.as_str(), "127.0.0.1") { "local" } else { "lan" };
        Some(NetworkRead { mode, port: http_port, domain: String::new(), dns_provider: provider, dns_token_set: token_set })
    } else if token_set {
        Some(NetworkRead { mode: "lan_https", port: "443".to_string(), domain, dns_provider: provider, dns_token_set: token_set })
    } else {
        Some(NetworkRead { mode: "web", port: "443".to_string(), domain, dns_provider: provider, dns_token_set: token_set })
    }
}

// ── What a save reads back as ─────────────────────────────────────────────────

proof fn lemma_env_concat(l1: Seq<Seq<char>>, l2: Seq<Seq<char>>, key: Seq<char>)
    ensures
        env_in(l1 + l2, key) == (match env_in(l1, key) {
            Some(v) => Some(v),
            None => env_in(l2, key),
        }),
    decreases l1.len(),
{
    if l1.len() > 0 {
        assert((l1 + l2).drop_first() == l1.drop_first() + l2);
        assert((l1 + l2)[0] == l1[0]);
        lemma_env_concat(l1.drop_first(), l2, key);
    } else {
        assert(l1 + l2 == l2);
    }
}

/// A line whose `i`-th character differs from the key's does not hold the key.
proof fn lemma_line_misses(line: Seq<char>, key: Seq<char>, i: int)
    requires
        line.len() > 0,
        !is_ws(line[0]),
        !is_ws(line.last()),
        0 <= i < line.len(),
        i < key.len() + 1,
        line[i] != (key + seq!['='])[i],
    ensures
        env_in(seq![line], key) is None,
{
    crate::text::lemma_trim_itself(line);
    if starts_with(line, key + seq!['=']) {
        assert(line.subrange(0, key.len() + 1int)[i] == line[i]);
    }
    assert(!starts_with(trim(line), key + seq!['=']));
    assert(seq![line][0] == line);
    assert(seq![line].drop_first() =~= Seq::<Seq<char>>::empty());
    assert(env_in(Seq::<Seq<char>>::empty(), key) is None);
}

/// `KEY=value` holds the key, with that value.
proof fn lemma_line_holds(key: Seq<char>, value: Seq<char>)
    requires
        key.len() > 0,
        !is_ws(key[0]),
        value.len() > 0 ==> !is_ws(value.last()),
    ensures
        env_in(seq![env_line(key, value)], key) == Some(value),
{
    let line = env_line(key, value);
    assert(line[0] == key[0]);
    if value.len() > 0 {
        assert(line.last() == value.last());
    } else {
        assert(line.last() == '=');
    }
    crate::text::lemma_trim_itself(line);
    assert(line.subrange(0, key.len() + 1int) =~= key + seq!['=']);
    assert(line.skip(key.len() + 1int) =~= value);
}

/// A run of characters none of which is a line break.
pub open spec fn one_line(s: Seq<char>) -> bool {
    !s.contains('\n')
}

proof fn lemma_env_line_one_line(key: Seq<char>, value: Seq<char>)
    requires
        one_line(key),
        one_line(value),
    ensures
        one_line(env_line(key, value)),
{
    let l = env_line(key, value);
    if l.contains('\n') {
        let i = choose|i: int| 0 <= i < l.len() && l[i] == '\n';
        if i < key.len() {
            assert(key[i] == '\n');
        } else if i > key.len() {
            assert(value[i - key.len() - 1] == '\n');
        }
    }
}

/// The lines of `network.env`: the two comments, the five settings, and the empty rest
/// after the final line break.
proof fn lemma_net_lines(bind: Seq<char>, https_bind: Seq<char>, http_port: Seq<char>, https_port: Seq<char>, site: Seq<char>)
    requires
        one_line(bind),
        one_line(https_bind),
        one_line(http_port),
        one_line(https_port),
        one_line(site),
    ensures
        split_on(net_text(bind, https_bind, http_port, https_port, site), '\n') == seq![
            net_comment_1(),
            net_comment_2(),
            env_line("OTW_BIND"@, bind),
            env_line("OTW_HTTPS_BIND"@, https_bind),
            env_line("OTW_HTTP_PORT"@, http_port),
            env_line("OTW_HTTPS_PORT"@, https_port),
            env_line("OTW_DOMAIN"@, site),
            Seq::<char>::empty(),
        ],
{
    reveal_strlit("# Generated by OpenTraderWorld — network exposure. Secret-free; safe to read.");
    reveal_strlit("# Edit via Settings → Network, then run: docker compose up -d");
    reveal_strlit("OTW_BIND");
    reveal_strlit("OTW_HTTPS_BIND");
    reveal_strlit("OTW_HTTP_PORT");
    reveal_strlit("OTW_HTTPS_PORT");
    reveal_strlit("OTW_DOMAIN");
    let c1 = net_comment_1();
    let c2 = net_comment_2();
    let l1 = env_line("OTW_BIND"@, bind);
    let l2 = env_line("OTW_HTTPS_BIND"@, https_bind);
    let l3 = env_line("OTW_HTTP_PORT"@, http_port);
    let l4 = env_line("OTW_HTTPS_PORT"@, https_port);
    let l5 = env_line("OTW_DOMAIN"@, site);
    lemma_env_line_one_line("OTW_BIND"@, bind);
    lemma_env_line_one_line("OTW_HTTPS_BIND"@, https_bind);
    lemma_env_line_one_line("OTW_HTTP_PORT"@, http_port);
    lemma_env_line_one_line("OTW_HTTPS_PORT"@, https_port);
    lemma_env_line_one_line("OTW_DOMAIN"@, site);
    lemma_split_single(c1, '\n');
    lemma_split_single(c2, '\n');
    lemma_split_single(l1, '\n');
    lemma_split_single(l2, '\n');
    lemma_split_single(l3, '\n');
    lemma_split_single(l4, '\n');
    lemma_split_single(l5, '\n');
    let t1 = c1 + nl() + c2;
    let t2 = t1 + nl() + l1;
    let t3 = t2 + nl() + l2;
    let t4 = t3 + nl() + l3;
    let t5 = t4 + nl() + l4;
    let t6 = t5 + nl() + l5;
    let e = Seq::<char>::empty();
    lemma_split_join(c1, c2, '\n');
    lemma_split_join(t1, l1, '\n');
    lemma_split_join(t2, l2, '\n');
    lemma_split_join(t3, l3, '\n');
    lemma_split_join(t4, l4, '\n');
    lemma_split_join(t5, l5, '\n');
    lemma_split_join(t6, e, '\n');
    assert(t6 + nl() + e =~= net_text(bind, https_bind, http_port, https_port, site));
    assert(split_on(e, '\n') == seq![e]);
}

/// The value a settings key reads back as from `network.env`.
proof fn lemma_net_reads(bind: Seq<char>, https_bind: Seq<char>, http_port: Seq<char>, https_port: Seq<char>, site: Seq<char>)
    requires
        one_line(bind) && bind.len() > 0 && !is_ws(bind.last()),
        one_line(https_bind) && https_bind.len() > 0 && !is_ws(https_bind.last()),
        one_line(http_port) && http_port.len() > 0 && !is_ws(http_port.last()),
        one_line(https_port) && https_port.len() > 0 && !is_ws(https_port.last()),
        one_line(site) && site.len() > 0 && !is_ws(site.last()),
    ensures
        env_value(net_text(bind, https_bind, http_port, https_port, site), "OTW_BIND"@) == Some(bind),
        env_value(net_text(bind, https_bind, http_port, https_port, site), "OTW_DOMAIN"@) == Some(site),
        env_value(net_text(bind, https_bind, http_port, https_port, site), "OTW_HTTP_PORT"@) == Some(http_port),
{
    lemma_net_lines(bind, https_bind, http_port, https_port, site);
    reveal_strlit("# Generated by OpenTraderWorld — network exposure. Secret-free; safe to read.");
    reveal_strlit("# Edit via Settings → Network, then run: docker compose up -d");
    reveal_strlit("OTW_BIND");
    reveal_strlit("OTW_HTTPS_BIND");
    reveal_strlit("OTW_HTTP_PORT");
    reveal_strlit("OTW_HTTPS_PORT");
    reveal_strlit("OTW_DOMAIN");
    let c1 = net_comment_1();
    let c2 = net_comment_2();
    let l1 = env_line("OTW_BIND"@, bind);
    let l2 = env_line("OTW_HTTPS_BIND"@, https_bind);
    let l3 = env_line("OTW_HTTP_PORT"@, http_port);
    let l4 = env_line("OTW_HTTPS_PORT"@, https_port);
    let l5 = env_line("OTW_DOMAIN"@, site);
    let e = Seq::<char>::empty();
    let lines = seq![c1, c2, l1, l2, l3, l4, l5, e];
    assert(lines =~= seq![c1] + (seq![c2] + (seq![l1] + (seq![l2] + (seq![l3] + (seq![l4] + (seq![l5] + seq![e])))))));
    // The comments start with `#`, every key with `O`.
    assert(c1[0] == '#' && c2[0] == '#');
    assert(!is_ws(c1.last()) && !is_ws(c2.last()));
    assert(l2[0] == 'O' && l3[0] == 'O' && l4[0] == 'O');
    assert(l1.last() == bind.last());
    assert(l2.last() == https_bind.last());
    assert(l3.last() == http_port.last());
    assert(l4.last() == https_port.last());
    assert(l5.last() == site.last());
    let k_bind = "OTW_BIND"@;
    let k_domain = "OTW_DOMAIN"@;
    let k_port = "OTW_HTTP_PORT"@;
    // OTW_BIND: the third line.
    lemma_line_misses(c1, k_bind, 0);
    lemma_line_misses(c2, k_bind, 0);
    lemma_line_holds(k_bind, bind);
    // OTW_DOMAIN: the seventh line; the settings before it differ at their fifth character.
    lemma_line_misses(c1, k_domain, 0);
    lemma_line_misses(c2, k_domain, 0);
    lemma_line_misses(l1, k_domain, 4);
    lemma_line_misses(l2, k_domain, 4);
    lemma_line_misses(l3, k_domain, 4);
    lemma_line_misses(l4, k_domain, 4);
    lemma_line_holds(k_domain, site);
    // OTW_HTTP_PORT: the fifth line; OTW_HTTPS_BIND differs at its ninth character.
    lemma_line_misses(c1, k_port, 0);
    lemma_line_misses(c2, k_port, 0);
    lemma_line_misses(l1, k_port, 4);
    lemma_line_misses(l2, k_port, 8);
    lemma_line_holds(k_port, http_port);
    let tail7 = seq![l5] + seq![e];
    let tail6 = seq![l4] + tail7;
    let tail5 = seq![l3] + tail6;
    let tail4 = seq![l2] + tail5;
    let tail3 = seq![l1] + tail4;
    let tail2 = seq![c2] + tail3;
    lemma_env_concat(seq![c1], tail2, k_bind);
    lemma_env_concat(seq![c2], tail3, k_bind);
    lemma_env_concat(seq![l1], tail4, k_bind);
    lemma_env_concat(seq![c1], tail2, k_domain);
    lemma_env_concat(seq![c2], tail3, k_domain);
    lemma_env_concat(seq![l1], tail4, k_domain);
    lemma_env_concat(seq![l2], tail5, k_domain);
    lemma_env_concat(seq![l3], tail6, k_domain);
    lemma_env_concat(seq![l4], tail7, k_domain);
    lemma_env_concat(seq![l5], seq![e], k_domain);
    lemma_env_concat(seq![c1], tail2, k_port);
    lemma_env_concat(seq![c2], tail3, k_port);
    lemma_env_concat(seq![l1], tail4, k_port);
    lemma_env_concat(seq![l2], tail5, k_port);
    lemma_env_concat(seq![l3], tail6, k_port);
}


/// The lines of `dns.env`: three comments, the ACME line, and the empty rest.
proof fn lemma_dns_reads(acme: Seq<char>)
    requires
        one_line(acme),
        acme.len() > 0 ==> !is_ws(acme.last()),
    ensures
        env_value(dns_env_of(acme), "OTW_ACME_GLOBAL"@) == Some(acme),
{
    reveal_strlit("# Generated by OpenTraderWorld — ACME DNS challenge for Caddy (LAN + HTTPS mode).");
    reveal_strlit("# Contains your DNS provider token when set: do not commit or share.");
    reveal_strlit("# Edit via Settings → Network, then run: docker compose up -d");
    reveal_strlit("OTW_ACME_GLOBAL");
    let d1 = dns_comment_1();
    let d2 = dns_comment_2();
    let c2 = net_comment_2();
    let k = "OTW_ACME_GLOBAL"@;
    let l = env_line(k, acme);
    let e = Seq::<char>::empty();
    lemma_env_line_one_line(k, acme);
    lemma_split_single(d1, '\n');
    lemma_split_single(d2, '\n');
    lemma_split_single(c2, '\n');
    lemma_split_single(l, '\n');
    let t1 = d1 + nl() + d2;
    let t2 = t1 + nl() + c2;
    let t3 = t2 + nl() + l;
    lemma_split_join(d1, d2, '\n');
    lemma_split_join(t1, c2, '\n');
    lemma_split_join(t2, l, '\n');
    lemma_split_join(t3, e, '\n');
    assert(t3 + nl() + e =~= dns_env_of(acme));
    assert(split_on(e, '\n') == seq![e]);
    let tail3 = seq![l] + seq![e];
    let tail2 = seq![c2] + tail3;
    assert(seq![d2] + tail2 =~= seq![d2, c2, l, e]);
    assert(d1[0] == '#' && d2[0] == '#' && c2[0] == '#');
    assert(!is_ws(d1.last()) && !is_ws(d2.last()) && !is_ws(c2.last()));
    lemma_line_misses(d1, k, 0);
    lemma_line_misses(d2, k, 0);
    lemma_line_misses(c2, k, 0);
    lemma_line_holds(k, acme);
    assert(split_on(dns_env_of(acme), '\n') =~= seq![d1] + (seq![d2] + tail2));
    lemma_env_concat(seq![d1], seq![d2] + tail2, k);
    lemma_env_concat(seq![d2], tail2, k);
    lemma_env_concat(seq![c2], tail3, k);
    lemma_env_concat(seq![l], seq![e], k);
}

/// The word starting at `i` ends at the first white space after it.
proof fn lemma_word_end_at(s: Seq<char>, i: int, j: int)
    requires
        0 <= i <= j <= s.len(),
        forall|k: int| i <= k < j ==> !is_ws(#[trigger] s[k]),
        j == s.len() || is_ws(s[j]),
    ensures
        word_end(s, i) == j,
    decreases j - i,
{
    if i < j {
        lemma_word_end_at(s, i + 1, j);
    }
}

/// A run without white space.
pub open spec fn one_word(w: Seq<char>) -> bool {
    w.len() > 0 && forall|i: int| 0 <= i < w.len() ==> !is_ws(#[trigger] w[i])
}

/// `acme_dns <provider> <token>` splits into its three words.
proof fn lemma_acme_words(provider: Seq<char>, token: Seq<char>)
    requires
        one_word(provider),
        one_word(token),
    ensures
        words_from("acme_dns "@ + provider + " "@ + token, 0) == seq!["acme_dns"@, provider, token],
{
    reveal_strlit("acme_dns ");
    reveal_strlit("acme_dns");
    reveal_strlit(" ");
    let s = "acme_dns "@ + provider + " "@ + token;
    let p = provider.len() as int;
    let n = s.len() as int;
    assert(n == 10 + p + token.len());
    assert(s[8] == ' ');
    assert(s[9 + p] == ' ');
    assert forall|k: int| 1 <= k < 8 implies !is_ws(#[trigger] s[k]) by {}
    assert forall|k: int| 10 <= k < 9 + p implies !is_ws(#[trigger] s[k]) by {
        assert(s[k] == provider[k - 9]);
    }
    assert forall|k: int| 11 + p <= k < n implies !is_ws(#[trigger] s[k]) by {
        assert(s[k] == token[k - 10 - p]);
    }
    assert(s[9] == provider[0]);
    assert(s[10 + p] == token[0]);
    lemma_word_end_at(s, 1, 8);
    lemma_word_end_at(s, 10, 9 + p);
    lemma_word_end_at(s, 11 + p, n);
    assert(s.subrange(0, 8) =~= "acme_dns"@);
    assert(s.subrange(9, 9 + p) =~= provider);
    assert(s.subrange(10 + p, n) =~= token);
    assert(words_from(s, n) == Seq::<Seq<char>>::empty());
    assert(words_from(s, 10 + p) == seq![token] + words_from(s, n));
    assert(words_from(s, 9 + p) == words_from(s, 10 + p));
    assert(words_from(s, 9) == seq![provider] + words_from(s, 9 + p));
    assert(words_from(s, 8) == words_from(s, 9));
    assert(words_from(s, 0) == seq!["acme_dns"@] + words_from(s, 8));
    assert(seq!["acme_dns"@] + (seq![provider] + (seq![token] + Seq::<Seq<char>>::empty())) =~= seq!["acme_dns"@, provider, token]);
}

/// The ACME line a save writes: the provider and token in `lan_https`, nothing otherwise.
pub open spec fn saved_acme(mode: Seq<char>, provider: Seq<char>, token: Seq<char>) -> Seq<char> {
    if mode == "lan_https"@ { "acme_dns "@ + provider + " "@ + token } else { Seq::empty() }
}

/// What the files of a save read back as: the mode, and the port, domain, provider and
/// token flag that mode shows.
pub open spec fn saved_read(mode: Seq<char>, port: u32, domain: Seq<char>, provider: Seq<char>) -> (Seq<char>, Seq<char>, Seq<char>, Seq<char>, bool) {
    if mode == "local"@ || mode == "lan"@ {
        (mode, decimal_of(port as nat), Seq::empty(), "duckdns"@, false)
    } else if mode == "lan_https"@ {
        (mode, "443"@, domain, provider, true)
    } else {
        (mode, "443"@, domain, "duckdns"@, false)
    }
}

/// A save reads back as itself: the files written for a mode, a port and a domain (and, in
/// `lan_https`, the DNS provider and token) give that mode back when no stored setting
/// exists, so the settings page never shows a different mode than the one running.
pub proof fn lemma_saved_settings_read_back(mode: Seq<char>, port: u32, domain: Seq<char>, provider: Seq<char>, token: Seq<char>)
    requires
        known_mode(mode),
        mode == "web"@ || mode == "lan_https"@ ==> domain.len() > 0 && forall|i: int|
            0 <= i < domain.len() ==> label_char(#[trigger] domain[i]) || domain[i] == '.',
        mode == "lan_https"@ ==> one_word(provider) && one_word(token),
    ensures
        network_read_of(network_env_of(mode, port, domain), Some(dns_env_of(saved_acme(mode, provider, token))))
            == Some(saved_read(mode, port, domain, provider)),
{
    reveal_strlit("local");
    reveal_strlit("lan");
    reveal_strlit("lan_https");
    reveal_strlit("web");
    reveal_strlit("127.0.0.1");
    reveal_strlit("0.0.0.0");
    reveal_strlit(":80");
    reveal_strlit("443");
    reveal_strlit("8443");
    reveal_strlit("duckdns");
    reveal_strlit("acme_dns ");
    reveal_strlit(" ");
    assert("web"@[0] != "local"@[0] && "web"@[0] != "lan"@[0] && "web"@[0] != "lan_https"@[0]);
    assert("lan_https"@.len() != "lan"@.len() && "lan_https"@[1] != "local"@[1]);
    assert("local"@[1] != "lan"@[1]);
    let (bind, https_bind, http_port, https_port, site) = knobs_of(mode, port, domain);
    crate::text::lemma_decimal_digits(http_port as nat);
    crate::text::lemma_decimal_digits(https_port as nat);
    let hp = decimal_of(http_port as nat);
    let hsp = decimal_of(https_port as nat);
    assert(one_line(hp)) by {
        if hp.contains('\n') {
            let i = choose|i: int| 0 <= i < hp.len() && hp[i] == '\n';
            assert(crate::text::is_digit(hp[i]));
        }
    }
    assert(one_line(hsp)) by {
        if hsp.contains('\n') {
            let i = choose|i: int| 0 <= i < hsp.len() && hsp[i] == '\n';
            assert(crate::text::is_digit(hsp[i]));
        }
    }
    assert(crate::text::is_digit(hp.last()) && crate::text::is_digit(hsp.last()));
    assert(one_line(bind) && one_line(https_bind) && bind.len() > 0 && https_bind.len() > 0);
    assert(!is_ws(bind.last()) && !is_ws(https_bind.last()));
    assert(one_line(site) && site.len() > 0 && !is_ws(site.last())) by {
        if mode == "web"@ || mode == "lan_https"@ {
            assert(site == domain);
            if site.contains('\n') {
                let i = choose|i: int| 0 <= i < site.len() && site[i] == '\n';
                assert(label_char(domain[i]) || domain[i] == '.');
            }
            assert(label_char(domain[domain.len() - 1]) || domain[domain.len() - 1] == '.');
        }
    }
    lemma_net_reads(bind, https_bind, hp, hsp, site);
    let acme = saved_acme(mode, provider, token);
    assert(one_line(acme) && (acme.len() > 0 ==> !is_ws(acme.last()))) by {
        if mode == "lan_https"@ {
            if acme.contains('\n') {
                let i = choose|i: int| 0 <= i < acme.len() && acme[i] == '\n';
                if i >= 10 + provider.len() {
                    assert(acme[i] == token[i - 10 - provider.len()]);
                } else if 9 <= i < 9 + provider.len() {
                    assert(acme[i] == provider[i - 9]);
                }
            }
            assert(acme.last() == token.last());
            assert(token.last() == token[token.len() - 1]);
        }
    }
    lemma_dns_reads(acme);
    if mode == "lan_https"@ {
        lemma_acme_words(provider, token);
    } else {
        assert(words_from(acme, 0) == Seq::<Seq<char>>::empty());
    }
    if mode == "web"@ || mode == "lan_https"@ {
        assert(site != ":80"@) by {
            assert(site == domain);
            assert(label_char(domain[0]) || domain[0] == '.');
            assert(":80"@[0] == ':');
        }
    } else {
        assert(site == ":80"@);
    }
    assert("0.0.0.0"@ != "127.0.0.1"@) by {
        assert("0.0.0.0"@[0] != "127.0.0.1"@[0]);
    }
}
} // verus!
