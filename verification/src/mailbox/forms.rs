//! What the mailbox screens send, read and checked: a new account, the start and the landing
//! of an OAuth sign-in, an unsubscribe, a reminder to read a message, and the header an
//! attachment is served under.

use vstd::prelude::*;

use crate::mailbox::oauth::{redirect_of, redirect_uri};
use crate::text::{chars_of, str_eq, string_of, trim, trim_vec};

verus! {

/// A security mode the IMAP connection can use.
pub open spec fn security_ok(s: Seq<char>) -> bool {
    s == "ssl"@ || s == "starttls"@ || s == "none"@
}

/// How a mailbox signs in.
pub open spec fn auth_kind_ok(s: Seq<char>) -> bool {
    s == "password"@ || s == "oauth"@
}

/// What is wrong with a new account, checked in the order the form is read: the first
/// failing field.
pub open spec fn account_error(
    host: Seq<char>,
    username: Seq<char>,
    security: Seq<char>,
    auth_kind: Seq<char>,
    port: int,
    client_id: Seq<char>,
    email: Seq<char>,
    has_vault_item: bool,
) -> Option<Seq<char>> {
    if trim(host).len() == 0 {
        Some("a server address is required"@)
    } else if trim(username).len() == 0 {
        Some("a username is required"@)
    } else if !security_ok(security) {
        Some("unknown security mode: "@ + security)
    } else if !auth_kind_ok(auth_kind) {
        Some("unknown authentication mode: "@ + auth_kind)
    } else if !(1 <= port <= 65535) {
        Some("port must be between 1 and 65535"@)
    } else if auth_kind == "oauth"@ && trim(client_id).len() == 0 {
        Some("an application (client) ID is required for this provider"@)
    } else if auth_kind == "oauth"@ && trim(email).len() == 0 {
        Some("the mailbox address is required — it is what the sign-in is issued for"@)
    } else if auth_kind != "oauth"@ && !has_vault_item {
        Some("a vault item holding the password is required"@)
    } else {
        None
    }
}

fn blank(s: &str) -> (b: bool)
    ensures
        b == (trim(s@).len() == 0),
{
    trim_vec(&chars_of(s)).len() == 0
}

/// Check a new mailbox account before it is stored. A password account names the vault item
/// that holds its password; an OAuth one names the application it signs in through and the
/// address the sign-in is issued for.
pub fn validate_account(
    host: &str,
    username: &str,
    security: &str,
    auth_kind: &str,
    port: i64,
    client_id: &str,
    email: &str,
    has_vault_item: bool,
) -> (r: Result<(), String>)
    ensures
        match account_error(host@, username@, security@, auth_kind@, port as int, client_id@, email@, has_vault_item) {
            None => r is Ok,
            Some(m) => r matches Err(e) && e@ == m,
        },
{
    if blank(host) {
        return Err("a server address is required".to_string());
    }
    if blank(username) {
        return Err("a username is required".to_string());
    }
    if !(str_eq(security, "ssl") || str_eq(security, "starttls") || str_eq(security, "none")) {
        let mut e = "unknown security mode: ".to_string();
        e.append(security);
        return Err(e);
    }
    if !(str_eq(auth_kind, "password") || str_eq(auth_kind, "oauth")) {
        let mut e = "unknown authentication mode: ".to_string();
        e.append(auth_kind);
        return Err(e);
    }
    if !(1 <= port && port <= 65535) {
        return Err("port must be between 1 and 65535".to_string());
    }
    if str_eq(auth_kind, "oauth") {
        if blank(client_id) {
            return Err("an application (client) ID is required for this provider".to_string());
        }
        if blank(email) {
            return Err("the mailbox address is required — it is what the sign-in is issued for".to_string());
        }
    } else if !has_vault_item {
        return Err("a vault item holding the password is required".to_string());
    }
    Ok(())
}

/// How a sign-in is run.
#[derive(Debug)]
pub enum Flow {
    /// Authorization code with PKCE, landing on this redirect URI.
    Code(String),
    /// The device code, entered on another screen.
    Device,
}

/// Choose how an account's sign-in runs. Only an OAuth account with an application ID signs
/// in this way; the browser's own origin decides the flow: a redirect URI Microsoft accepts
/// gets the code flow, anything else (or an explicit `device`) the device code.
pub fn sign_in_flow(auth_kind: &str, client_id: &str, mode: Option<&str>, origin: Option<&str>) -> (r: Result<Flow, String>)
    ensures
        auth_kind@ != "oauth"@ ==> (r matches Err(e) && e@ == "this mailbox signs in with a password"@),
        auth_kind@ == "oauth"@ && trim(client_id@).len() == 0 ==> (r matches Err(e)
            && e@ == "this mailbox has no application (client) ID"@),
        auth_kind@ == "oauth"@ && trim(client_id@).len() > 0 ==> match (mode, origin) {
            (Some(m), _) if m@ == "device"@ => r matches Ok(Flow::Device),
            (_, Some(o)) if redirect_of(o@) is Some => r matches Ok(Flow::Code(u)) && redirect_of(o@) == Some(u@),
            _ => r matches Ok(Flow::Device),
        },
{
    if !str_eq(auth_kind, "oauth") {
        return Err("this mailbox signs in with a password".to_string());
    }
    if blank(client_id) {
        return Err("this mailbox has no application (client) ID".to_string());
    }
    let device = match mode {
        Some(m) => str_eq(m, "device"),
        None => false,
    };
    if !device {
        if let Some(o) = origin {
            if let Some(u) = redirect_uri(o) {
                return Ok(Flow::Code(u));
            }
        }
    }
    Ok(Flow::Device)
}

/// What the landing of a redirect sign-in carries.
#[derive(Debug)]
pub enum Landing {
    /// The user declined or the tenant refused: the flow ends with this error.
    Declined(String),
    /// A code to redeem.
    Redeem(String),
}

/// Read a redirect's landing. An error wins over a code; a landing with neither is refused.
pub fn landing(code: Option<&str>, error: Option<&str>) -> (r: Result<Landing, String>)
    ensures
        match error {
            Some(e) if trim(e@).len() > 0 => r matches Ok(Landing::Declined(x)) && x@ == e@,
            _ => match code {
                Some(c) if trim(c@).len() > 0 => r matches Ok(Landing::Redeem(x)) && x@ == c@,
                _ => r matches Err(m) && m@ == "this redirect carries no authorization code"@,
            },
        },
{
    if let Some(e) = error {
        if !blank(e) {
            return Ok(Landing::Declined(e.to_string()));
        }
    }
    if let Some(c) = code {
        if !blank(c) {
            return Ok(Landing::Redeem(c.to_string()));
        }
    }
    Err("this redirect carries no authorization code".to_string())
}

/// How to leave a list.
#[derive(Debug)]
pub enum Unsubscribe {
    /// The sender takes a one-click POST (RFC 8058): send it from here.
    OneClick(String),
    /// Hand the link to the user to open: a GET on an unsubscribe link can mean anything.
    Open(String),
}

/// Unsubscribe from the list a message came from, given the link its headers offer and whether
/// they announce one-click support.
pub fn unsubscribe_plan(url: Option<String>, one_click: bool) -> (r: Result<Unsubscribe, String>)
    ensures
        match url {
            None => r matches Err(e)
                && e@ == "this sender offers no unsubscribe link — open the message and use its own link"@,
            Some(u) => if one_click {
                r matches Ok(Unsubscribe::OneClick(x)) && x@ == u@
            } else {
                r matches Ok(Unsubscribe::Open(x)) && x@ == u@
            },
        },
{
    match url {
        None => Err("this sender offers no unsubscribe link — open the message and use its own link".to_string()),
        Some(u) => if one_click {
            Ok(Unsubscribe::OneClick(u))
        } else {
            Ok(Unsubscribe::Open(u))
        },
    }
}

/// The name and details of a "remind me to read this": the subject (or `(no subject)`), and who
/// sent it.
pub fn reminder_text(subject: &str, sender_name: &str, sender_addr: &str) -> (r: (String, String))
    ensures
        r.0@ == "Read: "@ + (if subject@.len() == 0 { "(no subject)"@ } else { subject@ }),
        r.1@ == sender_name@ + " — "@ + sender_addr@,
{
    let mut name = "Read: ".to_string();
    if subject.is_empty() {
        name.append("(no subject)");
    } else {
        name.append(subject);
    }
    let mut details = sender_name.to_string();
    details.append(" — ");
    details.append(sender_addr);
    (name, details)
}

/// `s` without its double quotes.
pub open spec fn unquoted(s: Seq<char>) -> Seq<char> {
    s.filter(|c: char| c != '"')
}

/// The `Content-Disposition` an attachment is served under: always an attachment, never
/// inline, with the name's own quotes dropped so it cannot end the quoted name early.
pub fn attachment_disposition(filename: &str) -> (r: String)
    ensures
        r@ == "attachment; filename=\""@ + unquoted(filename@) + "\""@,
{
    let v = chars_of(filename);
    let mut kept: Vec<char> = Vec::new();
    let mut i: usize = 0;
    while i < v.len()
        invariant
            i <= v@.len(),
            v@ == filename@,
            kept@ == unquoted(v@.take(i as int)),
        decreases v@.len() - i,
    {
        proof {
            assert(v@.take(i + 1).drop_last() == v@.take(i as int));
            assert(v@.take(i + 1).last() == v@[i as int]);
            v@.take(i as int).lemma_filter_push(v@[i as int], |c: char| c != '"');
            assert(v@.take(i as int).push(v@[i as int]) == v@.take(i + 1));
        }
        if v[i] != '"' {
            kept.push(v[i]);
        }
        i = i + 1;
    }
    assert(v@.take(v@.len() as int) == v@);
    let mut r = "attachment; filename=\"".to_string();
    r.append(string_of(kept.as_slice()).as_str());
    r.append("\"");
    r
}

/// The name in a disposition holds no double quote: the header's only quotes are the two
/// around it.
pub proof fn lemma_name_holds_no_quote(filename: Seq<char>)
    ensures
        !unquoted(filename).contains('"'),
{
    let u = unquoted(filename);
    assert forall|i: int| 0 <= i < u.len() implies u[i] != '"' by {
        filename.lemma_filter_pred(|c: char| c != '"', i);
    }
}

} // verus!
