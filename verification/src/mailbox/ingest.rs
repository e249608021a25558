//! What a poll keeps of each downloaded mail: the default filing of a new sender, the
//! cleaned and cut fields of the stored message, the attachments within the cap, and the
//! notification it raises.

use vstd::prelude::*;

use crate::mailbox::body::{truncate, truncate_spec, MAX_ATTACHMENT_KB, MAX_BODY_KB, SNIPPET_CHARS};
use crate::mailbox::parse::Attachment;
use crate::mailbox::sanitize::{clean, park, sanitized_of, snip, snippet, strip_tags, to_text};
use crate::text::{chars_of, decimal, decimal_of, str_eq, string_of, trim};

verus! {

/// The fields kept of one parsed mail.
pub struct ParsedMail {
    pub from_addr: String,
    pub from_name: String,
    pub subject: String,
    pub message_id: String,
    /// The `Date` header, as seconds since the epoch, when it parsed.
    pub date: Option<i64>,
    pub html: Option<String>,
    pub text: Option<String>,
    pub list_unsubscribe: String,
    /// RFC 8058: the sender accepts a one-click POST to unsubscribe.
    pub list_unsub_post: bool,
    pub is_bulk: bool,
    pub attachments: Vec<Attachment>,
}

/// The largest mail a poll downloads: the body budget, the attachment budget when
/// attachments are kept, and a quarter megabyte of headers and structure.
pub open spec fn max_bytes_of(keep_attachments: bool) -> int {
    (MAX_BODY_KB + if keep_attachments { MAX_ATTACHMENT_KB } else { 0 }) * 1024 + 256 * 1024
}

pub fn max_mail_bytes(keep_attachments: bool) -> (n: u32)
    ensures
        n == max_bytes_of(keep_attachments),
{
    let kb: u32 = 512 + if keep_attachments { 10_240 } else { 0 };
    kb * 1024 + 256 * 1024
}

/// First contact decides the default filing (kept as a newsletter when it is bulk, pending
/// otherwise); the user's later choice always wins.
pub fn default_filing(is_bulk: bool) -> (r: (&'static str, &'static str))
    ensures
        r.0@ == (if is_bulk { "kept"@ } else { "pending"@ }),
        r.1@ == (if is_bulk { "newsletter"@ } else { "other"@ }),
{
    if is_bulk { ("kept", "newsletter") } else { ("pending", "other") }
}

/// Only a kept sender's mail is stored.
pub fn stores_from(sender_status: &str) -> (b: bool)
    ensures
        b == (sender_status@ == "kept"@),
{
    str_eq(sender_status, "kept")
}

/// The first `n` characters.
pub open spec fn first_chars(s: Seq<char>, n: nat) -> Seq<char> {
    if s.len() <= n { s } else { s.take(n as int) }
}

pub fn take_chars(s: &str, n: usize) -> (r: String)
    ensures
        r@ == first_chars(s@, n as nat),
{
    let v = chars_of(s);
    if v.len() <= n {
        return string_of(v.as_slice());
    }
    let mut out: Vec<char> = Vec::new();
    let mut i: usize = 0;
    while i < n
        invariant
            i <= n < v@.len(),
            out@ == v@.take(i as int),
        decreases n - i,
    {
        out.push(v[i]);
        proof {
            assert(v@.take(i + 1) == v@.take(i as int).push(v@[i as int]));
        }
        i = i + 1;
    }
    string_of(out.as_slice())
}

/// A message as stored.
pub struct NewMessage {
    pub uid: u32,
    pub uid_validity: u32,
    pub message_id: String,
    pub subject: String,
    pub snippet: String,
    pub body_html: Option<String>,
    pub body_text: Option<String>,
    pub list_unsubscribe: String,
    pub list_unsub_post: bool,
    pub has_remote_images: bool,
    pub size_bytes: u32,
    pub received_at: i64,
}

/// The preview's source: the plain-text part, else the cleaned HTML's text, else nothing.
pub open spec fn preview_of(text: Option<Seq<char>>, clean_html: Option<Seq<char>>) -> Seq<char> {
    match text {
        Some(t) => t,
        None => match clean_html {
            Some(h) => strip_tags(h, false),
            None => Seq::empty(),
        },
    }
}

pub open spec fn opt_view(o: Option<String>) -> Option<Seq<char>> {
    match o {
        Some(s) => Some(s@),
        None => None,
    }
}

/// The stored message for a parsed mail: the HTML sanitised once, here, with its remote
/// images parked; the snippet from the plain text or the cleaned HTML; the bodies cut to
/// their budget; the identifying fields cut to their columns; the mail's own date, else the
/// server's, else now.
pub fn prepare(parsed: &ParsedMail, uid: u32, uid_validity: u32, size: u32, internal_date: Option<i64>, now: i64) -> (m: NewMessage)
    ensures
        m.uid == uid && m.uid_validity == uid_validity && m.size_bytes == size,
        m.message_id@ == first_chars(parsed.message_id@, 400),
        m.subject@ == first_chars(parsed.subject@, 500),
        m.list_unsubscribe@ == first_chars(parsed.list_unsubscribe@, 1000),
        m.list_unsub_post == parsed.list_unsub_post,
        m.has_remote_images == (parsed.html matches Some(h) && park(sanitized_of(h@)).1),
        opt_view(m.body_html) == (match parsed.html {
            Some(h) => Some(truncate_spec(park(sanitized_of(h@)).0, (MAX_BODY_KB * 1024) as nat)),
            None => None,
        }),
        opt_view(m.body_text) == (match parsed.text {
            Some(t) => Some(truncate_spec(t@, (MAX_BODY_KB * 1024) as nat)),
            None => None,
        }),
        m.snippet@ == trim(snip(
            preview_of(opt_view(parsed.text), match parsed.html {
                Some(h) => Some(park(sanitized_of(h@)).0),
                None => None,
            }),
            Seq::empty(),
            true,
            SNIPPET_CHARS as nat,
        )),
        m.received_at == (match parsed.date {
            Some(d) => d,
            None => match internal_date {
                Some(d) => d,
                None => now,
            },
        }),
{
    let (body_html, remote) = match &parsed.html {
        Some(h) => {
            let (c, r) = clean(h.as_str());
            (Some(c), r)
        },
        None => (None, false),
    };
    let preview = match &parsed.text {
        Some(t) => t.as_str().to_string(),
        None => match &body_html {
            Some(h) => to_text(h.as_str()),
            None => String::new(),
        },
    };
    let received_at = match parsed.date {
        Some(d) => d,
        None => match internal_date {
            Some(d) => d,
            None => now,
        },
    };
    let snippet_text = snippet(preview.as_str(), SNIPPET_CHARS);
    let html_kept = match body_html {
        Some(h) => Some(truncate(h, MAX_BODY_KB * 1024)),
        None => None,
    };
    let text_kept = match &parsed.text {
        Some(t) => Some(truncate(t.as_str().to_string(), MAX_BODY_KB * 1024)),
        None => None,
    };
    NewMessage {
        uid,
        uid_validity,
        message_id: take_chars(parsed.message_id.as_str(), 400),
        subject: take_chars(parsed.subject.as_str(), 500),
        snippet: snippet_text,
        body_html: html_kept,
        body_text: text_kept,
        list_unsubscribe: take_chars(parsed.list_unsubscribe.as_str(), 1000),
        list_unsub_post: parsed.list_unsub_post,
        has_remote_images: remote,
        size_bytes: size,
        received_at,
    }
}

/// Whether an attachment is within the stored cap.
pub fn attachment_kept(a: &Attachment) -> (b: bool)
    ensures
        b == (a.bytes@.len() <= MAX_ATTACHMENT_KB * 1024),
{
    a.bytes.len() <= MAX_ATTACHMENT_KB * 1024
}

/// A sender's label: its name, else its address.
pub fn sender_label<'a>(name: &'a str, from_addr: &'a str) -> (l: &'a str)
    ensures
        l@ == (if name@.len() == 0 { from_addr@ } else { name@ }),
{
    if name.is_empty() { from_addr } else { name }
}

/// The notification a new stored mail raises: `sender: subject`, or `sender: New mail`.
pub fn notification_title(name: &str, from_addr: &str, subject: &str) -> (t: String)
    ensures
        t@ == (if name@.len() == 0 { from_addr@ } else { name@ }) + ": "@ + (if subject@.len() == 0 {
            "New mail"@
        } else {
            subject@
        }),
{
    let mut t = sender_label(name, from_addr).to_string();
    t.append(": ");
    if subject.is_empty() {
        t.append("New mail");
    } else {
        t.append(subject);
    }
    t
}

/// Seconds before a mailbox with mail left over is polled again.
pub const BACKLOG_DELAY_SECS: i32 = 30;
/// Seconds a poll may take before it is abandoned.
pub const POLL_TIMEOUT_SECS: u64 = 180;

/// A backlog left by the per-poll cap is drained soon rather than at the next interval.
pub fn polls_again_soon(remaining: usize) -> (b: bool)
    ensures
        b == (remaining > 0),
{
    remaining > 0
}


/// Where a mailbox's credential is sealed.
#[derive(Debug, PartialEq, Eq)]
pub enum Credential {
    /// The vault item holding an OAuth account's refresh token (read once the token cache
    /// has missed).
    SignIn(u128),
    /// The vault item holding a password account's password.
    Password(u128),
}

/// Which vault item an account signs in with, or why it cannot sign in at all.
pub fn credential_source(auth_kind: &str, vault_item: Option<u128>, refresh_item: Option<u128>) -> (r: Result<Credential, String>)
    ensures
        auth_kind@ == "oauth"@ ==> match refresh_item {
            Some(i) => r == Ok::<Credential, String>(Credential::SignIn(i)),
            None => r matches Err(e) && e@ == "this mailbox has not been signed in yet — use “Reconnect”"@,
        },
        auth_kind@ != "oauth"@ ==> match vault_item {
            Some(i) => r == Ok::<Credential, String>(Credential::Password(i)),
            None => r matches Err(e) && e@ == "this mailbox has no password attached"@,
        },
{
    if str_eq(auth_kind, "oauth") {
        match refresh_item {
            Some(i) => Ok(Credential::SignIn(i)),
            None => Err("this mailbox has not been signed in yet — use “Reconnect”".to_string()),
        }
    } else {
        match vault_item {
            Some(i) => Ok(Credential::Password(i)),
            None => Err("this mailbox has no password attached".to_string()),
        }
    }
}

/// What is said when the vault item a credential points at is gone.
pub fn credential_gone(c: &Credential) -> (m: &'static str)
    ensures
        c is SignIn ==> m@ == "the vault item holding this sign-in no longer exists"@,
        c is Password ==> m@ == "the vault item holding this password no longer exists"@,
{
    match c {
        Credential::SignIn(_) => "the vault item holding this sign-in no longer exists",
        Credential::Password(_) => "the vault item holding this password no longer exists",
    }
}


/// Days without a sign-in after which an OAuth mailbox is flagged: Microsoft drops a
/// sign-in after ninety days without use.
pub const TOKEN_STALE_DAYS: i32 = 60;

/// The notification for a mailbox whose sign-in has gone unused for too long: its title and
/// its details.
pub fn stale_notice(name: &str) -> (r: (String, String))
    ensures
        r.0@ == "Mailbox: "@ + name@,
        r.1@ == "This mailbox has not signed in for over "@ + decimal_of(TOKEN_STALE_DAYS as nat)
            + " days. Microsoft drops a sign-in after 90 days without use — open it and fetch once to keep it alive."@,
{
    let mut title = "Mailbox: ".to_string();
    title.append(name);
    let mut details = "This mailbox has not signed in for over ".to_string();
    details.append(decimal(TOKEN_STALE_DAYS as u64).as_str());
    details.append(" days. Microsoft drops a sign-in after 90 days without use — open it and fetch once to keep it alive.");
    (title, details)
}


/// Whether a downloaded mail can be filed at all: it parsed and names a sender.
pub open spec fn fileable(parsed: Option<&ParsedMail>) -> bool {
    parsed matches Some(p) && p.from_addr@.len() > 0
}

/// The filing a first-seen sender gets, for a mail that can be filed; `None` for a mail that
/// does not parse or names no sender, which is skipped before its sender is touched.
pub fn first_contact(parsed: Option<&ParsedMail>) -> (r: Option<(&'static str, &'static str)>)
    ensures
        !fileable(parsed) ==> r is None,
        fileable(parsed) ==> (r matches Some(f)
            && f.0@ == (if parsed->0.is_bulk { "kept"@ } else { "pending"@ })
            && f.1@ == (if parsed->0.is_bulk { "newsletter"@ } else { "other"@ })),
{
    match parsed {
        Some(p) => if p.from_addr.as_str().is_empty() {
            None
        } else {
            Some(default_filing(p.is_bulk))
        },
        None => None,
    }
}

/// Whether a mail is stored: it parsed, names a sender, and that sender (as the store has it
/// after this contact) is kept. A mail that is not stored gets no message, attachment or
/// notification.
pub fn stores_mail(parsed: Option<&ParsedMail>, sender_status: &str) -> (r: bool)
    ensures
        r == (fileable(parsed) && sender_status@ == "kept"@),
{
    match parsed {
        Some(p) => !p.from_addr.as_str().is_empty() && stores_from(sender_status),
        None => false,
    }
}

/// How many of a batch's mails were stored: those accepted whose row was new (a mail already
/// stored under its UID or Message-ID is not counted twice).
pub open spec fn stored_count(outcomes: Seq<(bool, bool)>) -> nat
    decreases outcomes.len(),
{
    if outcomes.len() == 0 {
        0
    } else {
        stored_count(outcomes.drop_last()) + if outcomes.last().0 && outcomes.last().1 { 1nat } else { 0nat }
    }
}

/// The count a batch returns, from each mail's `(accepted, inserted)`.
pub fn batch_stored(outcomes: &[(bool, bool)]) -> (n: usize)
    ensures
        n == stored_count(outcomes@),
{
    let mut n: usize = 0;
    let mut i: usize = 0;
    while i < outcomes.len()
        invariant
            i <= outcomes@.len(),
            n == stored_count(outcomes@.take(i as int)),
            n <= i,
        decreases outcomes@.len() - i,
    {
        assert(outcomes@.take(i + 1).drop_last() == outcomes@.take(i as int));
        if outcomes[i].0 && outcomes[i].1 {
            n = n + 1;
        }
        i = i + 1;
    }
    assert(outcomes@.take(outcomes@.len() as int) == outcomes@);
    n
}

} // verus!
