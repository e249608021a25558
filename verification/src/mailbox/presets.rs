//! Provider presets: the "which mail services can I connect?" answer, as data.
//!
//! Every entry is plain IMAP with an app password, because that is what a self-hosted app
//! with no public callback URL can do honestly; Outlook is the one that signs in with OAuth,
//! since Microsoft dropped password authentication for IMAP.

use vstd::prelude::*;

verus! {

/// One connectable mail service.
#[derive(Debug, Clone, Copy)]
pub struct Preset {
    pub id: &'static str,
    pub label: &'static str,
    pub host: &'static str,
    pub port: u16,
    pub security: &'static str,
    /// `password` (app password) or `oauth` (browser sign-in).
    pub auth: &'static str,
    /// Where the user creates the app password, or registers the OAuth application.
    pub help_url: &'static str,
    /// False: this provider cannot be connected at all.
    pub supported: bool,
}

/// A supported app-password preset.
pub fn p(
    id: &'static str,
    label: &'static str,
    host: &'static str,
    port: u16,
    security: &'static str,
    help_url: &'static str,
) -> (r: Preset)
    ensures
        r.id == id && r.label == label && r.host == host && r.port == port && r.security == security
            && r.help_url == help_url && r.auth == "password" && r.supported,
{
    Preset { id, label, host, port, security, auth: "password", help_url, supported: true }
}

/// The presets as the settings screen lists them.
pub open spec fn presets_table() -> Seq<Preset> {
    seq![
        Preset {
            id: "fastmail",
            label: "Fastmail",
            host: "imap.fastmail.com",
            port: 993,
            security: "ssl",
            auth: "password",
            help_url: "https://app.fastmail.com/settings/security/apppasswords",
            supported: true,
        },
        Preset {
            id: "mailbox-org",
            label: "mailbox.org",
            host: "imap.mailbox.org",
            port: 993,
            security: "ssl",
            auth: "password",
            help_url: "https://kb.mailbox.org/en/private/e-mail-article/imap-and-smtp-settings/",
            supported: true,
        },
        Preset {
            id: "migadu",
            label: "Migadu",
            host: "imap.migadu.com",
            port: 993,
            security: "ssl",
            auth: "password",
            help_url: "https://www.migadu.com/guides/",
            supported: true,
        },
        Preset {
            id: "zoho",
            label: "Zoho Mail",
            host: "imap.zoho.eu",
            port: 993,
            security: "ssl",
            auth: "password",
            help_url: "https://www.zoho.com/mail/help/imap-access.html",
            supported: true,
        },
        Preset {
            id: "gmail",
            label: "Gmail",
            host: "imap.gmail.com",
            port: 993,
            security: "ssl",
            auth: "password",
            help_url: "https://myaccount.google.com/apppasswords",
            supported: true,
        },
        Preset {
            id: "icloud",
            label: "iCloud Mail",
            host: "imap.mail.me.com",
            port: 993,
            security: "ssl",
            auth: "password",
            help_url: "https://support.apple.com/en-us/102654",
            supported: true,
        },
        Preset {
            id: "yahoo",
            label: "Yahoo / AOL",
            host: "imap.mail.yahoo.com",
            port: 993,
            security: "ssl",
            auth: "password",
            help_url: "https://help.yahoo.com/kb/SLN15241.html",
            supported: true,
        },
        Preset {
            id: "posteo",
            label: "Posteo",
            host: "posteo.de",
            port: 993,
            security: "ssl",
            auth: "password",
            help_url: "https://posteo.de/en/help/which-settings-do-i-need-to-set-in-my-email-program",
            supported: true,
        },
        Preset {
            id: "proton-bridge",
            label: "Proton Mail (Bridge)",
            host: "127.0.0.1",
            port: 1143,
            security: "starttls",
            auth: "password",
            help_url: "https://proton.me/mail/bridge",
            supported: true,
        },
        Preset {
            id: "outlook",
            label: "Outlook.com / Microsoft 365",
            host: "outlook.office365.com",
            port: 993,
            security: "ssl",
            auth: "oauth",
            help_url: "https://entra.microsoft.com/#view/Microsoft_AAD_RegisteredApps/ApplicationsListBlade",
            supported: true,
        },
        Preset {
            id: "generic",
            label: "Other IMAP server",
            host: "",
            port: 993,
            security: "ssl",
            auth: "password",
            help_url: "",
            supported: true,
        },
    ]
}

/// The presets, in the order the screen lists them: ten named services and a generic one.
pub fn presets() -> (v: Vec<Preset>)
    ensures
        v@ == presets_table(),
{
    let mut v: Vec<Preset> = Vec::new();
    v.push(p("fastmail", "Fastmail", "imap.fastmail.com", 993, "ssl", "https://app.fastmail.com/settings/security/apppasswords"));
    v.push(p("mailbox-org", "mailbox.org", "imap.mailbox.org", 993, "ssl", "https://kb.mailbox.org/en/private/e-mail-article/imap-and-smtp-settings/"));
    v.push(p("migadu", "Migadu", "imap.migadu.com", 993, "ssl", "https://www.migadu.com/guides/"));
    v.push(p("zoho", "Zoho Mail", "imap.zoho.eu", 993, "ssl", "https://www.zoho.com/mail/help/imap-access.html"));
    v.push(p("gmail", "Gmail", "imap.gmail.com", 993, "ssl", "https://myaccount.google.com/apppasswords"));
    v.push(p("icloud", "iCloud Mail", "imap.mail.me.com", 993, "ssl", "https://support.apple.com/en-us/102654"));
    v.push(p("yahoo", "Yahoo / AOL", "imap.mail.yahoo.com", 993, "ssl", "https://help.yahoo.com/kb/SLN15241.html"));
    v.push(p("posteo", "Posteo", "posteo.de", 993, "ssl", "https://posteo.de/en/help/which-settings-do-i-need-to-set-in-my-email-program"));
    v.push(p("proton-bridge", "Proton Mail (Bridge)", "127.0.0.1", 1143, "starttls", "https://proton.me/mail/bridge"));
    // Microsoft dropped password auth for IMAP, so this one signs in with OAuth: an
    // authorization code with PKCE, the device code kept as a fallback.
    let outlook = p(
        "outlook",
        "Outlook.com / Microsoft 365",
        "outlook.office365.com",
        993,
        "ssl",
        "https://entra.microsoft.com/#view/Microsoft_AAD_RegisteredApps/ApplicationsListBlade",
    );
    v.push(Preset { auth: "oauth", ..outlook });
    v.push(p("generic", "Other IMAP server", "", 993, "ssl", ""));
    assert(v@ =~= presets_table());
    v
}

} // verus!
