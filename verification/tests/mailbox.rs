use otw_core::mailbox::body::truncate;
use otw_core::mailbox::forms::{
    attachment_disposition, landing, reminder_text, sign_in_flow, unsubscribe_plan, validate_account, Flow, Landing,
    Unsubscribe,
};
use otw_core::mailbox::imap::uid_set;
use otw_core::mailbox::oauth::{
    after_refresh, base, describe, error_code, pkce_challenge, redirect_uri, RefreshError, TokenStep, XOAuth2,
};
use otw_core::mailbox::ingest::{batch_stored, credential_gone, credential_source, first_contact, stores_mail, Credential};
use otw_core::mailbox::message::{mail_parts, parse_raw};
use otw_core::mailbox::parse::{parse, sanitize_filename, unsubscribe_url, MailParts, RawPart};
use otw_core::mailbox::sanitize::{clean, restore_images, snippet};

/// What the caller hands `error_code` and `describe`: the two fields of a JSON error body,
/// or nothing when the body is not one.
fn error_body(body: &str) -> Option<(String, String)> {
    let v: serde_json::Value = serde_json::from_str(body).ok()?;
    let obj = v.as_object()?;
    let field = |k: &str| -> Option<String> {
        match obj.get(k) {
            None => Some(String::new()),
            Some(serde_json::Value::String(s)) => Some(s.clone()),
            Some(_) => None,
        }
    };
    Some((field("error")?, field("error_description")?))
}

#[test]
fn uid_set_is_comma_separated() {
    assert_eq!(uid_set(&[3, 4, 9]), "3,4,9");
    assert_eq!(uid_set(&[]), "");
}

#[test]
fn truncate_respects_char_boundaries() {
    let s = "héllo wörld".to_string();
    let cut = truncate(s, 3);
    assert!(cut.starts_with("hé") || cut.starts_with("h"));
    assert!(cut.ends_with('…'));
}

#[test]
fn xoauth2_sends_the_payload_once() {
    let mut a = XOAuth2::new("me@example.com", "TOK");
    assert_eq!(a.process(b""), "user=me@example.com\x01auth=Bearer TOK\x01\x01");
    // The failure challenge must be answered with an empty line, not the payload again.
    assert_eq!(a.process(b"{\"status\":\"401\"}"), "");
}

#[test]
fn error_shaping_prefers_microsofts_wording() {
    let body = r#"{"error":"invalid_grant","error_description":"AADSTS50173: token revoked\r\nTrace ID: x"}"#;
    assert_eq!(error_code(error_body(body)), "invalid_grant");
    assert_eq!(describe(error_body(body), 400), "AADSTS50173: token revoked");
    assert_eq!(describe(error_body("not json"), 503), "Microsoft answered 503");
}

#[test]
fn redirect_uri_accepts_https_and_loopback_only() {
    assert_eq!(
        redirect_uri("http://127.0.0.1:5454"),
        Some("http://127.0.0.1:5454/mailbox/oauth".into())
    );
    assert_eq!(
        redirect_uri("https://mail.example.com/"),
        Some("https://mail.example.com/mailbox/oauth".into())
    );
    // Plain HTTP on a LAN address is not registerable — device code is the fallback.
    assert_eq!(redirect_uri("http://192.168.1.10:5454"), None);
    // Microsoft does not support the IPv6 loopback literal.
    assert_eq!(redirect_uri("http://[::1]:5454"), None);
    assert_eq!(redirect_uri("not a url"), None);
}

#[test]
fn pkce_challenge_is_the_sha256_of_the_verifier() {
    // RFC 7636 appendix B.
    let verifier = "dBjftJeZ4CVP-mB92K27uhbUJU1p1r_wW1gFWFOEjXk";
    assert_eq!(pkce_challenge(verifier), "E9Melhoa2OwvFrEMTJguCHaoeK1t8URWbuGJSstw-cM");
}

#[test]
fn tenant_defaults_to_common() {
    assert!(base("  ").ends_with("/common/oauth2/v2.0"));
    assert!(base("contoso.onmicrosoft.com").contains("contoso.onmicrosoft.com"));
}

#[test]
fn filenames_cannot_escape() {
    let f = sanitize_filename("../../etc/passwd");
    assert!(!f.contains('/') && !f.contains('\\') && !f.starts_with('.'), "{f}");
    assert_eq!(sanitize_filename("statement 2026-07.pdf"), "statement 2026-07.pdf");
    assert_eq!(sanitize_filename("  "), "attachment");
}

#[test]
fn scripts_and_styles_never_survive() {
    let (out, _) = clean("<p>hi</p><script>alert(1)</script><style>p{}</style>");
    assert!(!out.contains("script"));
    assert!(!out.contains("alert"));
    assert!(out.contains("hi"));
}

#[test]
fn remote_images_are_parked_and_restorable() {
    let (out, found) = clean(r#"<img src="https://track.example/pixel.gif?u=42">"#);
    assert!(found);
    assert!(!out.contains(" src="));
    assert!(out.contains("data-otw-src=\"https://track.example/pixel.gif?u=42\""));
    assert!(restore_images(&out).contains(" src=\"https://track.example/pixel.gif?u=42\""));
}

#[test]
fn javascript_urls_are_dropped_before_parking() {
    let (out, found) = clean(r#"<a href="javascript:alert(1)">x</a><img src="cid:logo">"#);
    assert!(!found);
    assert!(!out.contains("javascript"));
}

#[test]
fn snippet_collapses_whitespace() {
    assert_eq!(snippet("  a\n\n  b   c ", 100), "a b c");
    assert_eq!(snippet("abcdef", 3), "abc");
}

const NEWSLETTER: &[u8] = b"From: The Weekly <hello@weekly.example>\r\n\
Subject: Issue 42\r\n\
Message-ID: <abc@weekly.example>\r\n\
List-Unsubscribe: <mailto:u@weekly.example>, <https://weekly.example/u/42>\r\n\
List-Unsubscribe-Post: List-Unsubscribe=One-Click\r\n\
Content-Type: text/plain\r\n\r\n\
Hello there.\r\n";

const PERSONAL: &[u8] = b"From: Ana <ana@example.org>\r\n\
Subject: lunch?\r\n\
Content-Type: text/plain\r\n\r\n\
tomorrow?\r\n";

#[test]
fn bulk_mail_is_recognised() {
    let m = parse(&mail_parts(NEWSLETTER).expect("parses"));
    assert!(m.is_bulk);
    assert!(m.list_unsub_post);
    assert_eq!(m.from_addr, "hello@weekly.example");
    assert_eq!(m.from_name, "The Weekly");
    assert_eq!(m.subject, "Issue 42");
    assert_eq!(unsubscribe_url(&m.list_unsubscribe).as_deref(), Some("https://weekly.example/u/42"));
}

#[test]
fn personal_mail_is_not_bulk() {
    let m = parse(&mail_parts(PERSONAL).expect("parses"));
    assert!(!m.is_bulk);
    assert!(m.list_unsubscribe.is_empty());
}

#[test]
fn a_precedence_header_alone_makes_mail_bulk() {
    let mut p = mail_parts(PERSONAL).unwrap();
    p.precedence = Some(" Bulk\r\n".to_string());
    assert!(parse(&p).is_bulk);
    p.precedence = Some("first-class".to_string());
    assert!(!parse(&p).is_bulk);
}

#[test]
fn only_named_parts_that_are_not_inline_are_attachments() {
    let mut p = mail_parts(PERSONAL).unwrap();
    p.parts = vec![
        RawPart { name: Some("../report.pdf".into()), has_content_id: false, ctype: Some(("application".into(), Some("pdf".into()))), bytes: vec![1, 2] },
        RawPart { name: Some("logo.png".into()), has_content_id: true, ctype: None, bytes: vec![3] },
        RawPart { name: Some("  ".into()), has_content_id: false, ctype: None, bytes: vec![4] },
        RawPart { name: Some("notes".into()), has_content_id: false, ctype: None, bytes: vec![5] },
    ];
    let m = parse(&p);
    assert_eq!(m.attachments.len(), 2);
    assert_eq!(m.attachments[0].filename, "_report.pdf");
    assert_eq!(m.attachments[0].mime, "application/pdf");
    assert_eq!(m.attachments[0].bytes, vec![1, 2]);
    assert_eq!(m.attachments[1].mime, "application/octet-stream");
}

#[test]
fn a_new_account_is_checked_field_by_field() {
    let ok = |auth: &str, port: i64, client: &str, email: &str, vault: bool| {
        validate_account("imap.example.com", "me", "ssl", auth, port, client, email, vault)
    };
    assert!(ok("password", 993, "", "", true).is_ok());
    assert!(ok("oauth", 993, "app-id", "me@example.com", false).is_ok());
    assert_eq!(
        validate_account("  ", "me", "ssl", "password", 993, "", "", true).unwrap_err(),
        "a server address is required"
    );
    assert_eq!(
        validate_account("h", "", "ssl", "password", 993, "", "", true).unwrap_err(),
        "a username is required"
    );
    assert_eq!(
        validate_account("h", "u", "tls", "password", 993, "", "", true).unwrap_err(),
        "unknown security mode: tls"
    );
    assert_eq!(
        validate_account("h", "u", "ssl", "kerberos", 993, "", "", true).unwrap_err(),
        "unknown authentication mode: kerberos"
    );
    assert_eq!(ok("password", 0, "", "", true).unwrap_err(), "port must be between 1 and 65535");
    assert_eq!(ok("password", 65536, "", "", true).unwrap_err(), "port must be between 1 and 65535");
    assert_eq!(
        ok("oauth", 993, " ", "me@example.com", false).unwrap_err(),
        "an application (client) ID is required for this provider"
    );
    assert_eq!(
        ok("oauth", 993, "app-id", "", false).unwrap_err(),
        "the mailbox address is required — it is what the sign-in is issued for"
    );
    assert_eq!(ok("password", 993, "", "", false).unwrap_err(), "a vault item holding the password is required");
}

#[test]
fn the_origin_decides_the_sign_in_flow() {
    assert_eq!(
        sign_in_flow("password", "id", None, None).unwrap_err(),
        "this mailbox signs in with a password"
    );
    assert_eq!(
        sign_in_flow("oauth", "  ", None, None).unwrap_err(),
        "this mailbox has no application (client) ID"
    );
    match sign_in_flow("oauth", "id", None, Some("https://otw.example.com")).unwrap() {
        Flow::Code(u) => assert_eq!(u, redirect_uri("https://otw.example.com").unwrap()),
        other => panic!("expected the code flow, got {other:?}"),
    }
    assert!(matches!(
        sign_in_flow("oauth", "id", Some("device"), Some("https://otw.example.com")).unwrap(),
        Flow::Device
    ));
    assert!(matches!(
        sign_in_flow("oauth", "id", None, Some("http://192.168.1.20:8080")).unwrap(),
        Flow::Device
    ));
}

#[test]
fn a_landing_carries_an_error_or_a_code() {
    match landing(Some("abc"), Some("access_denied")).unwrap() {
        Landing::Declined(e) => assert_eq!(e, "access_denied"),
        other => panic!("unexpected {other:?}"),
    }
    match landing(Some("abc"), Some("  ")).unwrap() {
        Landing::Redeem(c) => assert_eq!(c, "abc"),
        other => panic!("unexpected {other:?}"),
    }
    assert_eq!(landing(None, None).unwrap_err(), "this redirect carries no authorization code");
}

#[test]
fn only_a_one_click_list_is_left_from_here() {
    assert!(matches!(
        unsubscribe_plan(Some("https://l.example/u".into()), true).unwrap(),
        Unsubscribe::OneClick(u) if u == "https://l.example/u"
    ));
    assert!(matches!(
        unsubscribe_plan(Some("https://l.example/u".into()), false).unwrap(),
        Unsubscribe::Open(u) if u == "https://l.example/u"
    ));
    assert_eq!(
        unsubscribe_plan(None, true).unwrap_err(),
        "this sender offers no unsubscribe link — open the message and use its own link"
    );
}

#[test]
fn a_reminder_names_the_message_it_points_at() {
    let (name, details) = reminder_text("", "Ana", "ana@example.com");
    assert_eq!(name, "Read: (no subject)");
    assert_eq!(details, "Ana — ana@example.com");
    assert_eq!(reminder_text("Weekly", "A", "a@b").0, "Read: Weekly");
}

#[test]
fn an_attachment_name_cannot_close_its_quotes() {
    assert_eq!(
        attachment_disposition("re\"port\".pdf"),
        "attachment; filename=\"report.pdf\""
    );
}

#[test]
fn a_rotated_refresh_token_is_sealed_before_the_access_token_is_handed_out() {
    let (steps, got) = after_refresh("old", Ok(("AT".to_string(), Some("new".to_string()), 3599)));
    assert_eq!(got.unwrap(), "AT");
    assert_eq!(steps.len(), 3);
    assert!(matches!(&steps[0], TokenStep::Persist(t) if t == "new"));
    assert!(matches!(steps[1], TokenStep::Touch));
    assert!(matches!(&steps[2], TokenStep::Cache { token, expires_in: 3599 } if token == "AT"));
    let (steps, _) = after_refresh("same", Ok(("AT".to_string(), Some("same".to_string()), 10)));
    assert_eq!(steps.len(), 2);
    let (steps, _) = after_refresh("old", Ok(("AT".to_string(), None, 10)));
    assert!(matches!(steps[0], TokenStep::Touch));
}

#[test]
fn a_revoked_grant_is_recorded_and_a_blip_changes_nothing() {
    let (steps, got) = after_refresh("old", Err(RefreshError::Revoked("AADSTS70008: expired".to_string())));
    assert_eq!(got.unwrap_err(), "sign-in expired: AADSTS70008: expired");
    assert!(matches!(steps[0], TokenStep::Forget));
    assert!(matches!(&steps[1], TokenStep::NeedsReauth(m) if m == "AADSTS70008: expired"));
    let (steps, got) = after_refresh("old", Err(RefreshError::Transient("reaching Microsoft: timeout".to_string())));
    assert!(steps.is_empty());
    assert_eq!(got.unwrap_err(), "reaching Microsoft: timeout");
}

#[test]
fn a_mailbox_signs_in_with_the_item_its_kind_needs() {
    assert_eq!(credential_source("oauth", Some(1), Some(2)).unwrap(), Credential::SignIn(2));
    assert_eq!(credential_source("password", Some(1), Some(2)).unwrap(), Credential::Password(1));
    assert_eq!(
        credential_source("oauth", Some(1), None).unwrap_err(),
        "this mailbox has not been signed in yet — use “Reconnect”"
    );
    assert_eq!(credential_source("password", None, Some(2)).unwrap_err(), "this mailbox has no password attached");
    assert_eq!(credential_gone(&Credential::Password(1)), "the vault item holding this password no longer exists");
}

#[test]
fn a_stale_sign_in_is_flagged_by_name() {
    let (title, details) = otw_core::mailbox::ingest::stale_notice("Work");
    assert_eq!(title, "Mailbox: Work");
    assert_eq!(
        details,
        "This mailbox has not signed in for over 60 days. Microsoft drops a sign-in after 90 days \
         without use — open it and fetch once to keep it alive."
    );
}

#[test]
fn only_an_https_unsubscribe_link_is_offered() {
    assert_eq!(unsubscribe_url("<http://a.example/u>"), None);
    assert_eq!(
        unsubscribe_url("<mailto:u@a.example>, <http://a.example/u>, < https://a.example/v >").as_deref(),
        Some("https://a.example/v")
    );
}

fn parsed_from(addr: &str, bulk: bool) -> otw_core::mailbox::ingest::ParsedMail {
    otw_core::mailbox::ingest::ParsedMail {
        from_addr: addr.to_string(),
        from_name: String::new(),
        subject: String::new(),
        message_id: String::new(),
        date: None,
        html: None,
        text: None,
        list_unsubscribe: String::new(),
        list_unsub_post: false,
        is_bulk: bulk,
        attachments: Vec::new(),
    }
}

#[test]
fn a_batch_stores_only_kept_senders_mail_and_counts_new_rows() {
    let news = parsed_from("hello@weekly.example", true);
    let ana = parsed_from("ana@example.org", false);
    let nobody = parsed_from("", true);
    assert_eq!(first_contact(Some(&news)), Some(("kept", "newsletter")));
    assert_eq!(first_contact(Some(&ana)), Some(("pending", "other")));
    assert_eq!(first_contact(Some(&nobody)), None);
    assert_eq!(first_contact(None), None);
    assert!(stores_mail(Some(&news), "kept"));
    assert!(!stores_mail(Some(&ana), "pending"));
    assert!(!stores_mail(Some(&nobody), "kept"));
    assert!(!stores_mail(None, "kept"));
    assert_eq!(batch_stored(&[(true, true), (false, true), (true, false), (true, true)]), 2);
}

#[test]
fn raw_bytes_parse_end_to_end() {
    let m = parse_raw(NEWSLETTER).expect("parses");
    assert_eq!(m.from_addr, "hello@weekly.example");
    assert_eq!(m.subject, "Issue 42");
    assert!(m.is_bulk && m.list_unsub_post);
    assert_eq!(unsubscribe_url(&m.list_unsubscribe).as_deref(), Some("https://weekly.example/u/42"));
    let p = parse_raw(PERSONAL).expect("parses");
    assert_eq!(p.from_name, "Ana");
    assert!(!p.is_bulk);
    assert!(parse_raw(b"").is_none());
}
