use otw_core::access::{
    code_verdict, cookie_names, failure_notice, idle_limit, sign_in, SignIn, is_https_mode, login_delay_ms, session_token, setup_token, setup_token_ok,
    setup_token_required, should_alert, totp_key, SpentCodes, LOGIN_DELAY_MAX_MS, LOGIN_FAIL_GRACE,
    SESSION_COOKIE, SESSION_COOKIE_HOST,
};

/// The replay guard's life for a claimed code: three 30-second steps.
const TTL: u64 = 90;

#[test]
fn a_totp_step_can_only_be_claimed_once() {
    let mut spent = SpentCodes::new();
    let now = 1_700_000_000u64;
    let user = uuid::Uuid::new_v4().as_u128();
    let step = now / 30;
    assert!(spent.claim(&totp_key(user, step), now, TTL));
    assert!(!spent.claim(&totp_key(user, step), now, TTL), "the same code must not work twice");
    assert!(spent.claim(&totp_key(user, step + 1), now, TTL), "the next step is a different code");
    assert!(
        spent.claim(&totp_key(uuid::Uuid::new_v4().as_u128(), step), now, TTL),
        "another account's codes are unrelated"
    );
}

#[test]
fn a_spent_code_is_forgotten_once_its_life_is_over() {
    let mut spent = SpentCodes::new();
    let key = totp_key(7, 100);
    assert!(spent.claim(&key, 1000, TTL));
    assert!(!spent.claim(&key, 1000 + TTL - 1, TTL));
    assert!(spent.claim(&key, 1000 + TTL, TTL));
}

#[test]
fn a_totp_key_is_the_user_and_the_step() {
    assert_eq!(totp_key(0x1234, 42), "00000000-0000-0000-0000-000000001234:42");
}

#[test]
fn the_login_delay_is_per_source() {
    assert_eq!(login_delay_ms(0, 0), 0);
    assert!(login_delay_ms(LOGIN_FAIL_GRACE + 2, 0) > 0);
    // Another source has no failures of its own.
    assert_eq!(login_delay_ms(0, 0), 0);
}

#[test]
fn the_login_delay_grows_by_half_a_second_and_stops_at_twenty() {
    assert_eq!(login_delay_ms(LOGIN_FAIL_GRACE, 0), 0);
    assert_eq!(login_delay_ms(LOGIN_FAIL_GRACE + 1, 0), 500);
    assert_eq!(login_delay_ms(LOGIN_FAIL_GRACE + 4, 0), 2000);
    assert_eq!(login_delay_ms(u32::MAX, 0), LOGIN_DELAY_MAX_MS);
    // A spray from everywhere slows everyone once the global grace is spent.
    assert_eq!(login_delay_ms(0, 20), 0);
    assert_eq!(login_delay_ms(0, 22), 1000);
}

#[test]
fn the_owner_hears_of_a_run_of_failures() {
    assert!(!should_alert(9));
    assert!(should_alert(10));
    assert!(should_alert(11));
}

#[test]
fn either_cookie_name_carries_the_session() {
    assert_eq!(session_token(None, Some("abc")).as_deref(), Some("abc"));
    assert_eq!(session_token(Some("xyz"), None).as_deref(), Some("xyz"));
    // With both present the __Host- one wins.
    assert_eq!(session_token(Some("xyz"), Some("abc")).as_deref(), Some("xyz"));
    assert_eq!(session_token(None, None), None);
}

#[test]
fn only_network_facing_modes_need_a_setup_token() {
    assert!(setup_token_required("web"));
    assert!(setup_token_required("lan_https"));
    assert!(!setup_token_required("lan"), "the living room is not the internet");
    assert!(!setup_token_required("local"));
    assert!(!setup_token_required(""), "an unknown mode is not gated");
}

#[test]
fn https_modes_are_the_tls_terminating_ones() {
    assert!(is_https_mode("web"));
    assert!(is_https_mode("lan_https"));
    assert!(!is_https_mode("lan"));
    assert!(!is_https_mode("local"));
}

#[test]
fn the_cookie_follows_tls() {
    assert_eq!(cookie_names(true), (SESSION_COOKIE_HOST, SESSION_COOKIE));
    assert_eq!(cookie_names(false), (SESSION_COOKIE, SESSION_COOKIE_HOST));
    assert_eq!(idle_limit("web"), Some(24));
    assert_eq!(idle_limit("lan"), None);
}

#[test]
fn the_setup_token_is_the_first_sixteen_bytes() {
    let g = "abcdefghijklmnopqrstuvwxyz";
    assert_eq!(setup_token("web", Some(g)).as_deref(), Some("abcdefghijklmnop"));
    assert_eq!(setup_token("lan", Some(g)), None);
    assert!(setup_token_ok(Some("  abcdefghijklmnop "), "abcdefghijklmnop"));
    assert!(!setup_token_ok(None, "abcdefghijklmnop"));
    assert!(!setup_token_ok(Some("abcdefghijklmnoq"), "abcdefghijklmnop"));
}

#[test]
fn a_wrong_password_and_an_unknown_user_read_the_same() {
    match sign_in(false, true, Some("123456")) {
        SignIn::Refused(f) => {
            assert!(f.code.is_none());
            assert_eq!(f.message, "invalid username or password");
            assert_eq!(f.failure.as_deref(), Some("wrong username or password"));
        }
        other => panic!("expected a refusal, got {other:?}"),
    }
}

#[test]
fn the_second_factor_is_asked_for_only_after_the_password() {
    assert!(matches!(sign_in(true, false, None), SignIn::Admitted));
    match sign_in(true, true, Some("   ")) {
        SignIn::Refused(f) => {
            assert_eq!(f.code.as_deref(), Some("totp_required"));
            assert_eq!(f.message, "enter the six-digit code from your authenticator");
            assert!(f.failure.is_none());
        }
        other => panic!("expected the code prompt, got {other:?}"),
    }
    match sign_in(true, true, Some(" 123456 ")) {
        SignIn::CheckCode(c) => assert_eq!(c, "123456"),
        other => panic!("expected a code to check, got {other:?}"),
    }
    assert!(code_verdict("ana", true).is_ok());
    let f = code_verdict("ana", false).unwrap_err();
    assert_eq!(f.message, "that code is not valid");
    assert_eq!(f.failure.as_deref(), Some("wrong second factor for 'ana'"));
}

#[test]
fn a_failed_sign_in_is_logged_and_alerted_past_the_threshold() {
    let (line, alert) = failure_notice("wrong username or password", "203.0.113.9", 3);
    assert_eq!(line, "wrong username or password from 203.0.113.9 (attempt 3 in the last 15 minutes)");
    assert!(alert.is_none());
    let (_, alert) = failure_notice("wrong username or password", "203.0.113.9", 25);
    let alert = alert.unwrap();
    assert!(alert.starts_with("Source: 203.0.113.9\nFailed attempts in the last 15 minutes: 25\n\nEach one"));
}
