use otw_core::live::agg::{Bucketer, FoldStep};
use otw_core::live::alpaca::{feed_of, on_success, symbols, url_for, AlpacaFeed, AlpacaLive, Entitlement};
use otw_core::live::bars::{bar_start, missing_buckets};
use otw_core::json::Json;
use otw_core::live::capitalcom::{CapitalFeed,
    ack_refusal, frame_plans, key as capital_key, socket_refusal, token, CapitalComLive};
use otw_core::live::crypto_venues::{CoinbaseFeed, 
    binance_futures_channel, bitget_channel, bitget_refusal, interval_min, key as venue_key, okx_channel, okx_refusal,
    refused_channel, BitgetLive, KrakenLive, OkxLive,
};
use otw_core::live::fault::{fault_message, fault_of, Failure, LiveError, LiveFault};
use otw_core::live::candle_feeds::{BitgetFeed, KrakenFeed, OkxFeed};
use otw_core::live::frame::{Quote, Update};
use otw_core::live::handshake::{Frame, Handshake};
use otw_core::live::hub::{fold_plan, FoldPlan};
use otw_core::live::reach::grain_for;
use otw_core::live::hub::{
    after_session, begin_session, end_session, SubState, anchor_key, anchored, carried, join_plan, lines_of, next_backoff, on_close, release_step,
    seed_bar_count, seed_from, seed_landing, session_key, sync_plan, AfterSession, JoinPlan, LiveStatus, LiveTarget,
    SyncPlan,
};
use otw_core::live::ibkr::{classify, realtime_what_to_show, IbError, WhatToShow};
use otw_core::live::instrument::Instrument;
use otw_core::live::massive::{aggregate_channel, channel_for, channels, crypto_pair, fx_pair, on_status, MassiveFeed};
use otw_core::live::reach::{
    source_grain_label, stream_capable, stream_capable_for, stream_refusal, streams_asset, BinanceLive, Capability,
};
use otw_core::live::rollover::{Roll, Rollover};
use otw_core::settings::Settings;

fn strings(v: &[&str]) -> Vec<String> {
    v.iter().map(|s| s.to_string()).collect()
}

fn target(provider: &str, connector: u128, ticker: &str, tf: &str) -> LiveTarget {
    LiveTarget {
        dataset_id: None,
        connector_id: connector,
        connector: "test".into(),
        provider: provider.into(),
        asset_type: "crypto".into(),
        ticker: ticker.into(),
        timeframe: tf.into(),
    }
}

// ── The fault classification ────────────────────────────────────────────────

#[test]
fn a_fault_survives_the_anyhow_round_trip() {
    let e = LiveError::err(LiveFault::Plan, "upgrade the plan");
    let wrapped = e.context("live session").context("supervisor");
    assert_eq!(fault_of(&wrapped), LiveFault::Plan);
    assert_eq!(fault_message(&wrapped), "upgrade the plan");
}

#[test]
fn an_unclassified_error_is_transport_and_keeps_its_own_words() {
    let e = Failure::msg("socket closed");
    assert_eq!(fault_of(&e), LiveFault::Transport);
    assert!(fault_message(&e).contains("socket closed"));
}

#[test]
fn only_the_faults_a_human_must_fix_are_terminal() {
    for f in [LiveFault::Auth, LiveFault::Plan, LiveFault::Entitlement, LiveFault::Symbol, LiveFault::Unsupported] {
        assert!(f.terminal(), "{f:?} should stop the supervisor");
    }
    assert!(!LiveFault::Conflict.terminal());
    assert!(!LiveFault::Transport.terminal());
}

#[test]
fn an_unclassified_chain_reads_outermost_first() {
    let e = Failure::msg("socket closed").context("live session").context("supervisor");
    assert_eq!(fault_message(&e), "supervisor: live session: socket closed");
}

#[test]
fn every_fault_has_its_own_code() {
    let all = [
        LiveFault::Auth,
        LiveFault::Plan,
        LiveFault::Entitlement,
        LiveFault::Symbol,
        LiveFault::Unsupported,
        LiveFault::Conflict,
        LiveFault::Transport,
    ];
    let codes: Vec<&str> = all.iter().map(|f| f.code()).collect();
    assert_eq!(codes, ["auth", "plan", "entitlement", "symbol", "unsupported", "conflict", "transport"]);
}

// ── Reach ───────────────────────────────────────────────────────────────────

fn cap(label: &str, timeframes: &[&str], assets: &[&str], stream_tfs: &[&str]) -> Capability {
    Capability {
        label: label.to_string(),
        timeframes: strings(timeframes),
        stream_asset_types: strings(assets),
        stream_timeframes: strings(stream_tfs),
        stream_note: String::new(),
        max_bars_per_req: 1000,
    }
}

fn cap_for(provider: &str) -> Option<Capability> {
    let all = ["1m", "5m", "15m", "1h", "4h", "1d", "1w"];
    match provider {
        "binance" => Some(cap("Binance", &all, &["crypto"], &all)),
        "kraken" => Some(cap("Kraken", &all, &["crypto"], &all)),
        "coinbase" => Some(cap("Coinbase", &all, &["crypto"], &all)),
        "alpaca" => Some(cap("Alpaca", &all, &["equity", "etf", "crypto", "option"], &all)),
        "massive" => Some(cap("Massive", &all, &["equity", "etf", "index", "crypto", "fx", "option", "future"], &all)),
        "ibkr" => Some(cap("Interactive Brokers", &all, &["equity", "etf", "fx", "future", "option", "index"], &all)),
        "yahoo" => Some(cap("Yahoo", &all, &[], &[])),
        _ => None,
    }
}

#[test]
fn live_reach_matches_download_reach_where_there_is_a_transport() {
    for provider in ["binance", "kraken", "coinbase", "alpaca", "massive", "ibkr"] {
        let c = cap_for(provider).unwrap();
        for tf in &c.timeframes {
            assert!(c.stream_timeframes.contains(tf), "{provider} downloads {tf} but will not stream it");
        }
    }
    let capable = |p: &str, a: &str, t: &str| stream_capable_for(p, cap_for(p).as_ref(), a, t);
    assert!(capable("binance", "crypto", "1d"));
    assert!(capable("alpaca", "equity", "1d"));
    assert!(capable("ibkr", "equity", "1w"));
    assert!(capable("alpaca", "equity", "1w"));
    assert!(capable("massive", "future", "1m"));
    assert!(!capable("alpaca", "future", "1m"));
    assert!(!capable("yahoo", "equity", "1m"));
    let why = stream_refusal("alpaca", cap_for("alpaca").as_ref(), "future", "1m").unwrap();
    assert!(why.contains("future"), "{why}");
    assert!(stream_refusal("yahoo", cap_for("yahoo").as_ref(), "equity", "1m").unwrap().contains("no live feed"));
}

#[test]
fn a_refusal_names_the_reach_it_missed() {
    let c = cap_for("alpaca");
    assert_eq!(
        stream_refusal("alpaca", c.as_ref(), "future", "1m").unwrap(),
        "Alpaca streams equity, etf, crypto, option — not future"
    );
    assert_eq!(
        stream_refusal("alpaca", c.as_ref(), "equity", "2h").unwrap(),
        "Alpaca streams 1m, 5m, 15m, 1h, 4h, 1d, 1w live — not 2h"
    );
    assert_eq!(stream_refusal("alpaca", c.as_ref(), "equity", "1h"), None);
    assert_eq!(stream_refusal("yahoo", None, "equity", "1h").unwrap(), "yahoo has no live feed");
    assert!(stream_capable("binance", cap_for("binance").as_ref()));
    assert!(!stream_capable("binance", None));
    assert!(streams_asset("massive", cap_for("massive").as_ref(), "fx"));
}

#[test]
fn the_grain_label_names_what_is_forming() {
    assert_eq!(source_grain_label("binance", "crypto", "BTCUSDT", "1h").as_deref(), Some("native"));
    assert_eq!(source_grain_label("coinbase", "crypto", "BTC-USD", "1h").as_deref(), Some("trades"));
    assert_eq!(source_grain_label("alpaca", "equity", "AAPL", "1d").as_deref(), Some("1m"));
    assert_eq!(source_grain_label("ibkr", "option", "X", "1d").as_deref(), Some("5s"));
    assert_eq!(source_grain_label("ibkr", "equity", "AAPL", "1d").as_deref(), Some("trades"));
    assert_eq!(source_grain_label("yahoo", "equity", "AAPL", "1d"), None);
}

#[test]
fn binance_routes_by_symbol_and_interval() {
    let a = BinanceLive.channel_of(&Instrument::new("BTCUSDT", "crypto", "1m"));
    let b = BinanceLive.channel_of(&Instrument::new("BTCUSDT", "crypto", "1h"));
    assert_eq!(a, "btcusdt@kline_1m");
    assert_ne!(a, b);
}

// ── Alpaca ──────────────────────────────────────────────────────────────────

#[test]
fn the_url_follows_the_entitlement_and_the_asset() {
    assert!(url_for("equity", Entitlement::Iex).unwrap().ends_with("/v2/iex"));
    assert!(url_for("etf", Entitlement::Sip).unwrap().ends_with("/v2/sip"));
    assert!(url_for("option", Entitlement::Iex).unwrap().ends_with("/indicative"));
    assert!(url_for("option", Entitlement::Sip).unwrap().ends_with("/opra"));
    assert!(url_for("crypto", Entitlement::Iex).unwrap().ends_with("/v1beta3/crypto/us"));
    assert!(url_for("future", Entitlement::Sip).is_err());
}

#[test]
fn two_timeframes_of_one_symbol_are_one_subscription() {
    let s = symbols(&[Instrument::new("AAPL", "equity", "1m"), Instrument::new("AAPL", "equity", "1h")]);
    assert_eq!(s, vec!["AAPL".to_string()]);
}

#[test]
fn the_feed_setting_defaults_to_the_free_one() {
    let empty = Settings { entries: Vec::new() };
    assert_eq!(feed_of(&empty).unwrap(), Entitlement::Iex);
    let sip = Settings { entries: vec![("feed".into(), " SIP ".into())] };
    assert_eq!(feed_of(&sip).unwrap(), Entitlement::Sip);
    assert!(feed_of(&Settings { entries: vec![("feed".into(), "nasdaq".into())] }).is_err());
}

#[test]
fn an_instrument_that_joins_before_the_handshake_waits_for_it() {
    let mut feed = AlpacaFeed::new("alpaca", Entitlement::Iex);
    // Opening set: nothing on the wire yet, Alpaca has not answered `auth`.
    assert!(feed.subscribe(symbols(&[Instrument::new("AAPL", "equity", "1m")])).is_empty());
    feed.on_message(&frame(r#"[{"T":"success","msg":"connected"}]"#)).unwrap();
    assert!(matches!(feed.drain_sends()[0], Frame::Auth));
    assert!(feed.on_message(&frame(r#"[{"T":"success","msg":"authenticated"}]"#)).unwrap().is_empty());
    let sent = feed.drain_sends();
    match &sent[0] {
        Frame::Subscribe(c) => assert_eq!(c, &vec!["AAPL".to_string()]),
        _ => panic!("expected a subscribe frame"),
    }
    // A pane joining after the handshake goes straight out.
    let now = feed.subscribe(symbols(&[Instrument::new("MSFT", "equity", "5m")]));
    match &now[0] {
        Frame::Subscribe(c) => assert_eq!(c, &vec!["MSFT".to_string()]),
        _ => panic!("expected a subscribe frame"),
    }
}

#[test]
fn equities_and_crypto_ride_different_alpaca_sockets() {
    let e = AlpacaLive.socket_class(&Instrument::new("AAPL", "equity", "1m")).unwrap();
    let c = AlpacaLive.socket_class(&Instrument::new("BTC/USD", "crypto", "1m")).unwrap();
    assert_ne!(e, c);
}

// ── The crypto venues ───────────────────────────────────────────────────────

#[test]
fn an_unserved_timeframe_is_refused_rather_than_approximated() {
    let e = binance_futures_channel(&Instrument::new("BTCUSDT", "crypto", "30m")).unwrap_err();
    assert_eq!(fault_of(&e), LiveFault::Unsupported);
}

#[test]
fn a_message_names_the_channel_it_belongs_to() {
    assert_eq!(binance_futures_channel(&Instrument::new("ETHUSDT", "crypto", "5m")).unwrap(), "ethusdt@kline_5m");
}

#[test]
fn a_daily_candle_is_the_utc_one() {
    assert_eq!(bitget_channel("1d").unwrap(), "candle1Dutc");
    assert_eq!(bitget_channel("1w").unwrap(), "candle1Wutc");
    let e = bitget_channel("30m").unwrap_err();
    assert_eq!(fault_of(&e), LiveFault::Unsupported);
}

#[test]
fn bitget_the_routing_key_is_the_one_the_hub_asked_for() {
    let inst = Instrument::new("btcusdt", "crypto", "1h");
    assert_eq!(BitgetLive.channel_of(&inst).unwrap(), "candle1H|BTCUSDT");
}

#[test]
fn okx_the_routing_key_is_the_one_the_hub_asked_for() {
    let inst = Instrument::new("btc-usdt", "crypto", "1d");
    assert_eq!(OkxLive.channel_of(&inst).unwrap(), "candle1Dutc|BTC-USDT");
    let e = okx_channel("30m").unwrap_err();
    assert_eq!(fault_of(&e), LiveFault::Unsupported);
}

#[test]
fn a_refusal_is_routed_to_the_pane_named_in_its_sentence() {
    let msg = "Subscribe failed, wrong URL or channel:candle1m,instId:NOSUCH-PAIR doesn't exist. Please use the correct URL.";
    assert_eq!(refused_channel(msg).as_deref(), Some("candle1m|NOSUCH-PAIR"));
    assert_eq!(refused_channel("Wrong URL"), None);
}

#[test]
fn the_socket_class_is_the_interval() {
    let k = KrakenLive;
    assert_eq!(k.socket_class(&Instrument::new("BTC/USD", "crypto", "1h")), "60");
    assert_eq!(k.socket_class(&Instrument::new("BTC/USD", "crypto", "1m")), "1");
    assert_eq!(interval_min("1d"), 1440);
}

// ── Massive ─────────────────────────────────────────────────────────────────

#[test]
fn each_market_has_its_own_cluster_and_prefix() {
    assert_eq!(channel_for("equity", "aapl").unwrap(), ("stocks", "AM.AAPL".into()));
    assert_eq!(channel_for("index", "I:SPX").unwrap(), ("indices", "AM.I:SPX".into()));
    assert_eq!(channel_for("crypto", "BTCUSD").unwrap(), ("crypto", "XA.BTC-USD".into()));
    assert_eq!(channel_for("fx", "EURUSD").unwrap(), ("forex", "CA.EUR/USD".into()));
    assert_eq!(channel_for("future", "esz5").unwrap(), ("futures", "AM.ESZ5".into()));
    assert!(channel_for("bond", "T 4.5 2030").is_err());
}

#[test]
fn a_glued_pair_splits_at_the_longest_quote() {
    assert_eq!(crypto_pair("BTCUSDT"), "BTC-USDT");
    assert_eq!(crypto_pair("X:ETHUSD"), "ETH-USD");
    assert_eq!(crypto_pair("SOL/USD"), "SOL-USD");
    assert_eq!(fx_pair("C:GBPJPY"), "GBP/JPY");
    assert_eq!(fx_pair("EUR-USD"), "EUR/USD");
}

#[test]
fn two_timeframes_of_one_symbol_are_one_massive_channel() {
    let c = channels(&[
        Instrument::new("AAPL", "equity", "1m"),
        Instrument::new("AAPL", "equity", "1h"),
        Instrument::new("T 4.5", "bond", "1m"),
        Instrument::new("MSFT", "equity", "5m"),
    ]);
    assert_eq!(c, vec!["AM.AAPL".to_string(), "AM.MSFT".to_string()]);
}

// ── Interactive Brokers ─────────────────────────────────────────────────────

#[test]
fn the_tick_ceiling_reaches_the_user_in_words() {
    let e = classify(
        "127.0.0.1:4002",
        "AAPL",
        "ib",
        &IbError::Message { code: 10190, message: "Max number of tick-by-tick requests has been reached.".into() },
    );
    assert_eq!(fault_of(&e), LiveFault::Conflict);
    assert!(fault_message(&e).contains("no live tick stream left"));
}

#[test]
fn a_contract_with_no_tick_stream_stops_rather_than_retries() {
    let e = classify("g", "SPX", "ib", &IbError::Message { code: 10189, message: "Tick-by-tick data is not supported for this contract".into() });
    assert_eq!(fault_of(&e), LiveFault::Unsupported);
    assert!(fault_of(&e).terminal());
}

#[test]
fn the_market_data_ceiling_is_a_different_sentence() {
    let e = classify("g", "AAPL", "ib", &IbError::Message { code: 101, message: "Max number of tickers has been reached".into() });
    assert_eq!(fault_of(&e), LiveFault::Conflict);
    assert!(fault_message(&e).contains("market-data lines"));
}

#[test]
fn ib_codes_name_their_fix() {
    let sub = classify("g", "AAPL", "ib", &IbError::Message { code: 354, message: "not subscribed".into() });
    assert_eq!(fault_of(&sub), LiveFault::Entitlement);
    let sym = classify("g", "NOPE", "ib", &IbError::Message { code: 200, message: "No security definition".into() });
    assert_eq!(fault_of(&sym), LiveFault::Symbol);
    let other = classify("g", "AAPL", "ib", &IbError::Message { code: -7, message: "odd".into() });
    assert_eq!(fault_message(&other), "AAPL live: Interactive Brokers -7 — odd");
    let raw = classify("10.0.0.2:4002", "AAPL", "ib", &IbError::Other("connection reset".into()));
    assert_eq!(fault_message(&raw), "AAPL live: Interactive Brokers (10.0.0.2:4002) — connection reset");
    assert_eq!(realtime_what_to_show("fx"), WhatToShow::MidPoint);
    assert_eq!(realtime_what_to_show("equity"), WhatToShow::Trades);
}

// ── Capital.com ─────────────────────────────────────────────────────────────

#[test]
fn a_refused_epic_faults_its_own_pane_and_not_the_socket() {
    assert!(ack_refusal("OIL_CRUDE:MINUTE_5:classic", Some("PROCESSED")).is_none());
    let (k, f) = ack_refusal("NOPE:MINUTE_5:classic", Some("ERROR")).unwrap();
    assert_eq!(k, "NOPE|MINUTE_5");
    assert_eq!(fault_of(&f), LiveFault::Symbol);
    assert_eq!(fault_message(&f), "Capital.com refused NOPE at MINUTE_5: ERROR");
    let (_, g) = ack_refusal("NOPE:MINUTE_5", None).unwrap();
    assert_eq!(fault_message(&g), "Capital.com refused NOPE at MINUTE_5: not processed");
    assert!(ack_refusal("NOCOLON", Some("ERROR")).is_none());
}

#[test]
fn one_frame_per_resolution_carries_every_epic_on_it() {
    let plans = frame_plans(&[
        Instrument::new("gold", "fx", "5m"),
        Instrument::new("US500", "index", "5m"),
        Instrument::new("GOLD", "fx", "1h"),
    ]);
    assert_eq!(plans.len(), 2);
    let five = plans.iter().find(|p| p.resolution == "MINUTE_5").unwrap();
    assert_eq!(five.epics, vec!["GOLD".to_string(), "US500".to_string()]);
}

#[test]
fn a_rejected_token_is_terminal_and_a_refusal_is_not() {
    assert_eq!(fault_of(&socket_refusal(Some("error.invalid.session.token"))), LiveFault::Auth);
    assert_eq!(fault_of(&socket_refusal(Some("too many"))), LiveFault::Transport);
    assert_eq!(fault_message(&socket_refusal(None)), "Capital.com: refused");
    assert_eq!(capital_key("gold", token("1h").unwrap()), "GOLD|HOUR");
    assert_eq!(CapitalComLive.channel_of(&Instrument::new("us500", "index", "1d")).unwrap(), "US500|DAY");
    assert!(token("2h").is_err());
}

// ── Rollover and the fold ───────────────────────────────────────────────────

#[test]
fn a_candle_rolls_forward_on_its_channel() {
    let mut r = Rollover::new();
    assert!(matches!(r.observe("AAPL|MINUTE_5", 1_671_714_000), Roll::First));
    assert!(matches!(r.observe("AAPL|MINUTE_5", 1_671_714_000), Roll::Same));
    assert!(matches!(r.observe("AAPL|MINUTE_5", 1_671_714_300), Roll::Newer { closed: 1_671_714_000 }));
    assert!(matches!(r.observe("AAPL|MINUTE_5", 1_671_714_000), Roll::Stale));
}

#[test]
fn bar_start_buckets_on_epoch() {
    let t = 1_784_834_617; // 2026-07-23 19:23:37 UTC
    assert_eq!(bar_start(t, 60), 1_784_834_580);
    assert_eq!(bar_start(t, 300), 1_784_834_400);
    assert_eq!(bar_start(t, 3600), 1_784_833_200);
    assert_eq!(bar_start(1_784_833_200, 3600), 1_784_833_200);
}

#[test]
fn gap_detection() {
    let a = 1_784_833_200;
    assert!(missing_buckets(a, a + 60, 60).is_empty());
    assert_eq!(missing_buckets(a, a + 240, 60), vec![a + 60, a + 120, a + 180]);
    assert!(missing_buckets(a, a, 60).is_empty());
    assert!(missing_buckets(a + 60, a, 60).is_empty());
}

// Timestamps: 2026-07-23 19:00:00 UTC, and a New York session opening at 2026-01-05
// 05:00:00 UTC.
const BASE: i64 = 1_784_833_200;
const SESSION: i64 = 1_767_589_200;
const DAY: i64 = 86_400;

fn step(straggler: bool, closed_before: Option<i64>, opened: bool, current: i64, completes: bool) -> FoldStep {
    FoldStep { straggler, closed_before, opened, current, completes }
}

#[test]
fn a_remembered_offset_aligns_like_the_bar_it_came_from() {
    let mut from_bar = Bucketer::new(DAY);
    from_bar.anchor(SESSION);
    let mut from_cache = Bucketer::new(DAY);
    from_cache.anchor_at(from_bar.offset());
    assert_eq!(from_bar.offset(), 5 * 3600);
    // 2026-01-05 17:30 UTC lands on the session's open.
    let midday = SESSION + 12 * 3600 + 1800;
    assert_eq!(from_cache.bucket(midday), SESSION);
    assert_eq!(from_cache.bucket(midday), from_bar.bucket(midday));
    // 2026-01-05 02:00 UTC belongs to the session before.
    assert_eq!(from_cache.bucket(SESSION - 3 * 3600), SESSION - DAY);
}

#[test]
fn one_minute_bars_pass_through_at_one_minute() {
    let mut b = Bucketer::new(60);
    // The source bar is the whole bucket: closed at once, no timer involved.
    assert_eq!(b.bar(BASE, 60, true), step(false, None, true, BASE, true));
}

#[test]
fn five_one_minute_bars_make_one_five_minute_bar() {
    let mut b = Bucketer::new(300);
    for i in 0..5i64 {
        let s = b.bar(BASE + 60 * i, 60, true);
        assert_eq!(s.current, BASE);
        assert_eq!(s.opened, i == 0, "minute {i}");
        // Only the fifth minute completes the bucket.
        assert_eq!(s.completes, i == 4, "minute {i}");
    }
}

#[test]
fn a_later_bucket_closes_the_one_in_hand() {
    let mut b = Bucketer::new(300);
    b.bar(BASE, 60, true);
    // Nothing traded for the rest of the period; the next bar belongs to 19:05.
    assert_eq!(b.bar(BASE + 300, 60, true), step(false, Some(BASE), true, BASE + 300, false));
}

#[test]
fn the_timer_closes_a_bucket_a_quiet_market_left_open() {
    let mut b = Bucketer::new(60);
    b.trade(BASE + 3);
    assert_eq!(b.tick(BASE + 30), None);
    assert_eq!(b.tick(BASE + 61), None);
    assert_eq!(b.tick(BASE + 63), Some(BASE));
    assert_eq!(b.tick(BASE + 200), None);
}

#[test]
fn a_straggler_cannot_reopen_a_closed_bucket() {
    let mut b = Bucketer::new(60);
    b.bar(BASE, 60, true); // closes 19:00
    assert!(b.bar(BASE, 60, true).straggler, "a repeat of a closed bucket is dropped, not re-emitted");
}

#[test]
fn a_daily_bucket_follows_the_provider_session_not_the_utc_day() {
    let mut b = Bucketer::new(DAY);
    b.anchor(SESSION);
    // A minute bar from 19:30 that day belongs to the session that opened at 05:00.
    let s = b.bar(SESSION + 14 * 3600 + 1800, 60, true);
    assert_eq!(s.current, SESSION);
    assert!(!s.completes);
    // A minute bar before the anchor time belongs to the previous session.
    let mut b2 = Bucketer::new(DAY);
    b2.anchor(SESSION);
    assert_eq!(b2.bar(SESSION - 3 * 3600, 60, true).current, SESSION - DAY);
}

#[test]
fn priming_keeps_the_session_open_and_extends_it() {
    let mut b = Bucketer::new(DAY);
    b.prime(SESSION);
    // A minute bar later in the same session extends it, it does not restart it.
    assert_eq!(b.bar(SESSION + 14 * 3600 + 1800, 60, true), step(false, None, false, SESSION, false));
    // The next session closes it and opens the next bucket on the same alignment.
    assert_eq!(b.bar(SESSION + DAY, 60, true), step(false, Some(SESSION), true, SESSION + DAY, false));
}

#[test]
fn an_unanchored_bucketer_still_divides_the_epoch() {
    let mut b = Bucketer::new(DAY);
    // 2026-01-05 19:30 UTC folds into 2026-01-05 00:00 UTC.
    assert_eq!(b.bar(SESSION + 14 * 3600 + 1800, 60, true).current, SESSION - 5 * 3600);
}

#[test]
fn trades_build_the_bar_in_order() {
    let mut b = Bucketer::new(60);
    assert!(b.trade(BASE).opened);
    assert_eq!(b.trade(BASE + 10), step(false, None, false, BASE, false));
    assert_eq!(b.trade(BASE + 20), step(false, None, false, BASE, false));
}

#[test]
fn a_late_publishing_feed_waits_out_its_grace() {
    let mut b = Bucketer::with_grace(60, 5);
    b.trade(BASE);
    assert_eq!(b.tick(BASE + 64), None);
    assert_eq!(b.tick(BASE + 65), Some(BASE));
}

// ── The hub ─────────────────────────────────────────────────────────────────

#[test]
fn a_session_is_a_day_and_up() {
    assert!(!anchored(14_400), "4h is epoch-bucketed");
    assert!(anchored(86_400), "a daily bar is a session");
    assert!(anchored(604_800), "so is a week");
}

#[test]
fn what_shares_a_socket_and_what_does_not() {
    let key = 0x1111_2222_3333_4444_5555_6666_7777_8888u128;
    let other = 0x9999_aaaa_bbbb_cccc_dddd_eeee_ffff_0000u128;
    let btc = target("binance", key, "BTCUSDT", "1m");
    let btc_other = target("binance", other, "BTCUSDT", "1m");
    assert_eq!(session_key(btc.connector_id, ""), session_key(key, ""));
    assert_ne!(session_key(btc.connector_id, ""), session_key(btc_other.connector_id, ""));
    assert_eq!(session_key(key, ""), "11112222-3333-4444-5555-666677778888|");
    let k1 = KrakenLive.socket_class(&target("kraken", key, "BTC/USD", "1m").instrument());
    let k3 = KrakenLive.socket_class(&target("kraken", key, "BTC/USD", "1h").instrument());
    assert_ne!(session_key(key, &k1), session_key(key, &k3));
}

#[test]
fn a_subscription_is_an_instrument_at_a_timeframe() {
    let a = target("binance", 1, "BTCUSDT", "1m");
    let b = target("binance", 1, "BTCUSDT", "1h");
    assert_ne!(a.key(), b.key());
    assert_ne!(BinanceLive.channel_of(&a.instrument()), BinanceLive.channel_of(&b.instrument()));
    let mut a = a;
    let mut b = b;
    a.asset_type = "equity".into();
    b.asset_type = "equity".into();
    a.ticker = "AAPL".into();
    b.ticker = "AAPL".into();
    assert_eq!(AlpacaLive.channel_of(&a.instrument()), AlpacaLive.channel_of(&b.instrument()));
}

#[test]
fn lines_are_instruments_per_account() {
    let key = 7u128;
    let other = 8u128;
    let targets = vec![
        target("ibkr", key, "AAPL", "1m"),
        target("ibkr", key, "AAPL", "1h"),
        target("ibkr", key, "MSFT", "5m"),
        target("ibkr", other, "AAPL", "1m"),
    ];
    assert_eq!(lines_of(&targets, key), 2, "one line per instrument, not per pane");
    assert_eq!(lines_of(&targets, other), 1, "the other account pays for its own");
    assert_eq!(lines_of(&[], key), 0);
}

#[test]
fn an_anchor_is_remembered_per_instrument_and_timeframe() {
    let mut a = target("massive", 1, "AAPL", "1d");
    a.asset_type = "equity".into();
    let mut other_key = a.clone();
    other_key.connector_id = 2;
    assert_eq!(anchor_key(&a), anchor_key(&other_key));
    let mut weekly = a.clone();
    weekly.timeframe = "1w".into();
    assert_ne!(anchor_key(&a), anchor_key(&weekly));
    assert_eq!(anchor_key(&a), "massive|equity|AAPL|1d");
}

#[test]
fn the_status_says_whether_to_retry() {
    let s = LiveStatus::from_fault(LiveFault::Plan, "upgrade".into());
    assert_eq!(s.state, "stopped");
    assert_eq!(s.code, Some("plan"));
    let r = LiveStatus::from_fault(LiveFault::Conflict, "busy".into());
    assert_eq!(r.state, "retrying");
    assert_eq!(LiveStatus::connecting().state, "connecting");
    assert_eq!(LiveStatus::live().state, "live");
}

#[test]
fn the_seed_stays_under_the_request_cap() {
    assert_eq!(seed_bar_count(300), 299);
    assert_eq!(seed_bar_count(10_000), 300);
    assert_eq!(seed_bar_count(0), 1);
    assert_eq!(seed_from(1_784_834_617, 60, 3), 1_784_834_580 - 120);
}

#[test]
fn getting_into_sync_costs_a_request_only_when_needed() {
    assert_eq!(sync_plan(true, false, 60, false, 0), SyncPlan::Idle);
    assert_eq!(sync_plan(false, false, 86_400, true, 0), SyncPlan::AdoptAnchor);
    assert_eq!(sync_plan(false, true, 86_400, true, 0), SyncPlan::Seed);
    assert_eq!(sync_plan(false, false, 60, false, 1_784_834_617), SyncPlan::AssumeWhole { last_closed: 1_784_834_520 });
    assert_eq!(sync_plan(false, true, 60, false, 0), SyncPlan::Seed);
}

#[test]
fn a_current_daily_bar_is_primed_and_not_counted_closed() {
    let now = 1_784_834_617;
    let l = seed_landing(&[now - 2 * 86_400, now - 86_400, now - 3600], None, 86_400, now, true);
    assert_eq!(l.anchor_on, Some(now - 3600));
    assert_eq!(l.primed, Some(2));
    assert_eq!(l.seed_last, Some(now - 86_400));
    let epoch = seed_landing(&[], None, 60, now, false);
    assert_eq!(epoch.last_closed, Some(1_784_834_520));
}

#[test]
fn a_gap_is_backfilled_and_a_session_is_reread() {
    let c = on_close(60, Some(1000 * 60), 1004 * 60);
    assert_eq!(c.backfill.map(|s| (s.from, s.to)), Some((1001 * 60, 1004 * 60)));
    assert!(c.settle.is_none());
    assert!(on_close(60, Some(1000 * 60), 1001 * 60).backfill.is_none());
    let d = on_close(86_400, Some(0), 10 * 86_400);
    assert!(d.backfill.is_none());
    assert_eq!(d.settle.map(|s| (s.from, s.to)), Some((10 * 86_400, 11 * 86_400)));
}

#[test]
fn a_terminal_fault_stops_and_a_conflict_waits_longest() {
    assert_eq!(after_session(Some(LiveFault::Auth), 4), AfterSession::Stop);
    assert_eq!(after_session(Some(LiveFault::Conflict), 4), AfterSession::Retry { wait_secs: 30 });
    assert_eq!(after_session(Some(LiveFault::Transport), 4), AfterSession::Retry { wait_secs: 4 });
    assert_eq!(after_session(None, 16), AfterSession::Retry { wait_secs: 1 });
    assert_eq!(next_backoff(16), 30);
    assert_eq!(next_backoff(2), 4);
}

#[test]
fn a_viewer_joins_what_already_runs() {
    assert_eq!(join_plan(None, None, None), JoinPlan::Spawn);
    assert_eq!(join_plan(Some(true), Some(None), None), JoinPlan::Revive);
    assert_eq!(join_plan(Some(false), Some(Some(5)), Some(5)), JoinPlan::Share);
    assert_eq!(join_plan(Some(false), Some(None), Some(5)), JoinPlan::Restart);
    assert_eq!(join_plan(Some(false), None, None), JoinPlan::Add);
    let subs = vec![("a".to_string(), 2), ("b".to_string(), 0), ("c".to_string(), 1)];
    assert_eq!(carried(&subs, "c"), vec![0]);
    assert_eq!(release_step(1, true), (0, true));
    assert_eq!(release_step(1, false), (1, false));
}

#[test]
fn the_fold_belongs_to_the_hub_only_when_the_provider_cannot_do_it() {
    let (agg, src) = fold_plan(Some(3600), grain_for("binance", "crypto"));
    assert_eq!(agg, FoldPlan::Native, "binance publishes the interval itself");
    assert_eq!(src, 3600);

    let (agg, _) = fold_plan(Some(3600), grain_for("coinbase", "crypto"));
    assert_eq!(agg, FoldPlan::Trades { tf: 3600 }, "trades are folded here");

    let (agg, src) = fold_plan(Some(300), grain_for("alpaca", "equity"));
    assert!(matches!(agg, FoldPlan::Bars { tf: 300, .. }));
    assert_eq!(src, 60, "alpaca's grain is the minute bar");
}

#[test]
fn subscriptions_wait_for_the_auth_answer() {
    let mut feed = MassiveFeed::new("massive");
    assert!(feed.subscribe(channels(&[Instrument::new("AAPL", "equity", "1m")])).is_empty());
    feed.on_message(&frame(r#"[{"ev":"status","status":"auth_success"}]"#)).unwrap();
    let sent = feed.drain_sends();
    match &sent[0] {
        Frame::Subscribe(c) => assert_eq!(c, &vec!["AM.AAPL".to_string()]),
        _ => panic!("expected a subscribe frame"),
    }
}

fn to_json(v: &serde_json::Value) -> Json {
    match v {
        serde_json::Value::Null => Json::Null,
        serde_json::Value::Bool(b) => Json::Bool(*b),
        serde_json::Value::Number(n) => Json::Num(n.to_string()),
        serde_json::Value::String(s) => Json::Str(s.clone()),
        serde_json::Value::Array(a) => Json::Arr(a.iter().map(to_json).collect()),
        serde_json::Value::Object(m) => Json::Obj(m.iter().map(|(k, v)| (k.clone(), to_json(v))).collect()),
    }
}

fn frame(text: &str) -> Json {
    to_json(&serde_json::from_str(text).unwrap())
}

fn capital_side(epic: &str, res: &str, price_type: &str, t_ms: i64, c: f64) -> Json {
    frame(&format!(
        r#"{{"status":"OK","destination":"ohlc.event","payload":{{"resolution":"{res}","epic":"{epic}","type":"classic","priceType":"{price_type}","t":{t_ms},"h":{c},"l":{c},"o":{c},"c":{c}}}}}"#
    ))
}

/// The mid a chart draws of a pair of sides.
fn mid_close(bid: &Quote, ask: &Quote) -> f64 {
    (bid.close.parse::<f64>().unwrap() + ask.close.parse::<f64>().unwrap()) / 2.0
}

#[test]
fn a_bar_waits_for_both_sides_and_then_shows_their_mid() {
    let mut f = CapitalFeed::new();
    assert!(f.on_message(&capital_side("AAPL", "MINUTE_5", "bid", 1_671_714_000_000, 134.0)).unwrap().is_empty());
    let out = f.on_message(&capital_side("AAPL", "MINUTE_5", "ask", 1_671_714_000_000, 135.0)).unwrap();
    assert_eq!(out.len(), 1);
    match &out[0] {
        Update::Sides { channel, bar_ts, bid, ask } => {
            assert_eq!(channel, "AAPL|MINUTE_5");
            assert_eq!(*bar_ts, 1_671_714_000);
            assert_eq!(mid_close(bid, ask), 134.5);
        }
        other => panic!("expected a candle, got {other:?}"),
    }
}

#[test]
fn a_newer_bar_closes_the_one_before_it() {
    let mut f = CapitalFeed::new();
    f.on_message(&capital_side("AAPL", "MINUTE_5", "bid", 1_671_714_000_000, 134.0)).unwrap();
    f.on_message(&capital_side("AAPL", "MINUTE_5", "ask", 1_671_714_000_000, 135.0)).unwrap();
    f.on_message(&capital_side("AAPL", "MINUTE_5", "bid", 1_671_714_300_000, 136.0)).unwrap();
    let out = f.on_message(&capital_side("AAPL", "MINUTE_5", "ask", 1_671_714_300_000, 137.0)).unwrap();
    assert_eq!(out.len(), 2);
    assert!(matches!(&out[0], Update::Closed { channel, bar_ts: 1_671_714_000 } if channel == "AAPL|MINUTE_5"));
    match &out[1] {
        Update::Sides { bar_ts, bid, ask, .. } => {
            assert_eq!(*bar_ts, 1_671_714_300);
            assert_eq!(mid_close(bid, ask), 136.5);
        }
        other => panic!("expected a candle, got {other:?}"),
    }
    assert_eq!(f.held_count(), 1);
    // An older candle, replayed, draws nothing.
    f.on_message(&capital_side("AAPL", "MINUTE_5", "bid", 1_671_714_000_000, 1.0)).unwrap();
    assert!(f.on_message(&capital_side("AAPL", "MINUTE_5", "ask", 1_671_714_000_000, 1.0)).unwrap().is_empty());
}

#[test]
fn a_pane_that_leaves_takes_its_sides_with_it() {
    let mut f = CapitalFeed::new();
    f.on_message(&capital_side("A", "MINUTE", "bid", 60_000, 1.0)).unwrap();
    f.on_message(&capital_side("B", "MINUTE", "ask", 60_000, 2.0)).unwrap();
    f.forget("A|MINUTE");
    assert_eq!(f.held_count(), 1);
    let out = f.on_message(&capital_side("B", "MINUTE", "bid", 60_000, 3.0)).unwrap();
    assert!(matches!(&out[0], Update::Sides { bid, ask, .. } if bid.close == "3" && ask.close == "2"));
}

#[test]
fn capital_acks_refuse_panes_and_statuses_refuse_the_socket() {
    let mut f = CapitalFeed::new();
    let out = f
        .on_message(&frame(
            r#"{"status":"OK","destination":"OHLCMarketData.subscribe","payload":{"subscriptions":{"AAPL:MINUTE_5:classic":"PROCESSED","NOPE:MINUTE:classic":"error.invalid.epic"}}}"#,
        ))
        .unwrap();
    assert_eq!(out.len(), 1);
    match &out[0] {
        Update::Fault { channel, failure } => {
            assert_eq!(channel, "NOPE|MINUTE");
            assert_eq!(fault_of(failure), LiveFault::Symbol);
            assert_eq!(fault_message(failure), "Capital.com refused NOPE at MINUTE: error.invalid.epic");
        }
        other => panic!("expected a fault, got {other:?}"),
    }
    let e = f
        .on_message(&frame(r#"{"status":"FAILED","destination":"ping","payload":{"errorCode":"error.invalid.session.token"}}"#))
        .unwrap_err();
    assert_eq!(fault_of(&e), LiveFault::Auth);
    assert!(f.on_message(&frame(r#"{"status":"OK","destination":"ping","payload":{}}"#)).unwrap().is_empty());
}

#[test]
fn massive_status_events_drive_the_handshake() {
    let mut h = Handshake::new();
    assert!(h.subscribe(vec!["AM.AAPL".to_string()]).is_empty());
    assert!(on_status(&mut h, "connected", "Connected Successfully", "c1").is_none());
    assert!(matches!(h.drain_sends()[0], Frame::Auth));
    assert!(on_status(&mut h, "auth_success", "authenticated", "c1").is_none());
    match &h.drain_sends()[0] {
        Frame::Subscribe(c) => assert_eq!(c, &vec!["AM.AAPL".to_string()]),
        _ => panic!("expected a subscribe frame"),
    }
    assert!(on_status(&mut h, "success", "subscribed to: AM.AAPL", "c1").is_none());
    assert!(h.drain_sends().is_empty());
}

#[test]
fn massive_refusals_say_what_the_key_lacks() {
    let mut h = Handshake::new();
    let e = on_status(&mut h, "auth_failed", "authentication failed", "c1").unwrap();
    assert_eq!(fault_of(&e), LiveFault::Plan);
    assert_eq!(
        fault_message(&e),
        "Massive refused the live connection for connector c1. Live streaming is a paid Massive \
         feature and is not part of the free (end-of-day) plan; the same key still downloads history \
         (authentication failed)"
    );
    let t = on_status(&mut h, "auth_timeout", "too slow", "c1").unwrap();
    assert_eq!(fault_of(&t), LiveFault::Auth);
    assert_eq!(fault_message(&t), "Massive did not accept the login for connector c1 in time (too slow)");
    let x = on_status(&mut h, "error", "Maximum number of websocket connections exceeded", "c1").unwrap();
    assert_eq!(fault_of(&x), LiveFault::Conflict);
    assert!(h.drain_sends().is_empty());
}

fn bitget_row(channel: &str, inst: &str, open_ms: i64, close: f64) -> Json {
    frame(&format!(
        r#"{{"action":"update","arg":{{"instType":"SPOT","channel":"{channel}","instId":"{inst}"}},
           "data":[["{open_ms}","1","2","0.5","{close}","10","900","900"]],"ts":"1790014542099"}}"#
    ))
}

/// The close a candle update draws, and whether it is final.
fn bar_close(u: &Update) -> Option<(&str, f64)> {
    match u {
        Update::Bar { channel, quote, .. } => Some((channel.as_str(), quote.close.parse().unwrap())),
        _ => None,
    }
}

#[test]
fn two_panes_on_one_socket_keep_their_own_forming_candle() {
    let mut f = BitgetFeed::new();
    f.on_message(&bitget_row("candle1m", "BTCUSDT", 1_790_014_500_000, 10.0)).unwrap();
    f.on_message(&bitget_row("candle1m", "ETHUSDT", 1_790_014_500_000, 20.0)).unwrap();
    // BTC rolls over; ETH's candle must not be closed by it.
    let out = f.on_message(&bitget_row("candle1m", "BTCUSDT", 1_790_014_560_000, 11.0)).unwrap();
    assert_eq!(out.len(), 2);
    assert!(matches!(&out[0], Update::Closed { channel, bar_ts: 1_790_014_500 } if channel == "candle1m|BTCUSDT"));
    assert_eq!(bar_close(&out[1]), Some(("candle1m|BTCUSDT", 11.0)));
    // ETH's next update at the same open time is still its forming candle, not a rollover.
    let eth = f.on_message(&bitget_row("candle1m", "ETHUSDT", 1_790_014_500_000, 21.0)).unwrap();
    assert_eq!(eth.len(), 1);
    assert_eq!(bar_close(&eth[0]), Some(("candle1m|ETHUSDT", 21.0)));
}

#[test]
fn an_unknown_pair_faults_its_own_pane_and_not_the_socket() {
    let mut f = BitgetFeed::new();
    let out = f
        .on_message(&frame(
            r#"{"event":"error","arg":{"instType":"SPOT","channel":"candle1m","instId":"NOSUCHPAIR"},
                "code":30001,"msg":"instId:NOSUCHPAIR doesn't exist","op":"subscribe"}"#,
        ))
        .unwrap();
    assert_eq!(out.len(), 1);
    match &out[0] {
        Update::Fault { channel, failure } => {
            assert_eq!(channel, "candle1m|NOSUCHPAIR");
            assert_eq!(fault_of(failure), LiveFault::Symbol);
        }
        other => panic!("expected a fault, got {other:?}"),
    }
}

#[test]
fn the_closed_flag_is_read_and_not_inferred() {
    let mut f = OkxFeed::new();
    let forming = r#"{"arg":{"channel":"candle1m","instId":"BTC-USDT"},
        "data":[["1790014800000","86050.4","86050.8","86049.9","86049.9","0.24","20689","20689","0"]]}"#;
    let out = f.on_message(&frame(forming)).unwrap();
    assert_eq!(out.len(), 1);
    match &out[0] {
        Update::Bar { channel, closed, .. } => {
            assert_eq!(channel, "candle1m|BTC-USDT");
            assert!(!closed);
        }
        other => panic!("expected a bar, got {other:?}"),
    }
    let done = forming.replace(r#","20689","0"]]}"#, r#","20689","1"]]}"#);
    match &f.on_message(&frame(&done)).unwrap()[0] {
        Update::Bar { closed, .. } => assert!(closed),
        other => panic!("expected a bar, got {other:?}"),
    }
}

#[test]
fn a_replayed_okx_candle_says_nothing() {
    let mut f = OkxFeed::new();
    let row = |ms: i64| {
        frame(&format!(r#"{{"arg":{{"channel":"candle1m","instId":"BTC-USDT"}},"data":[["{ms}","1","2","0.5","1.5","3","0","0","0"]]}}"#))
    };
    assert_eq!(f.on_message(&row(120_000)).unwrap().len(), 1);
    assert!(f.on_message(&row(60_000)).unwrap().is_empty());
    let e = f
        .on_message(&frame(r#"{"arg":{"channel":"candle1m","instId":"BTC-USDT"},"data":[["soon","1"]]}"#))
        .unwrap_err();
    assert_eq!(fault_message(&e), "okx candle open time");
    let e = f
        .on_message(&frame(r#"{"event":"error","msg":"Subscribe failed, wrong URL or channel:candle1m,instId:NOSUCH-PAIR doesn't exist. Please use the correct URL."}"#))
        .unwrap();
    assert!(matches!(&e[0], Update::Fault { channel, .. } if channel == "candle1m|NOSUCH-PAIR"));
}

#[test]
fn a_refusal_naming_no_pane_ends_the_bitget_session() {
    let e = bitget_refusal("", "", None).unwrap_err();
    assert_eq!(fault_of(&e), LiveFault::Transport);
    assert_eq!(fault_message(&e), "Bitget: subscription refused");
    let (k, e) = bitget_refusal("candle1m", "nosuchpair", Some("gone")).unwrap();
    assert_eq!(k, "candle1m|NOSUCHPAIR");
    assert_eq!(fault_message(&e), "Bitget does not list nosuchpair on this market: gone");
}

#[test]
fn an_okx_refusal_stops_the_pane_it_names() {
    let (k, e) = okx_refusal(Some("Wrong URL or channel:candle1m,instId:FOO-BAR doesn't exist")).unwrap();
    assert_eq!(k, "candle1m|FOO-BAR");
    assert_eq!(fault_of(&e), LiveFault::Symbol);
    assert_eq!(
        fault_message(&e),
        "OKX refused this instrument: Wrong URL or channel:candle1m,instId:FOO-BAR doesn't exist"
    );
    let s = okx_refusal(None).unwrap_err();
    assert_eq!(fault_of(&s), LiveFault::Transport);
    assert_eq!(fault_message(&s), "OKX: subscription refused");
}

fn kraken_row(symbol: &str, begin: &str, close: f64) -> Json {
    frame(&format!(
        r#"{{"channel":"ohlc","data":[{{"symbol":"{symbol}","interval_begin":"{begin}",
           "open":1.0,"high":2.0,"low":0.5,"close":{close},"volume":3.0}}]}}"#
    ))
}

#[test]
fn two_symbols_on_one_socket_keep_their_own_forming_candle() {
    let mut feed = KrakenFeed::new();
    feed.on_message(&kraken_row("BTC/USD", "2026-09-05T10:00:00Z", 10.0)).unwrap();
    feed.on_message(&kraken_row("ETH/USD", "2026-09-05T10:00:00Z", 20.0)).unwrap();
    // BTC rolls over; ETH's candle must not be closed by it.
    let out = feed.on_message(&kraken_row("BTC/USD", "2026-09-05T10:01:00Z", 11.0)).unwrap();
    assert_eq!(out.len(), 2);
    assert!(matches!(&out[0], Update::Closed { channel, .. } if channel == "BTC/USD"));
    assert_eq!(bar_close(&out[1]), Some(("BTC/USD", 11.0)));
    let eth = feed.on_message(&kraken_row("ETH/USD", "2026-09-05T10:00:00Z", 20.5)).unwrap();
    assert_eq!(eth.len(), 1);
    assert_eq!(bar_close(&eth[0]), Some(("ETH/USD", 20.5)));
    assert!(feed.on_message(&frame(r#"{"channel":"heartbeat"}"#)).unwrap().is_empty());
}

/// The channel a Massive aggregate event is tagged with, read by the feed.
fn massive_tag(text: &str) -> String {
    let mut feed = MassiveFeed::new("massive");
    match &feed.on_message(&frame(text)).unwrap()[0] {
        Update::Bar { channel, .. } => channel.clone(),
        other => panic!("expected a bar, got {other:?}"),
    }
}

#[test]
fn an_aggregate_is_tagged_with_the_channel_it_came_from() {
    let stock = r#"{"ev":"AM","sym":"AAPL","s":1750000000000,"o":1,"c":2}"#;
    assert_eq!(massive_tag(stock), "AM.AAPL");
    // Crypto and forex name the instrument `pair`, not `sym`.
    let pair = r#"{"ev":"XA","pair":"BTC-USD","s":1750000000000,"o":1,"c":2}"#;
    assert_eq!(massive_tag(pair), "XA.BTC-USD");
    // The channel subscribed for the instrument is the one its aggregates come back on.
    assert_eq!(channel_for("crypto", "BTCUSD").unwrap().1, massive_tag(pair));
    let e = aggregate_channel("AM", None, None).unwrap_err();
    assert_eq!(fault_message(&e), "massive aggregate symbol");
}

#[test]
fn massive_frames_drive_the_handshake_and_carry_aggregates() {
    let mut feed = MassiveFeed::new("c1");
    assert!(feed.subscribe(vec!["AM.AAPL".to_string()]).is_empty());
    feed.on_message(&frame(r#"[{"ev":"status","status":"connected","message":"Connected Successfully"}]"#)).unwrap();
    assert!(matches!(feed.drain_sends()[0], Frame::Auth));
    feed.on_message(&frame(r#"[{"ev":"status","status":"auth_success","message":"authenticated"}]"#)).unwrap();
    assert!(matches!(&feed.drain_sends()[0], Frame::Subscribe(c) if c == &vec!["AM.AAPL".to_string()]));
    let out = feed
        .on_message(&frame(r#"[{"ev":"AM","sym":"AAPL","s":1750000000000,"o":1,"h":2,"l":0.5,"c":1.5,"v":10},{"ev":"AM","sym":"MSFT","s":1750000000000,"c":3}]"#))
        .unwrap();
    assert_eq!(out.len(), 2);
    assert!(matches!(&out[1], Update::Bar { channel, bar_ts: 1_750_000_000, quote, closed: true, .. }
        if channel == "AM.MSFT" && quote.open == "0" && quote.close == "3"));
    let e = feed.on_message(&frame(r#"[{"ev":"status","status":"auth_failed","message":"nope"}]"#)).unwrap_err();
    assert_eq!(fault_of(&e), LiveFault::Plan);
}

#[test]
fn alpaca_frames_drive_the_handshake_and_refusals_end_the_session() {
    let mut feed = AlpacaFeed::new("c1", Entitlement::Iex);
    assert!(feed.subscribe(vec!["AAPL".to_string()]).is_empty());
    assert!(feed.on_message(&frame(r#"[{"T":"success","msg":"connected"}]"#)).unwrap().is_empty());
    assert!(matches!(feed.drain_sends()[0], Frame::Auth));
    feed.on_message(&frame(r#"[{"T":"success","msg":"authenticated"}]"#)).unwrap();
    assert!(matches!(&feed.drain_sends()[0], Frame::Subscribe(c) if c == &vec!["AAPL".to_string()]));
    let e = feed.on_message(&frame(r#"[{"T":"error","code":406,"msg":"connection limit exceeded"}]"#)).unwrap_err();
    assert_eq!(fault_of(&e), LiveFault::Conflict);
    assert!(feed.on_message(&frame(r#"[{"T":"d","S":"MSFT"}]"#)).unwrap().is_empty());
}

fn sub(stopped: bool) -> SubState {
    SubState { stopped, status: LiveStatus::live(), has_current: true }
}

#[test]
fn a_failed_session_is_reported_to_every_running_pane() {
    let mut subs = vec![sub(false), sub(true)];
    begin_session(&mut subs);
    assert_eq!(subs[0].status.state, "connecting");
    assert_eq!(subs[1].status.state, "live");
    end_session(&mut subs, &Some((LiveFault::Transport, "socket closed".to_string())));
    assert_eq!(subs[0].status.state, "retrying");
    assert_eq!(subs[0].status.message.as_deref(), Some("socket closed"));
    assert_eq!(subs[1].status.state, "live");
    assert!(!subs[0].has_current && !subs[1].has_current);
    end_session(&mut subs, &Some((LiveFault::Auth, "key refused".to_string())));
    assert_eq!(subs[0].status.state, "stopped");
    let mut clean = vec![sub(false)];
    end_session(&mut clean, &None);
    assert_eq!(clean[0].status.state, "live");
    assert!(!clean[0].has_current);
}

#[test]
fn one_symbol_at_two_timeframes_is_two_keys() {
    let a = Instrument::new("BTCUSDT", "crypto", "1m");
    let b = Instrument::new("BTCUSDT", "crypto", "1h");
    assert_ne!(a.key(), b.key());
    assert_eq!(a.key(), Instrument::new("BTCUSDT", "crypto", "1m").key());
}

#[test]
fn a_fold_emits_in_order_and_drops_stragglers() {
    let mut b = Bucketer::new(60);
    // Opening a bucket emits it, still forming.
    assert_eq!(b.fold(120, false).events(), vec![(120, false)]);
    // A later bucket closes the one in hand first, then completes itself.
    assert_eq!(b.fold(180, true).events(), vec![(120, true), (180, true)]);
    // Anything at or before the last closed bucket is a straggler: nothing is emitted.
    let step = b.fold(120, false);
    assert!(step.straggler);
    assert!(step.events().is_empty());
    assert!(b.fold(180, false).events().is_empty());
    // The next bucket opens normally.
    assert_eq!(b.fold(240, false).events(), vec![(240, false)]);
}

#[test]
fn a_bar_is_tagged_with_its_own_symbol() {
    let mut feed = AlpacaFeed::new("alpaca", Entitlement::Iex);
    let item = frame(r#"{"T":"b","S":"MSFT","t":"2026-09-05T14:31:00Z","o":1,"h":2,"l":0.5,"c":1.5,"v":9}"#);
    let bar = feed.on_item(&item).unwrap().unwrap();
    assert!(matches!(&bar, Update::Bar { channel, .. } if channel == "MSFT"));
}

#[test]
fn a_trade_carries_its_product_so_the_hub_can_route_it() {
    let mut feed = CoinbaseFeed::new();
    let text = r#"{"type":"match","product_id":"ETH-USD","price":"2500.5","size":"0.3",
                   "time":"2026-09-05T10:00:01Z"}"#;
    let out = feed.on_message(&frame(text)).unwrap();
    assert!(matches!(&out[0], Update::Trade { channel, .. } if channel == "ETH-USD"));
    match &out[0] {
        Update::Trade { price, size, .. } => {
            assert_eq!((price.parse::<f64>().unwrap(), size.parse::<f64>().unwrap()), (2500.5, 0.3))
        }
        _ => panic!("a match is a trade"),
    }
}

#[test]
fn coinbase_reads_only_matches_and_needs_a_product_and_price() {
    let mut feed = CoinbaseFeed::new();
    assert!(feed.on_message(&frame(r#"{"type":"heartbeat","product_id":"BTC-USD"}"#)).unwrap().is_empty());
    let out = feed
        .on_message(&frame(r#"{"type":"last_match","product_id":"btc-usd","price":"10","time":"2026-09-05T10:00:01Z"}"#))
        .unwrap();
    assert!(matches!(&out[0], Update::Trade { channel, size, ts: Some(1_788_602_401), .. }
        if channel == "BTC-USD" && size == "0"));
    let out = feed.on_message(&frame(r#"{"type":"match","product_id":"BTC-USD","price":"10","time":"soon"}"#)).unwrap();
    assert!(matches!(&out[0], Update::Trade { ts: None, .. }));
    let e = feed.on_message(&frame(r#"{"type":"match","price":"10"}"#)).unwrap_err();
    assert_eq!(fault_message(&e), "coinbase match product_id");
    let e = feed.on_message(&frame(r#"{"type":"match","product_id":"BTC-USD"}"#)).unwrap_err();
    assert_eq!(fault_message(&e), "coinbase match price");
}

#[test]
fn an_open_time_past_the_representable_dates_is_refused_with_times_own_error() {
    let mut feed = MassiveFeed::new("massive");
    let e = feed
        .on_message(&frame(r#"[{"ev":"AM","sym":"MSFT","s":9000000000000000,"o":1,"h":1,"l":1,"c":1,"v":1}]"#))
        .unwrap_err();
    assert_eq!(fault_message(&e), "timestamp was not in range");
    // The first instant the date type holds is still accepted.
    let out = feed
        .on_message(&frame(r#"[{"ev":"AM","sym":"MSFT","s":-377705116800000,"o":1,"h":1,"l":1,"c":1,"v":1}]"#))
        .unwrap();
    assert!(matches!(&out[0], Update::Bar { bar_ts: -377705116800, .. }));
}

#[test]
fn massive_status_frames_drive_the_handshake() {
    let mut feed = MassiveFeed::new("massive");
    feed.on_message(&frame(r#"[{"ev":"status","status":"connected","message":"hi"}]"#)).unwrap();
    assert!(matches!(feed.drain_sends()[0], Frame::Auth));
    assert!(feed.subscribe(vec!["AM.MSFT".to_string()]).is_empty());
    feed.on_message(&frame(r#"[{"ev":"status","status":"auth_success"}]"#)).unwrap();
    assert!(matches!(&feed.drain_sends()[0], Frame::Subscribe(c) if c == &vec!["AM.MSFT".to_string()]));
}
