use otw_core::checks::{
    check, clean_prompts, day_mark, history_limit, normalize_modules, parse_date, resolve_template, valid_module,
    validate_channel, validate_config, PromptIn, Refused, TemplatePick,
};
use otw_core::json::Json;
use otw_core::mportfolios::{
    number_text, parse_holdings, parse_managers, parse_period, slug_from, split_stock, value_scale, Scale,
};
use otw_core::network::{
    acme_line, dns_env, dns_token, duckdns_accepted, duckdns_sub, duckdns_url, env_get, hex_decode, hex_encode,
    is_valid_hostname, is_valid_ipv4, is_valid_token, network_env, network_from_env, sealed_text, words,
};

#[test]
fn parses_period() {
    let html = r#"<p id="p2">Period: <span>Q1 2026</span><br/>"#;
    assert_eq!(parse_period(html), "Q1 2026");
}

#[test]
fn parses_manager_row() {
    let html = r#"<tr>
      <td class="man"><a href="/m/holdings.php?m=BRK" >Warren Buffett - Berkshire Hathaway</a></td>
      <td class="val">$263.1 B</td>
      <td class="cnt">29</td>
      <td class="sym"><a href="/m/stock.php?sym=AAPL">AAPL</a></td>
    </tr>"#;
    let m = parse_managers(html);
    assert_eq!(m.len(), 1);
    assert_eq!(m[0].slug, "BRK");
    assert_eq!(m[0].name, "Warren Buffett - Berkshire Hathaway");
    assert_eq!(m[0].count_text, "29");
    assert_eq!(number_text(&m[0].value_text), "263.1");
    assert_eq!(value_scale(&m[0].value_text), Scale::Billion);
}

#[test]
fn a_value_names_its_scale() {
    assert_eq!(value_scale("$172 M"), Scale::Million);
    assert_eq!(value_scale("$5 k"), Scale::Thousand);
    assert_eq!(value_scale("12"), Scale::One);
    assert_eq!(number_text("$1,234.5 %"), "1234.5");
}

#[test]
fn a_page_without_a_period_has_none() {
    assert_eq!(parse_period("<p>nothing</p>"), "");
    assert_eq!(slug_from(r#"<a href="/m/holdings.php?m=psc">"#).as_deref(), Some("psc"));
    assert_eq!(slug_from("<a>"), None);
    let (sym, name) = split_stock("AAPL - Apple Inc.");
    assert_eq!((sym.as_str(), name.as_str()), ("AAPL", "Apple Inc."));
}

#[test]
fn wildcard_collapses_and_ids_are_validated() {
    fn ok(input: &[&str]) -> Vec<String> {
        match normalize_modules(&input.iter().map(|s| s.to_string()).collect::<Vec<_>>()) {
            Ok(v) => v,
            Err(_) => panic!("expected {input:?} to normalize"),
        }
    }
    assert_eq!(ok(&["remindme", "*"]), vec!["*".to_string()]);
    assert_eq!(ok(&["remindme", "remindme", "watchlists"]), vec!["remindme".to_string(), "watchlists".to_string()]);
    assert!(ok(&[]).is_empty());
    assert!(normalize_modules(&["journal".to_string()]).is_err());
}

#[test]
fn a_value_outside_its_list_is_named_in_the_error() {
    assert!(check("a", &["a", "b"], "kind").is_ok());
    let e = check("c", &["a", "b"], "kind").unwrap_err();
    assert!(e.contains("kind"), "{e}");
    assert!(valid_module("journal").is_err());
}

#[test]
fn a_date_is_iso_or_today() {
    assert_eq!(parse_date(Some("2026-03-04"), (2000, 1, 1)), Ok((2026, 3, 4)));
    assert_eq!(parse_date(None, (2000, 1, 2)), Ok((2000, 1, 2)));
    assert!(parse_date(Some("04/03/2026"), (2000, 1, 1)).is_err());
}

#[test]
fn hostnames_tokens_and_addresses_are_checked_before_they_reach_a_file() {
    assert!(is_valid_hostname("otw.example.com"));
    assert!(!is_valid_hostname("-bad.example.com"));
    assert!(!is_valid_hostname("a b"));
    assert!(is_valid_token("abc-123_DEF"));
    assert!(!is_valid_token("abc\ndef"));
    assert!(is_valid_ipv4("192.168.1.10"));
    assert!(!is_valid_ipv4("192.168.1"));
    assert!(!is_valid_ipv4("256.1.1.1"));
}

#[test]
fn a_duckdns_domain_names_its_subdomain() {
    assert_eq!(duckdns_sub("myhome.duckdns.org").as_deref(), Some("myhome"));
    assert_eq!(duckdns_sub("example.com"), None);
    assert_eq!(
        duckdns_url("myhome", "T", "1.2.3.4"),
        "https://www.duckdns.org/update?domains=myhome&token=T&ip=1.2.3.4"
    );
    assert!(duckdns_accepted(" OK\n"));
    assert!(!duckdns_accepted("KO"));
}

#[test]
fn hex_round_trips() {
    let bytes = [0u8, 1, 0xab, 0xff];
    let s = hex_encode(&bytes);
    assert_eq!(s, "0001abff");
    assert_eq!(hex_decode(&s), Some(bytes.to_vec()));
    assert_eq!(hex_decode("0g"), None);
    assert_eq!(hex_decode("abc"), None);
    assert_eq!(sealed_text(&[1], &[2, 3]), "01:0203");
}

#[test]
fn parses_holdings_row() {
    let html = r#"<table id="grid"><tbody>
      <tr>
        <td class="hist"><a>x</a></td>
        <td class="stock"><a href="/m/stock.php?sym=AAPL">AAPL<span> - Apple Inc.</span></a></td>
        <td>21.99</td>
        <td class="red">Reduce 10.39%</td>
        <td>227,917,808</td>
        <td>$253.79</td>
        <td>$57,843,261,000</td>
        <td class="gap"></td>
        <td class="quote">$281.74</td>
        <td class="green2">11.01%</td>
        <td>$198.47</td>
        <td>$317.40</td>
      </tr>
    </tbody></table>"#;
    let h = parse_holdings(html);
    assert_eq!(h.len(), 1);
    assert_eq!(h[0].position, 1);
    assert_eq!(h[0].ticker, "AAPL");
    assert_eq!(h[0].company, "Apple Inc.");
    assert_eq!(h[0].pct_text.parse::<f64>().ok(), Some(21.99));
    assert_eq!(h[0].activity, "Reduce 10.39%");
    assert_eq!(h[0].shares_text.parse::<f64>().ok(), Some(227_917_808.0));
    assert_eq!(h[0].reported_price_text.parse::<f64>().ok(), Some(253.79));
    assert_eq!(h[0].current_price_text.as_deref().and_then(|t| t.parse::<f64>().ok()), Some(281.74));
    assert_eq!(h[0].week52_high_text.as_deref().and_then(|t| t.parse::<f64>().ok()), Some(317.40));
}

#[test]
fn parses_value() {
    // The amount is the cleaned number at the scale its unit letter names.
    assert_eq!(number_text("$263.1 B"), "263.1");
    assert_eq!(value_scale("$263.1 B"), Scale::Billion);
    assert_eq!(number_text("$172 M"), "172");
    assert_eq!(value_scale("$172 M"), Scale::Million);
    assert_eq!(number_text("$0 M"), "0");
}

#[test]
fn rows_outside_the_grid_are_not_holdings() {
    let html = r#"<tr><td class="stock">X</td></tr><table id="grid"><tbody><tr><td>1</td></tr></tbody></table>"#;
    assert!(parse_holdings(html).is_empty());
}

#[test]
fn a_saved_mode_reads_back_from_its_files() {
    let cases: [(&str, u32, &str, &str, &str, &str); 4] = [
        ("local", 5454, "", "local", "5454", ""),
        ("lan", 8080, "", "lan", "8080", ""),
        ("web", 5454, "otw.example.com", "web", "443", "otw.example.com"),
        ("lan_https", 5454, "home.duckdns.org", "lan_https", "443", "home.duckdns.org"),
    ];
    for (mode, port, domain, want_mode, want_port, want_domain) in cases {
        let net = network_env(mode, port, domain);
        let acme = if mode == "lan_https" { acme_line("duckdns", "tok-123_abc") } else { String::new() };
        let dns = dns_env(&acme);
        let r = network_from_env(&net, Some(&dns)).expect("the keys are there");
        assert_eq!((r.mode, r.port.as_str(), r.domain.as_str()), (want_mode, want_port, want_domain), "{mode}");
        assert_eq!(r.dns_token_set, mode == "lan_https");
        assert_eq!(r.dns_provider, "duckdns");
    }
}

#[test]
fn a_setup_file_without_a_key_reads_as_nothing() {
    assert!(network_from_env("OTW_BIND=0.0.0.0\nOTW_DOMAIN=:80\n", None).is_none());
    let r = network_from_env("  OTW_BIND=127.0.0.1\nOTW_DOMAIN=\nOTW_HTTP_PORT=9000\r\n", None).unwrap();
    assert_eq!((r.mode, r.port.as_str()), ("local", "9000"));
}

#[test]
fn the_dns_token_is_the_third_word() {
    assert_eq!(dns_token(&dns_env("acme_dns cloudflare  abc123")).as_deref(), Some("abc123"));
    assert_eq!(dns_token(&dns_env("")), None);
    assert_eq!(env_get("A=1\nAB=2\n", "AB").as_deref(), Some("2"));
    assert_eq!(words("  a  b\tc "), vec!["a".to_string(), "b".to_string(), "c".to_string()]);
}

fn prompt(kind: &str, label: &str, hint: &str, config: Json) -> PromptIn {
    PromptIn { id: None, kind: kind.to_string(), label: label.to_string(), hint: hint.to_string(), config }
}

fn options(items: &[&str]) -> Json {
    Json::Obj(vec![("options".to_string(), Json::Arr(items.iter().map(|s| Json::Str(s.to_string())).collect()))])
}

#[test]
fn prompts_are_trimmed_and_blank_rows_dropped() {
    let out = clean_prompts(vec![
        prompt("scale", "  Focus  ", " 1-5 ", Json::Null),
        prompt("text", "   ", "", Json::Null),
        prompt("choice", "Mood", "", options(&["calm", "tense"])),
    ])
    .unwrap();
    assert_eq!(out.len(), 2);
    assert_eq!(out[0].label, "Focus");
    assert_eq!(out[0].hint, "1-5");
    assert!(matches!(&out[0].config, Json::Obj(m) if m.is_empty()));
    assert_eq!(out[1].label, "Mood");
    assert!(matches!(&out[1].config, Json::Obj(m) if m.len() == 1));
}

#[test]
fn unknown_prompt_kind_is_refused() {
    let r = clean_prompts(vec![prompt("slider", "Focus", "", Json::Null)]);
    assert_eq!(r.err().unwrap(), "kind must be scale|choice|tags|text");
}

#[test]
fn blank_prompt_of_unknown_kind_is_just_dropped() {
    let r = clean_prompts(vec![prompt("slider", "  ", "", Json::Null)]).unwrap();
    assert!(r.is_empty());
}

#[test]
fn choice_prompts_need_string_options() {
    let need = "choice/tags prompts need config.options: [string, …]";
    assert_eq!(validate_config("tags", &options(&[])).err().unwrap(), need);
    let mixed = Json::Obj(vec![("options".to_string(), Json::Arr(vec![Json::Str("a".to_string()), Json::Num("1".to_string())]))]);
    assert_eq!(validate_config("choice", &mixed).err().unwrap(), need);
    assert!(validate_config("choice", &options(&["a"])).is_ok());
    assert!(validate_config("scale", &Json::Null).is_ok());
    let r = clean_prompts(vec![prompt("choice", "Pick", "", Json::Str("x".to_string()))]);
    assert_eq!(r.err().unwrap(), need);
}

#[test]
fn a_check_in_finds_its_template_by_id_or_by_phase() {
    let active = vec!["live".to_string(), "pre".to_string(), "pre".to_string()];
    assert_eq!(resolve_template(Some(7), Some("bogus"), &active).unwrap(), TemplatePick::Id(7));
    assert_eq!(resolve_template(None, Some("pre"), &active).unwrap(), TemplatePick::At(1));
    match resolve_template(None, None, &active) {
        Err(Refused::BadRequest(m)) => assert_eq!(m, "template_id or phase is required"),
        other => panic!("unexpected {other:?}"),
    }
    match resolve_template(None, Some("night"), &active) {
        Err(Refused::BadRequest(m)) => assert_eq!(m, "phase must be pre|live|post"),
        other => panic!("unexpected {other:?}"),
    }
    match resolve_template(None, Some("post"), &active) {
        Err(Refused::NotFound(m)) => assert_eq!(m, "no template for that phase"),
        other => panic!("unexpected {other:?}"),
    }
}

#[test]
fn history_and_marks_read_their_bounds() {
    assert_eq!(history_limit(None), 60);
    assert_eq!(history_limit(Some(0)), 1);
    assert_eq!(history_limit(Some(1000)), 365);
    assert_eq!(history_limit(Some(30)), 30);
    assert_eq!(day_mark(None).unwrap(), None);
    assert_eq!(day_mark(Some("")).unwrap(), None);
    assert_eq!(day_mark(Some("action")).unwrap(), Some("action"));
    assert_eq!(day_mark(Some("half")).unwrap_err(), "mark must be full|action or null");
}

#[test]
fn a_channel_names_a_known_kind_and_an_object_config() {
    assert!(validate_channel("slack", &Json::Obj(Vec::new())).is_ok());
    assert_eq!(
        validate_channel("sms", &Json::Obj(Vec::new())).unwrap_err(),
        "kind must be email, telegram, slack or discord"
    );
    assert_eq!(validate_channel("email", &Json::Null).unwrap_err(), "config must be a JSON object");
}
