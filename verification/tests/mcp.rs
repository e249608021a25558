use otw_core::mcp::catalog::{catalog, is_untrusted, methods_for, modules, untrusted_paths, Endpoint};
use otw_core::mcp::gate::{render_index, render_module, Perms};
use otw_core::json::Json;
use otw_core::mcp::rpc::{rpc_envelope, rpc_method, tool_call, tool_names, RpcMethod, ToolCall};
use otw_core::mcp::shape::{shape_from, shape_response, shrink, size_error};
use serde_json::Value;

fn to_json(v: &Value) -> Json {
    match v {
        Value::Null => Json::Null,
        Value::Bool(b) => Json::Bool(*b),
        Value::Number(n) => Json::Num(n.to_string()),
        Value::String(s) => Json::Str(s.clone()),
        Value::Array(a) => Json::Arr(a.iter().map(to_json).collect()),
        Value::Object(m) => Json::Obj(m.iter().map(|(k, v)| (k.clone(), to_json(v))).collect()),
    }
}

fn to_value(j: &Json) -> Value {
    match j {
        Json::Null => Value::Null,
        Json::Bool(b) => Value::Bool(*b),
        Json::Num(t) => serde_json::from_str(t).unwrap(),
        Json::Str(s) => Value::String(s.clone()),
        Json::Arr(a) => Value::Array(a.iter().map(to_value).collect()),
        Json::Obj(m) => Value::Object(m.iter().map(|(k, v)| (k.clone(), to_value(v))).collect()),
    }
}

fn parse(text: &str) -> Value {
    serde_json::from_str(text).unwrap()
}

/// The shaped text as the gateway renders it.
fn shaped_text(body: &Value, args: &Value) -> String {
    let shape = shape_from(&to_json(args)).unwrap();
    let (out, suffix) = shape_response(&to_json(body), &shape);
    serde_json::to_string(&to_value(&out)).unwrap() + &suffix
}

fn lookup(method: &str, path: &str) -> Option<Endpoint> {
    let c = catalog();
    otw_core::mcp::catalog::lookup(&c, method, path).map(|i| c[i])
}

fn perms(pairs: &[(&str, &str)]) -> Perms {
    Perms { entries: pairs.iter().map(|(m, l)| (m.to_string(), Some(l.to_string()))).collect() }
}

fn render_catalog(p: &Perms, module: Option<&str>) -> String {
    let c = catalog();
    match module {
        None => render_index(&c, p),
        Some(m) => {
            let schemas = vec![String::new(); c.len()];
            render_module(&c, &schemas, p, m)
        }
    }
}

#[test]
fn backtest_strategy_and_indicator_writes_are_reachable() {
    let id = "11111111-1111-1111-1111-111111111111";
    for (method, path) in [
        ("POST", "/api/backtest/strategies".to_string()),
        ("PUT", format!("/api/backtest/strategies/{id}")),
        ("DELETE", format!("/api/backtest/strategies/{id}")),
        ("POST", "/api/backtest/indicators".to_string()),
        ("PUT", format!("/api/backtest/indicators/{id}")),
        ("DELETE", format!("/api/backtest/indicators/{id}")),
    ] {
        let e = lookup(method, &path)
            .unwrap_or_else(|| panic!("expected catalog entry for {method} {path}"));
        assert_eq!(e.module, "backtest");
    }
}

#[test]
fn watchlist_level_writes_are_reachable() {
    let id = "22222222-2222-2222-2222-222222222222";
    for (method, path) in [
        ("GET", "/api/watchlists/templates".to_string()),
        ("PATCH", format!("/api/watchlists/{id}")),
        ("DELETE", format!("/api/watchlists/{id}")),
    ] {
        let e = lookup(method, &path)
            .unwrap_or_else(|| panic!("expected catalog entry for {method} {path}"));
        assert_eq!(e.module, "watchlists");
    }
}

#[test]
fn watchlist_portfolio_import_is_a_deliberate_module_crossing() {
    let id = "22222222-2222-2222-2222-222222222222";
    let e = lookup("POST", &format!("/api/watchlists/{id}/import")).expect("exposed");
    assert_eq!(e.module, "watchlists");
}

#[test]
fn the_optimizer_chain_is_reachable_and_only_its_reads_are_compute() {
    for (path, compute) in [
        ("/api/backtest/optimize/params", true),
        ("/api/backtest/optimize/estimate", true),
        ("/api/backtest/optimize", false),
    ] {
        let e = lookup("POST", path).unwrap_or_else(|| panic!("missing {path}"));
        assert_eq!(e.compute, compute, "{path} compute flag");
        assert!(e.has_body, "{path} must publish its body schema");
    }
    assert!(lookup("GET", "/api/backtest/optimize/11111111-1111-1111-1111-111111111111").is_some());
}

#[test]
fn reads_and_deletes_have_no_body_schema() {
    const DELETE_BY_BODY: &[&str] = &["/api/mindset/entries"];
    for e in catalog() {
        if e.method == "GET" {
            assert!(!e.has_body, "GET {} must not declare a body", e.path);
        }
        if e.method == "DELETE" && e.has_body {
            assert!(
                DELETE_BY_BODY.contains(&e.path),
                "DELETE {} declares a body but is not a payload-addressed delete",
                e.path
            );
        }
    }
}

#[test]
fn a_literal_path_wins_over_an_earlier_param_template() {
    for path in [
        "/api/watchlists/search",
        "/api/watchlists/templates",
        "/api/mportfolios/snapshots",
        "/api/subscriptions/breakdown",
        "/api/subscriptions/settings",
        "/api/community-docs/favorites",
        "/api/backtest/paper/variables",
        "/api/backtest/paper/events",
    ] {
        let e = lookup("GET", path).unwrap_or_else(|| panic!("no entry for {path}"));
        assert_eq!(e.path, path, "GET {path} resolved to the wrong catalog entry");
    }
    assert_eq!(lookup("PATCH", "/api/subscriptions/settings").unwrap().path, "/api/subscriptions/settings");
    // Templates still match concrete ids.
    assert_eq!(
        lookup("GET", "/api/watchlists/11111111-1111-1111-1111-111111111111").unwrap().path,
        "/api/watchlists/{id}"
    );
}

#[test]
fn required_query_params_are_named_in_the_description() {
    for (path, params) in [
        ("/api/automator/catalog/schema", &["method", "path"][..]),
        ("/api/findb/facets", &["column"][..]),
        ("/api/findb/search", &["q", "kind"][..]),
        ("/api/portfolios/search", &["q", "kind"][..]),
        ("/api/watchlists/search", &["q", "kind"][..]),
        ("/api/journal/routines/status", &["category_id", "from", "to"][..]),
    ] {
        let e = lookup("GET", path).unwrap_or_else(|| panic!("no catalog entry for {path}"));
        for p in params {
            assert!(
                e.desc.contains(p),
                "GET {path}: required query param `{p}` is not named in the description",
            );
        }
    }
}

#[test]
fn the_automator_is_reachable_for_authoring_only() {
    for (method, path) in [
        ("GET", "/api/automator/workflows"),
        ("GET", "/api/automator/workflows/11111111-1111-1111-1111-111111111111"),
        ("GET", "/api/automator/workflows/11111111-1111-1111-1111-111111111111/versions"),
        ("GET", "/api/automator/catalog"),
        ("GET", "/api/automator/catalog/schema"),
        ("GET", "/api/automator/runs"),
        ("GET", "/api/automator/runs/11111111-1111-1111-1111-111111111111"),
        ("POST", "/api/automator/workflows"),
        ("PUT", "/api/automator/workflows/11111111-1111-1111-1111-111111111111"),
        ("PATCH", "/api/automator/workflows/11111111-1111-1111-1111-111111111111"),
        ("POST", "/api/automator/workflows/11111111-1111-1111-1111-111111111111/test"),
    ] {
        let e = lookup(method, path).unwrap_or_else(|| panic!("{method} {path} should be reachable"));
        assert_eq!(e.module, "automator", "{method} {path} is scoped to the wrong module");
    }
    for (method, path) in [
        ("POST", "/api/automator/workflows/11111111-1111-1111-1111-111111111111/run"),
        ("POST", "/api/automator/workflows/11111111-1111-1111-1111-111111111111/rollback"),
        ("DELETE", "/api/automator/workflows/11111111-1111-1111-1111-111111111111"),
        ("POST", "/api/automator/nodes/test"),
        ("GET", "/api/automator/schedules"),
        ("POST", "/api/automator/schedules"),
        ("PATCH", "/api/automator/schedules/11111111-1111-1111-1111-111111111111"),
        ("DELETE", "/api/automator/schedules/11111111-1111-1111-1111-111111111111"),
        ("GET", "/api/automator/agenda"),
        ("POST", "/api/automator/runs/11111111-1111-1111-1111-111111111111/cancel"),
    ] {
        assert!(lookup(method, path).is_none(), "{method} {path} must stay off the gateway");
    }
}

#[test]
fn only_the_automator_test_run_is_compute() {
    let test = lookup("POST", "/api/automator/workflows/1/test").expect("test entry");
    assert!(test.compute, "a sealed test run should not prompt");
    for (method, path) in [("PUT", "/api/automator/workflows/1"), ("POST", "/api/automator/workflows")] {
        let e = lookup(method, path).expect("entry");
        assert!(!e.compute, "{method} {path} writes something the user would miss");
    }
}

#[test]
fn untrusted_prefixes_cover_the_endpoints_that_serve_outside_text() {
    let c = catalog();
    for prefix in untrusted_paths() {
        assert!(c.iter().any(|e| e.path.starts_with(prefix)), "{prefix} marks no catalog entry");
    }
    for path in [
        "/api/feed-items",
        "/api/feed-dashboards/11111111-1111-1111-1111-111111111111",
        "/api/mailbox/messages",
        "/api/mailbox/messages/11111111-1111-1111-1111-111111111111",
        "/api/mailbox/senders",
        "/api/search",
    ] {
        assert!(is_untrusted(path), "{path} must be fenced");
    }
    for path in ["/api/journal/trades", "/api/backtest/run", "/api/feedback"] {
        assert!(!is_untrusted(path), "{path} must not be fenced");
    }
    assert!(!is_untrusted("/api/searchable"));
}

#[test]
fn the_paper_surface_is_reachable_and_only_its_previews_are_compute() {
    let id = "33333333-3333-3333-3333-333333333333";
    for (method, path, compute) in [
        ("GET", "/api/backtest/paper".to_string(), false),
        ("POST", "/api/backtest/paper".to_string(), false),
        ("GET", format!("/api/backtest/paper/{id}"), false),
        ("PUT", format!("/api/backtest/paper/{id}"), false),
        ("DELETE", format!("/api/backtest/paper/{id}"), false),
        ("POST", format!("/api/backtest/paper/{id}/status"), false),
        ("POST", format!("/api/backtest/paper/{id}/run"), false),
        ("GET", format!("/api/backtest/paper/{id}/trades"), false),
        ("GET", "/api/backtest/paper/variables".to_string(), false),
        ("GET", "/api/backtest/paper/events".to_string(), false),
        ("POST", "/api/backtest/paper/events/seen".to_string(), false),
        ("POST", "/api/backtest/paper/preview".to_string(), true),
        ("POST", format!("/api/backtest/paper/{id}/preview"), true),
    ] {
        let e = lookup(method, &path).unwrap_or_else(|| panic!("{method} {path} should be reachable"));
        assert_eq!(e.module, "backtest", "{method} {path} is scoped to the wrong module");
        assert_eq!(e.compute, compute, "{method} {path} compute flag");
    }
}

#[test]
fn the_chart_objects_are_a_key_of_their_own() {
    let id = "44444444-4444-4444-4444-444444444444";
    for (method, path) in [
        ("GET", "/api/histviz/workspaces".to_string()),
        ("POST", "/api/histviz/workspaces".to_string()),
        ("PUT", format!("/api/histviz/workspaces/{id}")),
        ("DELETE", format!("/api/histviz/workspaces/{id}")),
        ("GET", "/api/histviz/lists".to_string()),
        ("POST", "/api/histviz/lists".to_string()),
        ("PUT", format!("/api/histviz/lists/{id}")),
        ("DELETE", format!("/api/histviz/lists/{id}")),
        ("POST", format!("/api/histviz/lists/{id}/promote")),
        ("GET", "/api/histviz/alerts".to_string()),
        ("POST", "/api/histviz/alerts".to_string()),
        ("GET", format!("/api/histviz/alerts/{id}")),
        ("PUT", format!("/api/histviz/alerts/{id}")),
        ("DELETE", format!("/api/histviz/alerts/{id}")),
    ] {
        let e = lookup(method, &path).unwrap_or_else(|| panic!("{method} {path} should be reachable"));
        assert_eq!(e.module, "histviz", "{method} {path} is scoped to the wrong module");
    }
    for path in ["/api/histviz/series", "/api/histviz/series/batch"] {
        assert_eq!(lookup("POST", path).expect("series entry").module, "histdata");
    }
    for (method, path) in [
        ("GET", "/api/histviz/layout"),
        ("PUT", "/api/histviz/layout"),
        ("PUT", "/api/histviz/layouts/1"),
        ("GET", "/api/histviz/chart-settings"),
        ("PUT", "/api/histviz/chart-settings"),
        ("GET", "/api/histviz/stream"),
        ("GET", "/api/histviz/streams"),
    ] {
        assert!(lookup(method, path).is_none(), "{method} {path} must stay off the gateway");
    }
}

#[test]
fn the_cash_ledger_and_the_daily_history_are_reachable_writes() {
    let id = "55555555-5555-5555-5555-555555555555";
    for (method, path) in [
        ("POST", format!("/api/portfolios/{id}/operations")),
        ("GET", format!("/api/portfolios/{id}/history/coverage")),
        ("POST", format!("/api/portfolios/{id}/history/sync")),
        ("POST", format!("/api/portfolios/{id}/history/rebuild")),
        ("POST", "/api/portfolios/scenarios".to_string()),
        ("PUT", format!("/api/portfolios/scenarios/{id}")),
        ("DELETE", format!("/api/portfolios/scenarios/{id}")),
    ] {
        let e = lookup(method, &path).unwrap_or_else(|| panic!("{method} {path} should be reachable"));
        assert_eq!(e.module, "portfolios");
        assert!(!e.compute, "{method} {path} must be confirmed like any other write");
    }
}

#[test]
fn the_journal_market_chain_is_reachable() {
    let id = "66666666-6666-6666-6666-666666666666";
    for (method, path) in [
        ("GET", "/api/journal/market/settings".to_string()),
        ("PATCH", "/api/journal/market/settings".to_string()),
        ("GET", "/api/journal/market/coverage".to_string()),
        ("POST", "/api/journal/market/sync".to_string()),
        ("POST", "/api/journal/market/compute".to_string()),
        ("GET", "/api/journal/report".to_string()),
        ("GET", "/api/journal/routines/links".to_string()),
        ("POST", "/api/journal/routines/links".to_string()),
        ("PATCH", format!("/api/journal/routines/links/{id}")),
        ("DELETE", format!("/api/journal/routines/links/{id}")),
        ("GET", "/api/journal/routines/status".to_string()),
    ] {
        let e = lookup(method, &path).unwrap_or_else(|| panic!("{method} {path} should be reachable"));
        assert_eq!(e.module, "journal");
        assert!(!e.compute, "{method} {path} either downloads or writes: it must prompt");
    }
}

#[test]
fn every_entry_names_a_declared_module() {
    let c = catalog();
    let mods = modules();
    for e in &c {
        assert!(
            mods.iter().any(|(m, _)| *m == e.module),
            "{} {} is scoped to undeclared module {}",
            e.method,
            e.path,
            e.module,
        );
    }
    for (module, _) in &mods {
        assert!(
            c.iter().any(|e| e.module == *module),
            "module {module} is offered in the permission UI but reaches no endpoint",
        );
    }
}

#[test]
fn bare_catalog_is_a_compact_index_without_endpoint_paths() {
    let p = perms(&[("journal", "r"), ("backtest", "rw")]);
    let out = render_catalog(&p, None);
    assert!(out.contains("journal — Trading Journal (read-only,"));
    assert!(out.contains("backtest — Backtest (read+write,"));
    assert!(!out.contains("/api/journal/trades"));
    assert!(!out.contains("/api/backtest/run"));
    assert!(!out.contains("wealth"));
}

#[test]
fn module_catalog_lists_endpoints_and_respects_write_level() {
    let ro = render_catalog(&perms(&[("backtest", "r")]), Some("backtest"));
    assert!(ro.contains("GET /api/backtest/strategies"));
    assert!(!ro.contains("POST /api/backtest/strategies"));

    let rw = render_catalog(&perms(&[("backtest", "rw")]), Some("backtest"));
    assert!(rw.contains("POST /api/backtest/strategies"));
    assert!(rw.contains("POST /api/backtest/indicators"));
}

#[test]
fn delete_endpoints_need_full_level() {
    let rw = render_catalog(&perms(&[("journal", "rw")]), Some("journal"));
    assert!(!rw.contains("DELETE"));
    assert!(rw.contains("read+write"));

    let full = render_catalog(&perms(&[("journal", "rwd")]), Some("journal"));
    assert!(full.contains("DELETE"));
    assert!(full.contains("full (read+write+delete)"));

    assert!(perms(&[("journal", "rw")]).can_write("journal"));
    assert!(!perms(&[("journal", "rw")]).can_delete("journal"));
    assert!(perms(&[("journal", "rwd")]).can_delete("journal"));
}

#[test]
fn module_catalog_hides_forbidden_and_unknown_modules() {
    let p = perms(&[("backtest", "rw")]);
    assert!(render_catalog(&p, Some("wealth")).contains("No accessible endpoints"));
    assert!(render_catalog(&p, Some("nope")).contains("Unknown module"));
}

#[test]
fn a_path_answers_with_every_method_it_serves() {
    let c = catalog();
    let ms = methods_for(&c, "/api/backtest/strategies/11111111-1111-1111-1111-111111111111");
    assert!(ms.contains(&"PUT") && ms.contains(&"DELETE"));
    assert!(methods_for(&c, "/api/no/such/path").is_empty());
}

#[test]
fn a_token_without_a_string_level_reaches_nothing() {
    let p = Perms { entries: vec![("journal".to_string(), None)] };
    assert!(!p.can_read("journal"));
    assert!(render_catalog(&p, None).contains("No accessible endpoints"));
}

#[test]
fn pick_extracts_scalars_and_maps_over_arrays() {
    let body = parse(
        r#"{
        "ticker": "BTCUSDT",
        "result": { "var_hist": 0.031, "cvar": 0.045, "drawdown_curve": [1, 2, 3] },
        "positions": [
            { "symbol": "AAPL", "value": 10.0 },
            { "symbol": "MSFT", "value": 20.0 }
        ]
    }"#,
    );
    let args = parse(r#"{ "pick": ["result.var_hist", "positions.symbol", "positions.1.value", "nope.x"] }"#);
    let out = shaped_text(&body, &args);
    let (json_part, note) = out.split_once("\nnote: ").unwrap();
    let v: Value = serde_json::from_str(json_part).unwrap();
    assert_eq!(v["result.var_hist"], parse("0.031"));
    assert_eq!(v["positions.symbol"], parse(r#"["AAPL", "MSFT"]"#));
    assert_eq!(v["positions.1.value"], parse("20.0"));
    assert!(v.get("nope.x").is_none());
    assert!(note.contains("pick \"nope.x\": no match"));
}

#[test]
fn head_truncates_arrays_and_reports_totals() {
    let body = parse(r#"{ "items": [1, 2, 3, 4, 5], "meta": { "tags": ["a"] } }"#);
    let out = shaped_text(&body, &parse(r#"{ "head": 2 }"#));
    let (json_part, note) = out.split_once("\nnote: ").unwrap();
    let v: Value = serde_json::from_str(json_part).unwrap();
    assert_eq!(v["items"], parse("[1, 2]"));
    assert_eq!(v["meta"]["tags"], parse(r#"["a"]"#));
    assert!(note.contains("items: 5 items, kept first 2"));
}

#[test]
fn shape_from_rejects_bad_arguments() {
    assert!(shape_from(&to_json(&parse(r#"{ "pick": "result" }"#))).is_err());
    assert!(shape_from(&to_json(&parse(r#"{ "pick": [1] }"#))).is_err());
    assert!(shape_from(&to_json(&parse(r#"{ "head": 0 }"#))).is_err());
    assert!(shape_from(&to_json(&parse(r#"{ "head": -3 }"#))).is_err());
    assert!(shape_from(&to_json(&parse("{}"))).unwrap().is_noop());
}

#[test]
fn size_error_reports_per_key_sizes() {
    let mut big = String::from("{ \"stats\": { \"sharpe\": 1.2 }, \"equity\": [");
    big.push_str(&vec!["0.0"; 1000].join(","));
    big.push_str("] }");
    let body = to_json(&parse(&big));
    let sizes: Vec<usize> = match &body {
        Json::Obj(m) => m.iter().map(|(_, v)| serde_json::to_string(&to_value(v)).unwrap().len()).collect(),
        _ => unreachable!(),
    };
    let msg = size_error(Some(&body), &sizes, 900 * 1024);
    assert!(msg.contains("900 KB"));
    assert!(msg.contains("equity:"));
    assert!(msg.contains("stats:"));
    assert!(msg.contains("pick"));
    // The heavier key comes first.
    assert!(msg.find("equity:").unwrap() < msg.find("stats:").unwrap());
}

#[test]
fn a_pick_that_matches_nothing_lists_what_there_is() {
    let out = shaped_text(&parse(r#"{ "a": 1, "b": 2 }"#), &parse(r#"{ "pick": ["zz"] }"#));
    assert!(out.starts_with("{}"));
    assert!(out.contains("available top-level keys: a, b"), "{out}");
    let out = shaped_text(&parse("[1, 2, 3]"), &parse(r#"{ "pick": ["x"] }"#));
    assert!(out.contains("(array of 3 items)"), "{out}");
}

#[test]
fn an_array_at_the_root_is_named_root() {
    let out = shaped_text(&parse("[[1, 2, 3], 4, 5]"), &parse(r#"{ "head": 1 }"#));
    assert_eq!(out, "[[1]]\nnote: (root): 3 items, kept first 1; (root): 3 items, kept first 1");
}

#[test]
fn a_heavy_array_is_replaced_by_a_count() {
    let body = to_json(&parse(r#"{ "a": [1, 2, 3], "b": 7 }"#));
    let m = match &body {
        Json::Obj(m) => m,
        _ => unreachable!(),
    };
    let out = shrink(m, &[100_000, 10]);
    let v = to_value(&Json::Obj(out));
    assert_eq!(v["a"], parse(r#""[3 items omitted: response too large]""#));
    assert_eq!(v["b"], parse("7"));
    assert!(v["_truncated"].as_str().unwrap().starts_with("Omitted large field(s): a."));
    // Nothing heavy: nothing changes and no note is added.
    let out = shrink(m, &[10, 10]);
    assert!(to_value(&Json::Obj(out)).get("_truncated").is_none());
}

#[test]
fn a_request_is_one_object_and_a_notification_gets_no_answer() {
    let e = rpc_envelope(&to_json(&parse("[1, 2]"))).err().unwrap();
    assert_eq!(e.code, -32600);
    assert_eq!(e.message, "expected a single JSON-RPC object");
    assert!(rpc_envelope(&to_json(&parse(r#"{"jsonrpc":"2.0","method":"notifications/initialized"}"#)))
        .unwrap()
        .is_none());
    let q = rpc_envelope(&to_json(&parse(r#"{"jsonrpc":"2.0","id":7,"method":"tools/list"}"#)))
        .unwrap()
        .unwrap();
    assert_eq!(to_value(&q.id), parse("7"));
    assert_eq!(q.method, "tools/list");
    assert!(matches!(q.params, Json::Null));
}

#[test]
fn four_methods_are_answered() {
    assert_eq!(rpc_method("initialize").unwrap(), RpcMethod::Initialize);
    assert_eq!(rpc_method("ping").unwrap(), RpcMethod::Ping);
    assert_eq!(rpc_method("tools/list").unwrap(), RpcMethod::ToolsList);
    assert_eq!(rpc_method("tools/call").unwrap(), RpcMethod::ToolsCall);
    let e = rpc_method("resources/list").err().unwrap();
    assert_eq!(e.code, -32601);
    assert_eq!(e.message, "method not found: resources/list");
}

#[test]
fn tool_arguments_are_checked_before_the_api_is_called() {
    match tool_call("otw_catalog", &to_json(&parse(r#"{"module":"journal"}"#))).unwrap() {
        ToolCall::Catalog { module } => assert_eq!(module.as_deref(), Some("journal")),
        _ => panic!("expected the catalog"),
    }
    let e = tool_call("otw_read", &to_json(&parse("{}"))).err().unwrap();
    assert_eq!((e.code, e.message.as_str()), (-32602, "otw_read requires a \"path\" string"));
    let e = tool_call("otw_read", &to_json(&parse(r#"{"path":"/api/x","head":0}"#))).err().unwrap();
    assert_eq!(e.message, "head must be a positive integer");
    match tool_call("otw_read", &to_json(&parse(r#"{"path":"/api/x","pick":[" a.b "]}"#))).unwrap() {
        ToolCall::Endpoint { method, path, body, shape } => {
            assert_eq!(method, "GET");
            assert_eq!(path, "/api/x");
            assert!(body.is_none());
            assert_eq!(shape.pick, vec!["a.b".to_string()]);
        }
        _ => panic!("expected an endpoint call"),
    }
    let e = tool_call("otw_write", &to_json(&parse(r#"{"method":"get","path":"/api/x"}"#))).err().unwrap();
    assert_eq!(e.message, "method must be POST, PUT, PATCH or DELETE");
    let e = tool_call("otw_write", &to_json(&parse(r#"{"method":"post"}"#))).err().unwrap();
    assert_eq!(e.message, "otw_write requires a \"path\" string");
    match tool_call("otw_write", &to_json(&parse(r#"{"method":"patch","path":"/api/y","body":{"a":1}}"#))).unwrap() {
        ToolCall::Endpoint { method, body, .. } => {
            assert_eq!(method, "PATCH");
            assert_eq!(to_value(&body.unwrap()), parse(r#"{"a":1}"#));
        }
        _ => panic!("expected an endpoint call"),
    }
    let e = tool_call("otw_delete", &to_json(&parse("{}"))).err().unwrap();
    assert_eq!((e.code, e.message.as_str()), (-32602, "unknown tool: otw_delete"));
}

#[test]
fn the_write_tool_is_offered_only_to_a_token_that_writes() {
    assert_eq!(tool_names(&perms(&[("journal", "r")])), vec!["otw_catalog", "otw_read"]);
    assert_eq!(tool_names(&perms(&[("journal", "rw")])), vec!["otw_catalog", "otw_read", "otw_write"]);
}
