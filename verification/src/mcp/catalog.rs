//! The MCP endpoint allowlist: the only REST routes reachable through the gateway tools.
//!
//! An explicit allowlist, not a passthrough: anything absent here is unreachable through MCP
//! whatever a token's permissions say. `module` is the permission key tokens are scoped by;
//! GET needs `"r"`, other methods `"rw"`. A GET never takes a body, and a DELETE only for the
//! handlers that identify their target by payload. Responses that carry text nobody here
//! wrote (feed articles, incoming mail) are listed by path prefix so the gateway fences them.
//!
//! An entry records whether the endpoint takes a request body; the body's JSON Schema is
//! generated by the server from the handler's own type.

use vstd::prelude::*;

use crate::text::{dedup, lemma_dedup, no_dups, split_chars, split_on, str_eq, views};

verus! {

/// One reachable endpoint.
#[derive(Debug, Clone, Copy)]
pub struct Endpoint {
    pub module: &'static str,
    pub method: &'static str,
    pub path: &'static str,
    pub desc: &'static str,
    /// Whether the endpoint takes a request body.
    pub has_body: bool,
    /// A POST that computes rather than mutates: it answers a question and changes nothing the
    /// user would miss, so it skips the write-confirmation step.
    pub compute: bool,
}

/// The fields of an endpoint as its constructor set them.
pub open spec fn built(e: Endpoint, module: &'static str, method: &'static str, path: &'static str, desc: &'static str, has_body: bool, compute: bool) -> bool {
    e.module == module && e.method == method && e.path == path && e.desc == desc && e.has_body == has_body
        && e.compute == compute
}

pub fn get(module: &'static str, path: &'static str, desc: &'static str) -> (e: Endpoint)
    ensures
        built(e, module, "GET", path, desc, false, false),
{
    Endpoint { module, method: "GET", path, desc, has_body: false, compute: false }
}

pub fn delete(module: &'static str, path: &'static str, desc: &'static str) -> (e: Endpoint)
    ensures
        built(e, module, "DELETE", path, desc, false, false),
{
    Endpoint { module, method: "DELETE", path, desc, has_body: false, compute: false }
}

/// A DELETE whose target is named by the request body, not by the path.
pub fn delete_body(module: &'static str, path: &'static str, desc: &'static str) -> (e: Endpoint)
    ensures
        built(e, module, "DELETE", path, desc, true, false),
{
    Endpoint { module, method: "DELETE", path, desc, has_body: true, compute: false }
}

pub fn post(module: &'static str, path: &'static str, desc: &'static str) -> (e: Endpoint)
    ensures
        built(e, module, "POST", path, desc, true, false),
{
    Endpoint { module, method: "POST", path, desc, has_body: true, compute: false }
}

/// A POST that answers a question instead of storing something.
pub fn compute_post(module: &'static str, path: &'static str, desc: &'static str) -> (e: Endpoint)
    ensures
        built(e, module, "POST", path, desc, true, true),
{
    Endpoint { module, method: "POST", path, desc, has_body: true, compute: true }
}

/// A POST that deliberately takes no request body: the action is fully named by the path.
pub fn post_empty(module: &'static str, path: &'static str, desc: &'static str) -> (e: Endpoint)
    ensures
        built(e, module, "POST", path, desc, false, false),
{
    Endpoint { module, method: "POST", path, desc, has_body: false, compute: false }
}

/// A no-body POST that computes.
pub fn compute_post_empty(module: &'static str, path: &'static str, desc: &'static str) -> (e: Endpoint)
    ensures
        built(e, module, "POST", path, desc, false, true),
{
    Endpoint { module, method: "POST", path, desc, has_body: false, compute: true }
}

pub fn put(module: &'static str, path: &'static str, desc: &'static str) -> (e: Endpoint)
    ensures
        built(e, module, "PUT", path, desc, true, false),
{
    Endpoint { module, method: "PUT", path, desc, has_body: true, compute: false }
}

pub fn patch(module: &'static str, path: &'static str, desc: &'static str) -> (e: Endpoint)
    ensures
        built(e, module, "PATCH", path, desc, true, false),
{
    Endpoint { module, method: "PATCH", path, desc, has_body: true, compute: false }
}

/// The permission keys the UI offers.
pub open spec fn declared_module(m: Seq<char>) -> bool {
    m == "journal"@
        || m == "portfolios"@
        || m == "watchlists"@
        || m == "backtest"@
        || m == "quant"@
        || m == "histdata"@
        || m == "histviz"@
        || m == "connectors"@
        || m == "findb"@
        || m == "mportfolios"@
        || m == "wealth"@
        || m == "subscriptions"@
        || m == "taxcalc"@
        || m == "editor"@
        || m == "todos"@
        || m == "goals"@
        || m == "remindme"@
        || m == "calendar"@
        || m == "time"@
        || m == "routines"@
        || m == "mindset"@
        || m == "news"@
        || m == "resources"@
        || m == "prompt-store"@
        || m == "community-docs"@
        || m == "mailbox"@
        || m == "automator"@
        || m == "search"@
}

/// Human labels for the permission UI, in display order.
pub fn modules() -> (v: Vec<(&'static str, &'static str)>)
    ensures
        v@.len() == 28,
        v@ == modules_spec(),
        v@.map_values(|p: (&'static str, &'static str)| p.0@) == module_keys(),
        forall|i: int| 0 <= i < v@.len() ==> declared_module((#[trigger] v@[i]).0@),
        v@[0].0@ == "journal"@,
        v@[1].0@ == "portfolios"@,
        v@[2].0@ == "watchlists"@,
        v@[3].0@ == "backtest"@,
        v@[4].0@ == "quant"@,
        v@[5].0@ == "histdata"@,
        v@[6].0@ == "histviz"@,
        v@[7].0@ == "connectors"@,
        v@[8].0@ == "findb"@,
        v@[9].0@ == "mportfolios"@,
        v@[10].0@ == "wealth"@,
        v@[11].0@ == "subscriptions"@,
        v@[12].0@ == "taxcalc"@,
        v@[13].0@ == "editor"@,
        v@[14].0@ == "todos"@,
        v@[15].0@ == "goals"@,
        v@[16].0@ == "remindme"@,
        v@[17].0@ == "calendar"@,
        v@[18].0@ == "time"@,
        v@[19].0@ == "routines"@,
        v@[20].0@ == "mindset"@,
        v@[21].0@ == "news"@,
        v@[22].0@ == "resources"@,
        v@[23].0@ == "prompt-store"@,
        v@[24].0@ == "community-docs"@,
        v@[25].0@ == "mailbox"@,
        v@[26].0@ == "automator"@,
        v@[27].0@ == "search"@,
{
    let mut v: Vec<(&'static str, &'static str)> = Vec::new();
    v.push(("journal", "Trading Journal"));
    v.push(("portfolios", "Portfolio Tracker"));
    v.push(("watchlists", "Watchlists"));
    v.push(("backtest", "Backtest"));
    v.push(("quant", "Quant Tools"));
    v.push(("histdata", "Historical Data"));
    v.push(("histviz", "Visualization"));
    v.push(("connectors", "Data connectors"));
    v.push(("findb", "Product Search"));
    v.push(("mportfolios", "Managers' Portfolios"));
    v.push(("wealth", "MyWealth"));
    v.push(("subscriptions", "Subscriptions"));
    v.push(("taxcalc", "Tax Calculator"));
    v.push(("editor", "Editor"));
    v.push(("todos", "ToDo List"));
    v.push(("goals", "Goals"));
    v.push(("remindme", "RemindMe"));
    v.push(("calendar", "Calendar"));
    v.push(("time", "Time Tracker"));
    v.push(("routines", "Trader Routines"));
    v.push(("mindset", "Mindset"));
    v.push(("news", "News Feeds"));
    v.push(("resources", "Resources"));
    v.push(("prompt-store", "Prompt Store"));
    v.push(("community-docs", "Community Docs"));
    v.push(("mailbox", "Mailbox"));
    v.push(("automator", "Automator"));
    v.push(("search", "Global search"));
    assert(v@ =~= modules_spec());
    assert(v@.map_values(|p: (&'static str, &'static str)| p.0@) =~= module_keys());
    v
}



/// The module list as [`modules`] returns it.
pub open spec fn modules_spec() -> Seq<(&'static str, &'static str)> {
    seq![
        ("journal", "Trading Journal"),
        ("portfolios", "Portfolio Tracker"),
        ("watchlists", "Watchlists"),
        ("backtest", "Backtest"),
        ("quant", "Quant Tools"),
        ("histdata", "Historical Data"),
        ("histviz", "Visualization"),
        ("connectors", "Data connectors"),
        ("findb", "Product Search"),
        ("mportfolios", "Managers' Portfolios"),
        ("wealth", "MyWealth"),
        ("subscriptions", "Subscriptions"),
        ("taxcalc", "Tax Calculator"),
        ("editor", "Editor"),
        ("todos", "ToDo List"),
        ("goals", "Goals"),
        ("remindme", "RemindMe"),
        ("calendar", "Calendar"),
        ("time", "Time Tracker"),
        ("routines", "Trader Routines"),
        ("mindset", "Mindset"),
        ("news", "News Feeds"),
        ("resources", "Resources"),
        ("prompt-store", "Prompt Store"),
        ("community-docs", "Community Docs"),
        ("mailbox", "Mailbox"),
        ("automator", "Automator"),
        ("search", "Global search"),
    ]
}

/// The permission keys, in display order.
pub open spec fn module_keys() -> Seq<Seq<char>> {
    seq![
        "journal"@,
        "portfolios"@,
        "watchlists"@,
        "backtest"@,
        "quant"@,
        "histdata"@,
        "histviz"@,
        "connectors"@,
        "findb"@,
        "mportfolios"@,
        "wealth"@,
        "subscriptions"@,
        "taxcalc"@,
        "editor"@,
        "todos"@,
        "goals"@,
        "remindme"@,
        "calendar"@,
        "time"@,
        "routines"@,
        "mindset"@,
        "news"@,
        "resources"@,
        "prompt-store"@,
        "community-docs"@,
        "mailbox"@,
        "automator"@,
        "search"@,
    ]
}


/// The declared modules are exactly the keys of [`modules`].
pub proof fn lemma_declared_are_the_keys(x: Seq<char>)
    ensures
        declared_module(x) <==> module_keys().contains(x),
{
    assert(declared_module(module_keys()[0]));
    assert(declared_module(module_keys()[1]));
    assert(declared_module(module_keys()[2]));
    assert(declared_module(module_keys()[3]));
    assert(declared_module(module_keys()[4]));
    assert(declared_module(module_keys()[5]));
    assert(declared_module(module_keys()[6]));
    assert(declared_module(module_keys()[7]));
    assert(declared_module(module_keys()[8]));
    assert(declared_module(module_keys()[9]));
    assert(declared_module(module_keys()[10]));
    assert(declared_module(module_keys()[11]));
    assert(declared_module(module_keys()[12]));
    assert(declared_module(module_keys()[13]));
    assert(declared_module(module_keys()[14]));
    assert(declared_module(module_keys()[15]));
    assert(declared_module(module_keys()[16]));
    assert(declared_module(module_keys()[17]));
    assert(declared_module(module_keys()[18]));
    assert(declared_module(module_keys()[19]));
    assert(declared_module(module_keys()[20]));
    assert(declared_module(module_keys()[21]));
    assert(declared_module(module_keys()[22]));
    assert(declared_module(module_keys()[23]));
    assert(declared_module(module_keys()[24]));
    assert(declared_module(module_keys()[25]));
    assert(declared_module(module_keys()[26]));
    assert(declared_module(module_keys()[27]));
    if declared_module(x) {
        assert(module_keys().contains(x));
    }
}

/// Whether a key is one the permission UI offers.
pub fn is_module(m: &str) -> (b: bool)
    ensures
        b == declared_module(m@),
{
    let mods = modules();
    let mut i: usize = 0;
    while i < mods.len()
        invariant
            i <= mods@.len(),
            mods@.map_values(|p: (&'static str, &'static str)| p.0@) == module_keys(),
            forall|j: int| 0 <= j < i ==> #[trigger] module_keys()[j] != m@,
        decreases mods@.len() - i,
    {
        proof {
            assert(module_keys()[i as int] == mods@[i as int].0@);
        }
        if str_eq(mods[i].0, m) {
            proof {
                lemma_declared_are_the_keys(m@);
                assert(module_keys()[i as int] == m@);
            }
            return true;
        }
        i = i + 1;
    }
    proof {
        lemma_declared_are_the_keys(m@);
    }
    false
}

/// The payload-addressed deletes: the only DELETEs that take a body.
pub open spec fn delete_by_body(path: Seq<char>) -> bool {
    path == "/api/mindset/entries"@
}

/// An entry as the allowlist admits it: scoped to a declared module, a GET without a body,
/// a DELETE with one only where it is payload-addressed.
pub open spec fn well_formed(e: Endpoint) -> bool {
    &&& declared_module(e.module@)
    &&& (e.method@ == "GET"@ ==> !e.has_body)
    &&& (e.method@ == "DELETE"@ && e.has_body ==> delete_by_body(e.path@))
}

pub open spec fn all_well_formed(s: Seq<Endpoint>) -> bool {
    forall|i: int| 0 <= i < s.len() ==> well_formed(#[trigger] s[i])
}

proof fn lemma_methods_differ()
    ensures
        "POST"@ != "GET"@,
        "PUT"@ != "GET"@,
        "PATCH"@ != "GET"@,
        "DELETE"@ != "GET"@,
        "POST"@ != "DELETE"@,
        "PUT"@ != "DELETE"@,
        "PATCH"@ != "DELETE"@,
{
    reveal_strlit("GET");
    reveal_strlit("POST");
    reveal_strlit("PUT");
    reveal_strlit("PATCH");
    reveal_strlit("DELETE");
    assert("POST"@[0] != "GET"@[0]);
    assert("PUT"@[0] != "GET"@[0]);
    assert("PATCH"@[0] != "GET"@[0]);
    assert("DELETE"@[0] != "GET"@[0]);
    assert("POST"@[0] != "DELETE"@[0]);
    assert("PUT"@[0] != "DELETE"@[0]);
    assert("PATCH"@[0] != "DELETE"@[0]);
}

fn push(v: &mut Vec<Endpoint>, e: Endpoint)
    requires
        all_well_formed(old(v)@),
        well_formed(e),
    ensures
        all_well_formed(final(v)@),
        final(v)@ == old(v)@.push(e),
{
    v.push(e);
}

/// The entries [`add_journal_1`] adds.
pub open spec fn table_journal_1() -> Seq<Endpoint> {
    seq![
        Endpoint { module: "journal", method: "GET", path: "/api/journal/trades", desc: "List trades. Query: status, category_id, strategy_id, symbol, from, to, limit, offset.", has_body: false, compute: false },
        Endpoint { module: "journal", method: "POST", path: "/api/journal/trades", desc: "Create a trade (template fields + typed cols: symbol, side, qty, prices, fees…).", has_body: true, compute: false },
        Endpoint { module: "journal", method: "GET", path: "/api/journal/trades/{id}", desc: "Get one trade with legs/brackets and computed PnL.", has_body: false, compute: false },
        Endpoint { module: "journal", method: "PATCH", path: "/api/journal/trades/{id}", desc: "Update a trade (full payload, same shape as create).", has_body: true, compute: false },
        Endpoint { module: "journal", method: "DELETE", path: "/api/journal/trades/{id}", desc: "Delete a trade.", has_body: false, compute: false },
        Endpoint { module: "journal", method: "GET", path: "/api/journal/trade-suggestions", desc: "Autocomplete values seen in past trades (symbols…).", has_body: false, compute: false },
        Endpoint { module: "journal", method: "GET", path: "/api/journal/breakdown", desc: "Stats/PnL breakdown. Query: from, to, category_id, group (day|week|month|strategy|symbol…).", has_body: false, compute: false },
        Endpoint { module: "journal", method: "GET", path: "/api/journal/calendar", desc: "Daily realized-PnL buckets for the month-grid heatmap. Same filters as breakdown.", has_body: false, compute: false },
        Endpoint { module: "journal", method: "GET", path: "/api/journal/analytics", desc: "R-multiples, streaks, Sharpe/Sortino, hold-time / hour / weekday / size distributions, per-strategy-symbol-tag tables and the cost of tagged mistakes. Same filters as breakdown, plus tz_offset.", has_body: false, compute: false },
        Endpoint { module: "journal", method: "GET", path: "/api/journal/exposure", desc: "Open-position risk right now: every open position with its size and what it risks if the planned stop is hit, concentration by instrument/asset class/side/strategy, and the correlation between the open instruments. Read-only, same filters as breakdown.", has_body: false, compute: false },
        Endpoint { module: "journal", method: "GET", path: "/api/journal/compare", desc: "One period against the previous one plus a 12-period strip. Query: period (day|week|month|quarter|year|custom), anchor, tz_offset, same filters as breakdown.", has_body: false, compute: false },
        Endpoint { module: "journal", method: "GET", path: "/api/journal/tags", desc: "List discipline tags (kind: mistake | rule | setup) with their trade counts.", has_body: false, compute: false },
        Endpoint { module: "journal", method: "POST", path: "/api/journal/tags", desc: "Create a discipline tag.", has_body: true, compute: false },
        Endpoint { module: "journal", method: "PATCH", path: "/api/journal/tags/{id}", desc: "Update a discipline tag.", has_body: true, compute: false },
    ]
}

fn add_journal_1(v: &mut Vec<Endpoint>)
    requires
        all_well_formed(old(v)@),
    ensures
        final(v)@ == old(v)@ + table_journal_1(),
        all_well_formed(final(v)@),
        final(v)@.len() > old(v)@.len(),
        forall|i: int| 0 <= i < old(v)@.len() ==> final(v)@[i] == old(v)@[i],
        final(v)@[old(v)@.len() as int].module@ == "journal"@,
{
    proof {
        lemma_methods_differ();
    }
    push(v, get("journal", "/api/journal/trades",
        "List trades. Query: status, category_id, strategy_id, symbol, from, to, limit, offset."));
    push(v, post("journal", "/api/journal/trades",
        "Create a trade (template fields + typed cols: symbol, side, qty, prices, fees…)."));
    push(v, get("journal", "/api/journal/trades/{id}",
        "Get one trade with legs/brackets and computed PnL."));
    push(v, patch("journal", "/api/journal/trades/{id}",
        "Update a trade (full payload, same shape as create)."));
    push(v, delete("journal", "/api/journal/trades/{id}",
        "Delete a trade."));
    push(v, get("journal", "/api/journal/trade-suggestions",
        "Autocomplete values seen in past trades (symbols…)."));
    push(v, get("journal", "/api/journal/breakdown",
        "Stats/PnL breakdown. Query: from, to, category_id, group (day|week|month|strategy|symbol…)."));
    push(v, get("journal", "/api/journal/calendar",
        "Daily realized-PnL buckets for the month-grid heatmap. Same filters as breakdown."));
    push(v, get("journal", "/api/journal/analytics",
        "R-multiples, streaks, Sharpe/Sortino, hold-time / hour / weekday / size distributions, per-strategy-symbol-tag tables and the cost of tagged mistakes. Same filters as breakdown, plus tz_offset."));
    push(v, get("journal", "/api/journal/exposure",
        "Open-position risk right now: every open position with its size and what it risks if the planned stop is hit, concentration by instrument/asset class/side/strategy, and the correlation between the open instruments. Read-only, same filters as breakdown."));
    push(v, get("journal", "/api/journal/compare",
        "One period against the previous one plus a 12-period strip. Query: period (day|week|month|quarter|year|custom), anchor, tz_offset, same filters as breakdown."));
    push(v, get("journal", "/api/journal/tags",
        "List discipline tags (kind: mistake | rule | setup) with their trade counts."));
    push(v, post("journal", "/api/journal/tags",
        "Create a discipline tag."));
    push(v, patch("journal", "/api/journal/tags/{id}",
        "Update a discipline tag."));
    assert(v@ =~= old(v)@ + table_journal_1());
}

/// The entries [`add_journal_2`] adds.
pub open spec fn table_journal_2() -> Seq<Endpoint> {
    seq![
        Endpoint { module: "journal", method: "DELETE", path: "/api/journal/tags/{id}", desc: "Delete a discipline tag.", has_body: false, compute: false },
        Endpoint { module: "journal", method: "GET", path: "/api/journal/categories", desc: "List trade categories (accounts/books).", has_body: false, compute: false },
        Endpoint { module: "journal", method: "POST", path: "/api/journal/categories", desc: "Create a category.", has_body: true, compute: false },
        Endpoint { module: "journal", method: "PATCH", path: "/api/journal/categories/{id}", desc: "Update a category.", has_body: true, compute: false },
        Endpoint { module: "journal", method: "DELETE", path: "/api/journal/categories/{id}", desc: "Delete a category.", has_body: false, compute: false },
        Endpoint { module: "journal", method: "GET", path: "/api/journal/categories/{id}/capital", desc: "List capital events (deposits/withdrawals) for a category.", has_body: false, compute: false },
        Endpoint { module: "journal", method: "POST", path: "/api/journal/categories/{id}/capital", desc: "Add a capital event.", has_body: true, compute: false },
        Endpoint { module: "journal", method: "DELETE", path: "/api/journal/capital/{id}", desc: "Delete a capital event.", has_body: false, compute: false },
        Endpoint { module: "journal", method: "GET", path: "/api/journal/strategies", desc: "List strategies.", has_body: false, compute: false },
        Endpoint { module: "journal", method: "POST", path: "/api/journal/strategies", desc: "Create a strategy.", has_body: true, compute: false },
        Endpoint { module: "journal", method: "PATCH", path: "/api/journal/strategies/{id}", desc: "Update a strategy.", has_body: true, compute: false },
        Endpoint { module: "journal", method: "DELETE", path: "/api/journal/strategies/{id}", desc: "Delete a strategy.", has_body: false, compute: false },
        Endpoint { module: "journal", method: "GET", path: "/api/journal/templates", desc: "List trade-form templates.", has_body: false, compute: false },
        Endpoint { module: "journal", method: "POST", path: "/api/journal/templates", desc: "Create a template.", has_body: true, compute: false },
    ]
}

fn add_journal_2(v: &mut Vec<Endpoint>)
    requires
        all_well_formed(old(v)@),
    ensures
        final(v)@ == old(v)@ + table_journal_2(),
        all_well_formed(final(v)@),
        final(v)@.len() > old(v)@.len(),
        forall|i: int| 0 <= i < old(v)@.len() ==> final(v)@[i] == old(v)@[i],
{
    proof {
        lemma_methods_differ();
    }
    push(v, delete("journal", "/api/journal/tags/{id}",
        "Delete a discipline tag."));
    push(v, get("journal", "/api/journal/categories",
        "List trade categories (accounts/books)."));
    push(v, post("journal", "/api/journal/categories",
        "Create a category."));
    push(v, patch("journal", "/api/journal/categories/{id}",
        "Update a category."));
    push(v, delete("journal", "/api/journal/categories/{id}",
        "Delete a category."));
    push(v, get("journal", "/api/journal/categories/{id}/capital",
        "List capital events (deposits/withdrawals) for a category."));
    push(v, post("journal", "/api/journal/categories/{id}/capital",
        "Add a capital event."));
    push(v, delete("journal", "/api/journal/capital/{id}",
        "Delete a capital event."));
    push(v, get("journal", "/api/journal/strategies",
        "List strategies."));
    push(v, post("journal", "/api/journal/strategies",
        "Create a strategy."));
    push(v, patch("journal", "/api/journal/strategies/{id}",
        "Update a strategy."));
    push(v, delete("journal", "/api/journal/strategies/{id}",
        "Delete a strategy."));
    push(v, get("journal", "/api/journal/templates",
        "List trade-form templates."));
    push(v, post("journal", "/api/journal/templates",
        "Create a template."));
    assert(v@ =~= old(v)@ + table_journal_2());
}

/// The entries [`add_journal_3`] adds.
pub open spec fn table_journal_3() -> Seq<Endpoint> {
    seq![
        Endpoint { module: "journal", method: "PATCH", path: "/api/journal/templates/{id}", desc: "Update a template.", has_body: true, compute: false },
        Endpoint { module: "journal", method: "DELETE", path: "/api/journal/templates/{id}", desc: "Delete a template.", has_body: false, compute: false },
        Endpoint { module: "journal", method: "GET", path: "/api/journal/fee-schedules", desc: "List fee schedules.", has_body: false, compute: false },
        Endpoint { module: "journal", method: "POST", path: "/api/journal/fee-schedules", desc: "Create a fee schedule.", has_body: true, compute: false },
        Endpoint { module: "journal", method: "PATCH", path: "/api/journal/fee-schedules/{id}", desc: "Update a fee schedule.", has_body: true, compute: false },
        Endpoint { module: "journal", method: "DELETE", path: "/api/journal/fee-schedules/{id}", desc: "Delete a fee schedule.", has_body: false, compute: false },
        Endpoint { module: "journal", method: "GET", path: "/api/journal/settings", desc: "Journal settings (display currency…).", has_body: false, compute: false },
        Endpoint { module: "journal", method: "PATCH", path: "/api/journal/settings", desc: "Update journal settings.", has_body: true, compute: false },
        Endpoint { module: "journal", method: "GET", path: "/api/journal/export/trades.csv", desc: "Every trade of the filtered set as CSV text (same filters as /trades). Large: prefer /breakdown or /report unless the raw rows are the point.", has_body: false, compute: false },
        Endpoint { module: "journal", method: "GET", path: "/api/journal/fx/pending", desc: "FX conversions awaiting a manual rate.", has_body: false, compute: false },
        Endpoint { module: "journal", method: "GET", path: "/api/journal/fx/quotes", desc: "Latest FX quotes (USD-based).", has_body: false, compute: false },
        Endpoint { module: "journal", method: "GET", path: "/api/journal/fx/rates/{date}", desc: "FX rates on a date (YYYY-MM-DD).", has_body: false, compute: false },
        Endpoint { module: "journal", method: "POST", path: "/api/journal/fx/rates/{date}", desc: "Resolve a pending date with manual rates.", has_body: true, compute: false },
        Endpoint { module: "journal", method: "GET", path: "/api/journal/market/settings", desc: "Where the journal draws candles from: the connector per asset class, the timeframe, the sync mode and the per-symbol overrides, plus the vocabularies (asset types, sync modes, timeframes).", has_body: false, compute: false },
    ]
}

fn add_journal_3(v: &mut Vec<Endpoint>)
    requires
        all_well_formed(old(v)@),
    ensures
        final(v)@ == old(v)@ + table_journal_3(),
        all_well_formed(final(v)@),
        final(v)@.len() > old(v)@.len(),
        forall|i: int| 0 <= i < old(v)@.len() ==> final(v)@[i] == old(v)@[i],
{
    proof {
        lemma_methods_differ();
    }
    push(v, patch("journal", "/api/journal/templates/{id}",
        "Update a template."));
    push(v, delete("journal", "/api/journal/templates/{id}",
        "Delete a template."));
    push(v, get("journal", "/api/journal/fee-schedules",
        "List fee schedules."));
    push(v, post("journal", "/api/journal/fee-schedules",
        "Create a fee schedule."));
    push(v, patch("journal", "/api/journal/fee-schedules/{id}",
        "Update a fee schedule."));
    push(v, delete("journal", "/api/journal/fee-schedules/{id}",
        "Delete a fee schedule."));
    push(v, get("journal", "/api/journal/settings",
        "Journal settings (display currency…)."));
    push(v, patch("journal", "/api/journal/settings",
        "Update journal settings."));
    push(v, get("journal", "/api/journal/export/trades.csv",
        "Every trade of the filtered set as CSV text (same filters as /trades). Large: prefer /breakdown or /report unless the raw rows are the point."));
    push(v, get("journal", "/api/journal/fx/pending",
        "FX conversions awaiting a manual rate."));
    push(v, get("journal", "/api/journal/fx/quotes",
        "Latest FX quotes (USD-based)."));
    push(v, get("journal", "/api/journal/fx/rates/{date}",
        "FX rates on a date (YYYY-MM-DD)."));
    push(v, post("journal", "/api/journal/fx/rates/{date}",
        "Resolve a pending date with manual rates."));
    push(v, get("journal", "/api/journal/market/settings",
        "Where the journal draws candles from: the connector per asset class, the timeframe, the sync mode and the per-symbol overrides, plus the vocabularies (asset types, sync modes, timeframes)."));
    assert(v@ =~= old(v)@ + table_journal_3());
}

/// The entries [`add_journal_4`] adds.
pub open spec fn table_journal_4() -> Seq<Endpoint> {
    seq![
        Endpoint { module: "journal", method: "PATCH", path: "/api/journal/market/settings", desc: "Update the market block. `connectors` is {asset_type: connector_id} and `symbols` is {\"<asset_type>:<ticker>\": \"provider symbol\"} (a futures root becomes the contract the source uses, e.g. \"future:MNQ\": \"MNQU6\"). A connector that cannot serve the asked timeframe is refused, not stored and ignored.", has_body: true, compute: false },
        Endpoint { module: "journal", method: "GET", path: "/api/journal/market/coverage", desc: "What the filtered trades need in candles, what the catalog already holds, and what a download would still have to fetch. Reads only. Same filters as /trades.", has_body: false, compute: false },
        Endpoint { module: "journal", method: "POST", path: "/api/journal/market/sync", desc: "Queue the missing candle windows as ordinary histdata downloads (follow them on /api/histdata/jobs); spends the connector's quota. Refused when the sync mode is off. Filters are query params, same as /trades.", has_body: false, compute: false },
        Endpoint { module: "journal", method: "POST", path: "/api/journal/market/compute", desc: "Measure the filtered trades against the bars already in store (MAE/MFE, stop distance in noise, share of the move kept) and store the result on each trade. A trade that cannot be measured is reported by reason instead of written as zeros. Query: full=true re-measures everything instead of what changed, plus the /trades filters.", has_body: false, compute: false },
        Endpoint { module: "journal", method: "GET", path: "/api/journal/report", desc: "Weekly or monthly performance report over the filtered trades. Query: period (week|month), anchor (YYYY-MM-DD), format — ask for md; the pdf is binary and arrives as mojibake through this gateway. Same filters as /trades.", has_body: false, compute: false },
        Endpoint { module: "journal", method: "GET", path: "/api/journal/routines/links", desc: "Which Trader Routines this book runs, and over what period. Query: category_id.", has_body: false, compute: false },
        Endpoint { module: "journal", method: "POST", path: "/api/journal/routines/links", desc: "Attach one or several routines to a book's calendar over the same period.", has_body: true, compute: false },
        Endpoint { module: "journal", method: "PATCH", path: "/api/journal/routines/links/{id}", desc: "Move a link's period. An explicit null end_date makes the routine unlimited.", has_body: true, compute: false },
        Endpoint { module: "journal", method: "DELETE", path: "/api/journal/routines/links/{id}", desc: "Take a routine off this calendar. The routine itself stays in its module.", has_body: false, compute: false },
        Endpoint { module: "journal", method: "GET", path: "/api/journal/routines/status", desc: "Per-day routine completion, for the calendar's dots. Query: category_id (REQUIRED), from and to (REQUIRED, YYYY-MM-DD, at most 400 days apart).", has_body: false, compute: false },
    ]
}

fn add_journal_4(v: &mut Vec<Endpoint>)
    requires
        all_well_formed(old(v)@),
    ensures
        final(v)@ == old(v)@ + table_journal_4(),
        all_well_formed(final(v)@),
        final(v)@.len() > old(v)@.len(),
        forall|i: int| 0 <= i < old(v)@.len() ==> final(v)@[i] == old(v)@[i],
{
    proof {
        lemma_methods_differ();
    }
    push(v, patch("journal", "/api/journal/market/settings",
        "Update the market block. `connectors` is {asset_type: connector_id} and `symbols` is {\"<asset_type>:<ticker>\": \"provider symbol\"} (a futures root becomes the contract the source uses, e.g. \"future:MNQ\": \"MNQU6\"). A connector that cannot serve the asked timeframe is refused, not stored and ignored."));
    push(v, get("journal", "/api/journal/market/coverage",
        "What the filtered trades need in candles, what the catalog already holds, and what a download would still have to fetch. Reads only. Same filters as /trades."));
    push(v, post_empty("journal", "/api/journal/market/sync",
        "Queue the missing candle windows as ordinary histdata downloads (follow them on /api/histdata/jobs); spends the connector's quota. Refused when the sync mode is off. Filters are query params, same as /trades."));
    push(v, post_empty("journal", "/api/journal/market/compute",
        "Measure the filtered trades against the bars already in store (MAE/MFE, stop distance in noise, share of the move kept) and store the result on each trade. A trade that cannot be measured is reported by reason instead of written as zeros. Query: full=true re-measures everything instead of what changed, plus the /trades filters."));
    push(v, get("journal", "/api/journal/report",
        "Weekly or monthly performance report over the filtered trades. Query: period (week|month), anchor (YYYY-MM-DD), format — ask for md; the pdf is binary and arrives as mojibake through this gateway. Same filters as /trades."));
    push(v, get("journal", "/api/journal/routines/links",
        "Which Trader Routines this book runs, and over what period. Query: category_id."));
    push(v, post("journal", "/api/journal/routines/links",
        "Attach one or several routines to a book's calendar over the same period."));
    push(v, patch("journal", "/api/journal/routines/links/{id}",
        "Move a link's period. An explicit null end_date makes the routine unlimited."));
    push(v, delete("journal", "/api/journal/routines/links/{id}",
        "Take a routine off this calendar. The routine itself stays in its module."));
    push(v, get("journal", "/api/journal/routines/status",
        "Per-day routine completion, for the calendar's dots. Query: category_id (REQUIRED), from and to (REQUIRED, YYYY-MM-DD, at most 400 days apart)."));
    assert(v@ =~= old(v)@ + table_journal_4());
}

/// The entries [`add_portfolios_1`] adds.
pub open spec fn table_portfolios_1() -> Seq<Endpoint> {
    seq![
        Endpoint { module: "portfolios", method: "GET", path: "/api/portfolios", desc: "List portfolios with valuation summary.", has_body: false, compute: false },
        Endpoint { module: "portfolios", method: "POST", path: "/api/portfolios", desc: "Create a portfolio.", has_body: true, compute: false },
        Endpoint { module: "portfolios", method: "GET", path: "/api/portfolios/search", desc: "Search priceable assets. Query: q (REQUIRED), kind (REQUIRED, crypto|stock — \"stock\" also returns ETFs).", has_body: false, compute: false },
        Endpoint { module: "portfolios", method: "GET", path: "/api/portfolios/{id}", desc: "Portfolio detail: positions, valuation, history. Can be large — use pick (e.g. [\"portfolio.value\",\"positions.symbol\"]) or head to cap the position list.", has_body: false, compute: false },
        Endpoint { module: "portfolios", method: "PATCH", path: "/api/portfolios/{id}", desc: "Update portfolio settings.", has_body: true, compute: false },
        Endpoint { module: "portfolios", method: "DELETE", path: "/api/portfolios/{id}", desc: "Delete a portfolio.", has_body: false, compute: false },
        Endpoint { module: "portfolios", method: "POST", path: "/api/portfolios/{id}/refresh", desc: "Re-price the portfolio now.", has_body: false, compute: false },
        Endpoint { module: "portfolios", method: "POST", path: "/api/portfolios/{id}/reconcile", desc: "Reconcile positions against a broker statement.", has_body: false, compute: false },
        Endpoint { module: "portfolios", method: "POST", path: "/api/portfolios/{id}/assets", desc: "Add an asset/position.", has_body: true, compute: false },
        Endpoint { module: "portfolios", method: "GET", path: "/api/portfolios/assets/{asset_id}", desc: "Asset detail with operations.", has_body: false, compute: false },
        Endpoint { module: "portfolios", method: "PATCH", path: "/api/portfolios/assets/{asset_id}", desc: "Update an asset.", has_body: true, compute: false },
        Endpoint { module: "portfolios", method: "DELETE", path: "/api/portfolios/assets/{asset_id}", desc: "Remove an asset.", has_body: false, compute: false },
        Endpoint { module: "portfolios", method: "POST", path: "/api/portfolios/assets/{asset_id}/operations", desc: "Record a buy/sell/dividend operation.", has_body: true, compute: false },
        Endpoint { module: "portfolios", method: "POST", path: "/api/portfolios/{id}/operations", desc: "Book a row against the portfolio itself: a deposit, a withdrawal, a fee, a tax, or income (dividend/interest/coupon) naming the asset that paid it. This is what gives a book a cash balance. A buy or a sell belongs to /assets/{asset_id}/operations instead.", has_body: true, compute: false },
    ]
}

fn add_portfolios_1(v: &mut Vec<Endpoint>)
    requires
        all_well_formed(old(v)@),
    ensures
        final(v)@ == old(v)@ + table_portfolios_1(),
        all_well_formed(final(v)@),
        final(v)@.len() > old(v)@.len(),
        forall|i: int| 0 <= i < old(v)@.len() ==> final(v)@[i] == old(v)@[i],
        final(v)@[old(v)@.len() as int].module@ == "portfolios"@,
{
    proof {
        lemma_methods_differ();
    }
    push(v, get("portfolios", "/api/portfolios",
        "List portfolios with valuation summary."));
    push(v, post("portfolios", "/api/portfolios",
        "Create a portfolio."));
    push(v, get("portfolios", "/api/portfolios/search",
        "Search priceable assets. Query: q (REQUIRED), kind (REQUIRED, crypto|stock — \"stock\" also returns ETFs)."));
    push(v, get("portfolios", "/api/portfolios/{id}",
        "Portfolio detail: positions, valuation, history. Can be large — use pick (e.g. [\"portfolio.value\",\"positions.symbol\"]) or head to cap the position list."));
    push(v, patch("portfolios", "/api/portfolios/{id}",
        "Update portfolio settings."));
    push(v, delete("portfolios", "/api/portfolios/{id}",
        "Delete a portfolio."));
    push(v, post_empty("portfolios", "/api/portfolios/{id}/refresh",
        "Re-price the portfolio now."));
    push(v, post_empty("portfolios", "/api/portfolios/{id}/reconcile",
        "Reconcile positions against a broker statement."));
    push(v, post("portfolios", "/api/portfolios/{id}/assets",
        "Add an asset/position."));
    push(v, get("portfolios", "/api/portfolios/assets/{asset_id}",
        "Asset detail with operations."));
    push(v, patch("portfolios", "/api/portfolios/assets/{asset_id}",
        "Update an asset."));
    push(v, delete("portfolios", "/api/portfolios/assets/{asset_id}",
        "Remove an asset."));
    push(v, post("portfolios", "/api/portfolios/assets/{asset_id}/operations",
        "Record a buy/sell/dividend operation."));
    push(v, post("portfolios", "/api/portfolios/{id}/operations",
        "Book a row against the portfolio itself: a deposit, a withdrawal, a fee, a tax, or income (dividend/interest/coupon) naming the asset that paid it. This is what gives a book a cash balance. A buy or a sell belongs to /assets/{asset_id}/operations instead."));
    assert(v@ =~= old(v)@ + table_portfolios_1());
}

/// The entries [`add_portfolios_2`] adds.
pub open spec fn table_portfolios_2() -> Seq<Endpoint> {
    seq![
        Endpoint { module: "portfolios", method: "DELETE", path: "/api/portfolios/operations/{op_id}", desc: "Delete an operation.", has_body: false, compute: false },
        Endpoint { module: "portfolios", method: "GET", path: "/api/portfolios/blocks", desc: "The analytics blocks this build serves, and the named windows.", has_body: false, compute: false },
        Endpoint { module: "portfolios", method: "GET", path: "/api/portfolios/factors", desc: "Stress factors and the instruments that proxy them.", has_body: false, compute: false },
        Endpoint { module: "portfolios", method: "GET", path: "/api/portfolios/{id}/analytics", desc: "Portfolio analytics. Query: blocks (comma-separated: book, costs, performance, risk, benchmark, drift, stress), window (1m|3m|6m|ytd|1y|3y|5y|inception), from, to. A block that cannot answer returns status \"unavailable\" with its reasons.", has_body: false, compute: false },
        Endpoint { module: "portfolios", method: "GET", path: "/api/portfolios/{id}/targets", desc: "Target allocation of a portfolio.", has_body: false, compute: false },
        Endpoint { module: "portfolios", method: "PUT", path: "/api/portfolios/{id}/targets", desc: "Replace a portfolio's target allocation (must add up to 100%).", has_body: true, compute: false },
        Endpoint { module: "portfolios", method: "GET", path: "/api/portfolios/{id}/history/coverage", desc: "What the daily curve can be built from: the days already stored, the instruments whose candles are missing, and the day the book went stale. Reads only.", has_body: false, compute: false },
        Endpoint { module: "portfolios", method: "POST", path: "/api/portfolios/{id}/history/sync", desc: "Download the candles the daily curve is missing, as ordinary histdata jobs (spends the connector's quota).", has_body: false, compute: false },
        Endpoint { module: "portfolios", method: "POST", path: "/api/portfolios/{id}/history/rebuild", desc: "Rebuild the daily value curve from the ledger and the stored candles, so a book kept for years gets its whole history. Body: from (YYYY-MM-DD); absent uses the portfolio's own staleness watermark.", has_body: true, compute: false },
        Endpoint { module: "portfolios", method: "GET", path: "/api/portfolios/scenarios", desc: "Stress scenarios, shipped and user-made.", has_body: false, compute: false },
        Endpoint { module: "portfolios", method: "POST", path: "/api/portfolios/scenarios", desc: "Create a stress scenario. kind=factor: legs = [{factor, shock_pct}] (a rates leg is quoted shock_bps + duration instead); factor ids come from GET /api/portfolios/factors. kind=historical: legs = {from, to}.", has_body: true, compute: false },
        Endpoint { module: "portfolios", method: "PUT", path: "/api/portfolios/scenarios/{id}", desc: "Update a scenario, shipped ones included (full payload, same shape as create).", has_body: true, compute: false },
        Endpoint { module: "portfolios", method: "DELETE", path: "/api/portfolios/scenarios/{id}", desc: "Delete a user-made scenario. A shipped one is refused: it would come back on the next migration.", has_body: false, compute: false },
        Endpoint { module: "portfolios", method: "POST", path: "/api/portfolios/{id}/stress", desc: "Run a stress scenario against a portfolio. Writes nothing. Reports coverage: the impact only describes the share of the book it could measure.", has_body: true, compute: false },
    ]
}

fn add_portfolios_2(v: &mut Vec<Endpoint>)
    requires
        all_well_formed(old(v)@),
    ensures
        final(v)@ == old(v)@ + table_portfolios_2(),
        all_well_formed(final(v)@),
        final(v)@.len() > old(v)@.len(),
        forall|i: int| 0 <= i < old(v)@.len() ==> final(v)@[i] == old(v)@[i],
{
    proof {
        lemma_methods_differ();
    }
    push(v, delete("portfolios", "/api/portfolios/operations/{op_id}",
        "Delete an operation."));
    push(v, get("portfolios", "/api/portfolios/blocks",
        "The analytics blocks this build serves, and the named windows."));
    push(v, get("portfolios", "/api/portfolios/factors",
        "Stress factors and the instruments that proxy them."));
    push(v, get("portfolios", "/api/portfolios/{id}/analytics",
        "Portfolio analytics. Query: blocks (comma-separated: book, costs, performance, risk, benchmark, drift, stress), window (1m|3m|6m|ytd|1y|3y|5y|inception), from, to. A block that cannot answer returns status \"unavailable\" with its reasons."));
    push(v, get("portfolios", "/api/portfolios/{id}/targets",
        "Target allocation of a portfolio."));
    push(v, put("portfolios", "/api/portfolios/{id}/targets",
        "Replace a portfolio's target allocation (must add up to 100%)."));
    push(v, get("portfolios", "/api/portfolios/{id}/history/coverage",
        "What the daily curve can be built from: the days already stored, the instruments whose candles are missing, and the day the book went stale. Reads only."));
    push(v, post_empty("portfolios", "/api/portfolios/{id}/history/sync",
        "Download the candles the daily curve is missing, as ordinary histdata jobs (spends the connector's quota)."));
    push(v, post("portfolios", "/api/portfolios/{id}/history/rebuild",
        "Rebuild the daily value curve from the ledger and the stored candles, so a book kept for years gets its whole history. Body: from (YYYY-MM-DD); absent uses the portfolio's own staleness watermark."));
    push(v, get("portfolios", "/api/portfolios/scenarios",
        "Stress scenarios, shipped and user-made."));
    push(v, post("portfolios", "/api/portfolios/scenarios",
        "Create a stress scenario. kind=factor: legs = [{factor, shock_pct}] (a rates leg is quoted shock_bps + duration instead); factor ids come from GET /api/portfolios/factors. kind=historical: legs = {from, to}."));
    push(v, put("portfolios", "/api/portfolios/scenarios/{id}",
        "Update a scenario, shipped ones included (full payload, same shape as create)."));
    push(v, delete("portfolios", "/api/portfolios/scenarios/{id}",
        "Delete a user-made scenario. A shipped one is refused: it would come back on the next migration."));
    push(v, post("portfolios", "/api/portfolios/{id}/stress",
        "Run a stress scenario against a portfolio. Writes nothing. Reports coverage: the impact only describes the share of the book it could measure."));
    assert(v@ =~= old(v)@ + table_portfolios_2());
}

/// The entries [`add_backtest_1`] adds.
pub open spec fn table_backtest_1() -> Seq<Endpoint> {
    seq![
        Endpoint { module: "backtest", method: "POST", path: "/api/backtest/run", desc: "Run a backtest (strategy config + one or more datasets). Pass view=\"summary\": the default \"full\" also returns every trade and the whole equity curve, which overflows the response budget on a long dataset. Summary returns stats, per-asset breakdown, alignment and run_id. Every run is recorded in the history automatically; name it via POST /api/backtest/runs with that run_id to keep it permanently.\n\nUNITS inside `settings` — the two families do NOT share a scale, and the `_pct` suffix does not tell them apart. Get a worked example from GET /api/backtest/strategies/{id} before composing one by hand.\nFRACTIONS (0.01 = 1%): long/short.stop_loss_pct, long/short.take_profit_pct, stop_loss.value + take_profit.value when kind=\"pct\", slippage.value when kind=\"pct\", spread_pct, pyramiding min_distance_pct, oos_split_pct. A realistic crypto slippage is 0.0005 (=0.05%); 0.05 here means 5% per fill and will wipe the account.\nPERCENTS (10 = 10%): sizing.percent, sizing.risk_pct, sizing cap_pct, risk.max_exposure_pct, risk.max_exposure_per_asset_pct, risk.max_daily_loss_pct, risk.max_drawdown_pct, funding.annual_rate_pct. Also fees.amount when amount_kind=\"pct\". sizing.fraction (Kelly) is a true fraction (0.5 = half Kelly); equity_tiers value follows its `metric`.\nEvery run echoes the settings it used back in the report — check the echoed slippage/spread/sizing against what you intended before trusting a result.\n\nEXITS — `exit_on_reverse` means \"close as soon as the entry group stops holding\". With a crossover entry (crosses_above / crosses_below / cross) the group holds only on the bar of the cross, so the position is closed on the next bar and EVERY trade lasts one bar. Pair a crossover entry with an explicit `exit` group instead, and check `avg_bars_held` and `exit_reasons` in the result before believing any figure. The response carries a `warnings` array for exactly this kind of configuration — read it.\n\nDCA MODE — `kind`:\"dca\" is a savings plan, not a strategy, and it reads a `dca` object instead of `long`/`short`: `weights` (one row per ticker, any scale, normalised), `contribution` ({amount, period bar|day|week|month|quarter|year, every, invest}), `buys` and `sells`. `sizing`, `pyramiding`, `leverage`, `risk` and `oos_split_pct` are NOT read in this mode (a non-zero split is refused). A buy rule's `amount_kind` is fixed|pct_cash|pct_equity|pct_invested, a sell rule's is pct_position|all|units|amount, and an unknown value is refused rather than defaulted. `target_gain_pct` and every `pct_*` amount are PERCENTS (20 = 20%). `starting_capital` is bought at each asset's first bar; contributions and conditional tranches are new money on top, so `contributed` (not `starting_capital`) is the denominator of `return_pct`. Two operand families exist only here: `metric` (dd_from_high, up_from_low, change_pct, change_from_start) and `position` (pnl_pct, since_last_buy_pct, avg_cost, units, value, weight_pct, cash_pct, drawdown_pct). Read the `dca` block of the result, not the trade statistics: a plan that only sells at a profit has a 100% win rate by construction. Judge it on `twr_pct` (deposit-proof) and `irr_pct`, against `lump_sum_return_pct`.\n\nWINDOWING — `from`/`to` restrict the simulated span (\"YYYY-MM-DD\" or RFC3339; a plain end date covers that whole day). This is how you do walk-forward and regime slices: run the same settings over consecutive windows and compare. The window is recorded with the run, so a later report or Monte-Carlo replays the same span. Note `limit` keeps the MOST RECENT bars of the window, so leave it alone unless you mean to truncate.", has_body: true, compute: true },
        Endpoint { module: "backtest", method: "POST", path: "/api/backtest/sweep", desc: "Run a parameter grid server-side and get EVERY trial back. Body: the same dataset/settings/from/to as /run, plus `grid` = {\"<dot.path.into.settings>\": [values…]} — e.g. {\"long.stop_loss_pct\": [0.01,0.02,0.03], \"sizing.percent\": [10,25]} is 6 trials. Max 4 axes, 64 trials. Units follow /api/backtest/run exactly; a grid value is written into settings verbatim, so a fraction stays a fraction.\n\nUse this instead of looping /run yourself. It is one tool round instead of N, and it makes the trial count part of the result rather than something you have to remember to mention.\n\nThe response is the trial table (params + stats + oos per trial, plus run_id when record=true), the spread of trial Sharpes, and `deflated_sharpe`: the Sharpe the BEST of N worthless strategies would be expected to reach, given how much these trials varied. When `selection_explains_it` is true the winner is inside the noise of having tried N times — report that as no evidence of an edge. Never present the best trial as expected performance; report the spread with it.", has_body: true, compute: true },
        Endpoint { module: "backtest", method: "POST", path: "/api/backtest/align", desc: "Multi-asset alignment preview (no simulation): merged-clock length, overlap window, warm-up bars, per-asset inactive bars. Takes the same from/to window as /run — pass it, or the preview describes a different span than the run it is warning you about.", has_body: true, compute: true },
        Endpoint { module: "backtest", method: "GET", path: "/api/backtest/runs", desc: "Run history, newest first (every run lands here automatically). Query: filter=saved for the named/pinned runs only.", has_body: false, compute: false },
        Endpoint { module: "backtest", method: "POST", path: "/api/backtest/runs", desc: "Name a run so it is kept permanently (pins it; never pruned by the history cap). Body: run_id (from /run) + name.", has_body: true, compute: false },
        Endpoint { module: "backtest", method: "DELETE", path: "/api/backtest/runs", desc: "Clear the auto history. Named/pinned runs are kept.", has_body: false, compute: false },
        Endpoint { module: "backtest", method: "DELETE", path: "/api/backtest/runs/{id}", desc: "Delete one run from the history.", has_body: false, compute: false },
        Endpoint { module: "backtest", method: "POST", path: "/api/backtest/runs/{id}/montecarlo", desc: "Monte-Carlo resampling of a saved run's realized per-trade P&L: many equity paths drawn from the trades the run actually made, giving percentile bands for final equity and max drawdown, plus risk of ruin and probability of loss. Pass view=\"summary\" — the default \"full\" also returns the per-step equity fan, two histograms and the realized curve, which exist to draw a chart and will overflow the response budget.\n\nIt answers \"how else could this sequence of trades have gone\", NOT \"is the edge real\": it resamples the trades you already have, so a fitted strategy yields confident-looking bands around a fitted result. Needs at least 2 trades. Useful for sizing and ruin risk; not evidence of an edge.", has_body: true, compute: true },
        Endpoint { module: "backtest", method: "GET", path: "/api/backtest/runs/{id}/report.md", desc: "Markdown report for a saved run (front matter, stats table, human-readable settings, exit reasons).", has_body: false, compute: false },
        Endpoint { module: "backtest", method: "GET", path: "/api/backtest/strategies", desc: "List saved strategies (named Settings).", has_body: false, compute: false },
        Endpoint { module: "backtest", method: "POST", path: "/api/backtest/strategies", desc: "Create a strategy (named engine Settings; validated). Returns id.", has_body: true, compute: false },
        Endpoint { module: "backtest", method: "GET", path: "/api/backtest/strategies/{id}", desc: "Get one strategy with its full settings (feed straight to /run).", has_body: false, compute: false },
        Endpoint { module: "backtest", method: "PUT", path: "/api/backtest/strategies/{id}", desc: "Update a strategy.", has_body: true, compute: false },
        Endpoint { module: "backtest", method: "DELETE", path: "/api/backtest/strategies/{id}", desc: "Delete a strategy.", has_body: false, compute: false },
    ]
}

fn add_backtest_1(v: &mut Vec<Endpoint>)
    requires
        all_well_formed(old(v)@),
    ensures
        final(v)@ == old(v)@ + table_backtest_1(),
        all_well_formed(final(v)@),
        final(v)@.len() > old(v)@.len(),
        forall|i: int| 0 <= i < old(v)@.len() ==> final(v)@[i] == old(v)@[i],
        final(v)@[old(v)@.len() as int].module@ == "backtest"@,
{
    proof {
        lemma_methods_differ();
    }
    push(v, compute_post("backtest", "/api/backtest/run",
        "Run a backtest (strategy config + one or more datasets). Pass view=\"summary\": the default \"full\" also returns every trade and the whole equity curve, which overflows the response budget on a long dataset. Summary returns stats, per-asset breakdown, alignment and run_id. Every run is recorded in the history automatically; name it via POST /api/backtest/runs with that run_id to keep it permanently.\n\nUNITS inside `settings` — the two families do NOT share a scale, and the `_pct` suffix does not tell them apart. Get a worked example from GET /api/backtest/strategies/{id} before composing one by hand.\nFRACTIONS (0.01 = 1%): long/short.stop_loss_pct, long/short.take_profit_pct, stop_loss.value + take_profit.value when kind=\"pct\", slippage.value when kind=\"pct\", spread_pct, pyramiding min_distance_pct, oos_split_pct. A realistic crypto slippage is 0.0005 (=0.05%); 0.05 here means 5% per fill and will wipe the account.\nPERCENTS (10 = 10%): sizing.percent, sizing.risk_pct, sizing cap_pct, risk.max_exposure_pct, risk.max_exposure_per_asset_pct, risk.max_daily_loss_pct, risk.max_drawdown_pct, funding.annual_rate_pct. Also fees.amount when amount_kind=\"pct\". sizing.fraction (Kelly) is a true fraction (0.5 = half Kelly); equity_tiers value follows its `metric`.\nEvery run echoes the settings it used back in the report — check the echoed slippage/spread/sizing against what you intended before trusting a result.\n\nEXITS — `exit_on_reverse` means \"close as soon as the entry group stops holding\". With a crossover entry (crosses_above / crosses_below / cross) the group holds only on the bar of the cross, so the position is closed on the next bar and EVERY trade lasts one bar. Pair a crossover entry with an explicit `exit` group instead, and check `avg_bars_held` and `exit_reasons` in the result before believing any figure. The response carries a `warnings` array for exactly this kind of configuration — read it.\n\nDCA MODE — `kind`:\"dca\" is a savings plan, not a strategy, and it reads a `dca` object instead of `long`/`short`: `weights` (one row per ticker, any scale, normalised), `contribution` ({amount, period bar|day|week|month|quarter|year, every, invest}), `buys` and `sells`. `sizing`, `pyramiding`, `leverage`, `risk` and `oos_split_pct` are NOT read in this mode (a non-zero split is refused). A buy rule's `amount_kind` is fixed|pct_cash|pct_equity|pct_invested, a sell rule's is pct_position|all|units|amount, and an unknown value is refused rather than defaulted. `target_gain_pct` and every `pct_*` amount are PERCENTS (20 = 20%). `starting_capital` is bought at each asset's first bar; contributions and conditional tranches are new money on top, so `contributed` (not `starting_capital`) is the denominator of `return_pct`. Two operand families exist only here: `metric` (dd_from_high, up_from_low, change_pct, change_from_start) and `position` (pnl_pct, since_last_buy_pct, avg_cost, units, value, weight_pct, cash_pct, drawdown_pct). Read the `dca` block of the result, not the trade statistics: a plan that only sells at a profit has a 100% win rate by construction. Judge it on `twr_pct` (deposit-proof) and `irr_pct`, against `lump_sum_return_pct`.\n\nWINDOWING — `from`/`to` restrict the simulated span (\"YYYY-MM-DD\" or RFC3339; a plain end date covers that whole day). This is how you do walk-forward and regime slices: run the same settings over consecutive windows and compare. The window is recorded with the run, so a later report or Monte-Carlo replays the same span. Note `limit` keeps the MOST RECENT bars of the window, so leave it alone unless you mean to truncate."));
    push(v, compute_post("backtest", "/api/backtest/sweep",
        "Run a parameter grid server-side and get EVERY trial back. Body: the same dataset/settings/from/to as /run, plus `grid` = {\"<dot.path.into.settings>\": [values…]} — e.g. {\"long.stop_loss_pct\": [0.01,0.02,0.03], \"sizing.percent\": [10,25]} is 6 trials. Max 4 axes, 64 trials. Units follow /api/backtest/run exactly; a grid value is written into settings verbatim, so a fraction stays a fraction.\n\nUse this instead of looping /run yourself. It is one tool round instead of N, and it makes the trial count part of the result rather than something you have to remember to mention.\n\nThe response is the trial table (params + stats + oos per trial, plus run_id when record=true), the spread of trial Sharpes, and `deflated_sharpe`: the Sharpe the BEST of N worthless strategies would be expected to reach, given how much these trials varied. When `selection_explains_it` is true the winner is inside the noise of having tried N times — report that as no evidence of an edge. Never present the best trial as expected performance; report the spread with it."));
    push(v, compute_post("backtest", "/api/backtest/align",
        "Multi-asset alignment preview (no simulation): merged-clock length, overlap window, warm-up bars, per-asset inactive bars. Takes the same from/to window as /run — pass it, or the preview describes a different span than the run it is warning you about."));
    push(v, get("backtest", "/api/backtest/runs",
        "Run history, newest first (every run lands here automatically). Query: filter=saved for the named/pinned runs only."));
    push(v, post("backtest", "/api/backtest/runs",
        "Name a run so it is kept permanently (pins it; never pruned by the history cap). Body: run_id (from /run) + name."));
    push(v, delete("backtest", "/api/backtest/runs",
        "Clear the auto history. Named/pinned runs are kept."));
    push(v, delete("backtest", "/api/backtest/runs/{id}",
        "Delete one run from the history."));
    push(v, compute_post("backtest", "/api/backtest/runs/{id}/montecarlo",
        "Monte-Carlo resampling of a saved run's realized per-trade P&L: many equity paths drawn from the trades the run actually made, giving percentile bands for final equity and max drawdown, plus risk of ruin and probability of loss. Pass view=\"summary\" — the default \"full\" also returns the per-step equity fan, two histograms and the realized curve, which exist to draw a chart and will overflow the response budget.\n\nIt answers \"how else could this sequence of trades have gone\", NOT \"is the edge real\": it resamples the trades you already have, so a fitted strategy yields confident-looking bands around a fitted result. Needs at least 2 trades. Useful for sizing and ruin risk; not evidence of an edge."));
    push(v, get("backtest", "/api/backtest/runs/{id}/report.md",
        "Markdown report for a saved run (front matter, stats table, human-readable settings, exit reasons)."));
    push(v, get("backtest", "/api/backtest/strategies",
        "List saved strategies (named Settings)."));
    push(v, post("backtest", "/api/backtest/strategies",
        "Create a strategy (named engine Settings; validated). Returns id."));
    push(v, get("backtest", "/api/backtest/strategies/{id}",
        "Get one strategy with its full settings (feed straight to /run)."));
    push(v, put("backtest", "/api/backtest/strategies/{id}",
        "Update a strategy."));
    push(v, delete("backtest", "/api/backtest/strategies/{id}",
        "Delete a strategy."));
    assert(v@ =~= old(v)@ + table_backtest_1());
}

/// The entries [`add_backtest_2`] adds.
pub open spec fn table_backtest_2() -> Seq<Endpoint> {
    seq![
        Endpoint { module: "backtest", method: "POST", path: "/api/backtest/optimize/params", desc: "Which parameters of a strategy a grid can vary: every settings path that exists, the value it holds today, its unit and a suggested sweep. Body: strategy_id (from /api/backtest/strategies) or settings. START HERE. An axis path is not validated against the settings: a path with a typo is written in as a dead key, and the grid then runs the base strategy N times and reports it as a result.", has_body: true, compute: true },
        Endpoint { module: "backtest", method: "POST", path: "/api/backtest/optimize/estimate", desc: "Count the variants and time one of them, for real: it loads the bars and runs variant 0, so \"43 minutes\" comes from this machine and this strategy. Writes nothing, starts nothing. Same body as /optimize. Call it before /optimize and tell the user the number.", has_body: true, compute: true },
        Endpoint { module: "backtest", method: "POST", path: "/api/backtest/optimize", desc: "Start the grid; returns a job id. This takes every core for minutes: run /optimize/estimate first and let the user approve the wait. One job at a time (a second call is refused while one runs). Body: dataset_ids + settings + axes (paths from /optimize/params, values in engine units) + optional from/to/limit/metric.", has_body: true, compute: false },
        Endpoint { module: "backtest", method: "GET", path: "/api/backtest/optimize", desc: "Optimizer jobs held in memory (id, state, progress). Nothing is persisted: a finished job is gone at the next restart, so keep a result by re-running its variant through /api/backtest/run and naming it.", has_body: false, compute: false },
        Endpoint { module: "backtest", method: "GET", path: "/api/backtest/optimize/{id}", desc: "Progress plus one page of the ranking. Query: sort (metric), dir, offset, limit (max 500), analysis=1 for the per-axis sensitivity. The full grid is never serialized: page it.", has_body: false, compute: false },
        Endpoint { module: "backtest", method: "POST", path: "/api/backtest/optimize/{id}/cancel", desc: "Stop a running job. What it already computed stays readable.", has_body: false, compute: false },
        Endpoint { module: "backtest", method: "DELETE", path: "/api/backtest/optimize/{id}", desc: "Forget a job and its rows.", has_body: false, compute: false },
        Endpoint { module: "backtest", method: "GET", path: "/api/backtest/indicators", desc: "List saved custom indicators (node-graph definitions).", has_body: false, compute: false },
        Endpoint { module: "backtest", method: "POST", path: "/api/backtest/indicators", desc: "Create a custom indicator (node-graph DAG JSON; validated: bounded, no forward/self refs). Returns id.", has_body: true, compute: false },
        Endpoint { module: "backtest", method: "GET", path: "/api/backtest/indicators/{id}", desc: "Get one custom-indicator definition.", has_body: false, compute: false },
        Endpoint { module: "backtest", method: "PUT", path: "/api/backtest/indicators/{id}", desc: "Update a custom indicator.", has_body: true, compute: false },
        Endpoint { module: "backtest", method: "DELETE", path: "/api/backtest/indicators/{id}", desc: "Delete a custom indicator.", has_body: false, compute: false },
        Endpoint { module: "backtest", method: "GET", path: "/api/backtest/paper", desc: "Paper sessions with their counters (open positions, unseen events).", has_body: false, compute: false },
        Endpoint { module: "backtest", method: "POST", path: "/api/backtest/paper", desc: "Start a session: frozen engine settings, the datasets it reads, a recurrence, and what to say where. `settings` is the same object POST /api/backtest/run takes. The live feed is refused for now, use feed=hist.", has_body: true, compute: false },
    ]
}

fn add_backtest_2(v: &mut Vec<Endpoint>)
    requires
        all_well_formed(old(v)@),
    ensures
        final(v)@ == old(v)@ + table_backtest_2(),
        all_well_formed(final(v)@),
        final(v)@.len() > old(v)@.len(),
        forall|i: int| 0 <= i < old(v)@.len() ==> final(v)@[i] == old(v)@[i],
{
    proof {
        lemma_methods_differ();
    }
    push(v, compute_post("backtest", "/api/backtest/optimize/params",
        "Which parameters of a strategy a grid can vary: every settings path that exists, the value it holds today, its unit and a suggested sweep. Body: strategy_id (from /api/backtest/strategies) or settings. START HERE. An axis path is not validated against the settings: a path with a typo is written in as a dead key, and the grid then runs the base strategy N times and reports it as a result."));
    push(v, compute_post("backtest", "/api/backtest/optimize/estimate",
        "Count the variants and time one of them, for real: it loads the bars and runs variant 0, so \"43 minutes\" comes from this machine and this strategy. Writes nothing, starts nothing. Same body as /optimize. Call it before /optimize and tell the user the number."));
    push(v, post("backtest", "/api/backtest/optimize",
        "Start the grid; returns a job id. This takes every core for minutes: run /optimize/estimate first and let the user approve the wait. One job at a time (a second call is refused while one runs). Body: dataset_ids + settings + axes (paths from /optimize/params, values in engine units) + optional from/to/limit/metric."));
    push(v, get("backtest", "/api/backtest/optimize",
        "Optimizer jobs held in memory (id, state, progress). Nothing is persisted: a finished job is gone at the next restart, so keep a result by re-running its variant through /api/backtest/run and naming it."));
    push(v, get("backtest", "/api/backtest/optimize/{id}",
        "Progress plus one page of the ranking. Query: sort (metric), dir, offset, limit (max 500), analysis=1 for the per-axis sensitivity. The full grid is never serialized: page it."));
    push(v, post_empty("backtest", "/api/backtest/optimize/{id}/cancel",
        "Stop a running job. What it already computed stays readable."));
    push(v, delete("backtest", "/api/backtest/optimize/{id}",
        "Forget a job and its rows."));
    push(v, get("backtest", "/api/backtest/indicators",
        "List saved custom indicators (node-graph definitions)."));
    push(v, post("backtest", "/api/backtest/indicators",
        "Create a custom indicator (node-graph DAG JSON; validated: bounded, no forward/self refs). Returns id."));
    push(v, get("backtest", "/api/backtest/indicators/{id}",
        "Get one custom-indicator definition."));
    push(v, put("backtest", "/api/backtest/indicators/{id}",
        "Update a custom indicator."));
    push(v, delete("backtest", "/api/backtest/indicators/{id}",
        "Delete a custom indicator."));
    push(v, get("backtest", "/api/backtest/paper",
        "Paper sessions with their counters (open positions, unseen events)."));
    push(v, post("backtest", "/api/backtest/paper",
        "Start a session: frozen engine settings, the datasets it reads, a recurrence, and what to say where. `settings` is the same object POST /api/backtest/run takes. The live feed is refused for now, use feed=hist."));
    assert(v@ =~= old(v)@ + table_backtest_2());
}

/// The entries [`add_backtest_3`] adds.
pub open spec fn table_backtest_3() -> Seq<Endpoint> {
    seq![
        Endpoint { module: "backtest", method: "GET", path: "/api/backtest/paper/{id}", desc: "One session with its open positions and its last events.", has_body: false, compute: false },
        Endpoint { module: "backtest", method: "PUT", path: "/api/backtest/paper/{id}", desc: "Update a session (full payload, same shape as create). Changing the strategy or the datasets clears the paper book: a stale book describes a simulation that no longer exists.", has_body: true, compute: false },
        Endpoint { module: "backtest", method: "DELETE", path: "/api/backtest/paper/{id}", desc: "Delete a session and its book.", has_body: false, compute: false },
        Endpoint { module: "backtest", method: "POST", path: "/api/backtest/paper/{id}/status", desc: "Pause or resume (status: active|paused). Resuming re-plans from now, so a week of missed occurrences never fires at once.", has_body: true, compute: false },
        Endpoint { module: "backtest", method: "POST", path: "/api/backtest/paper/{id}/run", desc: "Tick the session now and report what it did. A real tick: it books fills and sends the session's messages.", has_body: false, compute: false },
        Endpoint { module: "backtest", method: "GET", path: "/api/backtest/paper/{id}/trades", desc: "The paper book. Query: open=true for what is still held.", has_body: false, compute: false },
        Endpoint { module: "backtest", method: "GET", path: "/api/backtest/paper/variables", desc: "The message vocabulary: every path a template may read, plus the filters. Query: session, kind (entry|exit|summary — each resolves a different context).", has_body: false, compute: false },
        Endpoint { module: "backtest", method: "POST", path: "/api/backtest/paper/preview", desc: "Render message templates being written, before any session exists. Sends nothing.", has_body: true, compute: true },
        Endpoint { module: "backtest", method: "POST", path: "/api/backtest/paper/{id}/preview", desc: "Render a session's templates against a representative trade, errors included. Sends nothing.", has_body: true, compute: true },
        Endpoint { module: "backtest", method: "GET", path: "/api/backtest/paper/events", desc: "The session inbox: what was sent, what could not be delivered, what is still pending. Query: session, unseen=true.", has_body: false, compute: false },
        Endpoint { module: "backtest", method: "POST", path: "/api/backtest/paper/events/seen", desc: "Acknowledge events (body: session, or nothing for every session).", has_body: true, compute: false },
    ]
}

fn add_backtest_3(v: &mut Vec<Endpoint>)
    requires
        all_well_formed(old(v)@),
    ensures
        final(v)@ == old(v)@ + table_backtest_3(),
        all_well_formed(final(v)@),
        final(v)@.len() > old(v)@.len(),
        forall|i: int| 0 <= i < old(v)@.len() ==> final(v)@[i] == old(v)@[i],
{
    proof {
        lemma_methods_differ();
    }
    push(v, get("backtest", "/api/backtest/paper/{id}",
        "One session with its open positions and its last events."));
    push(v, put("backtest", "/api/backtest/paper/{id}",
        "Update a session (full payload, same shape as create). Changing the strategy or the datasets clears the paper book: a stale book describes a simulation that no longer exists."));
    push(v, delete("backtest", "/api/backtest/paper/{id}",
        "Delete a session and its book."));
    push(v, post("backtest", "/api/backtest/paper/{id}/status",
        "Pause or resume (status: active|paused). Resuming re-plans from now, so a week of missed occurrences never fires at once."));
    push(v, post_empty("backtest", "/api/backtest/paper/{id}/run",
        "Tick the session now and report what it did. A real tick: it books fills and sends the session's messages."));
    push(v, get("backtest", "/api/backtest/paper/{id}/trades",
        "The paper book. Query: open=true for what is still held."));
    push(v, get("backtest", "/api/backtest/paper/variables",
        "The message vocabulary: every path a template may read, plus the filters. Query: session, kind (entry|exit|summary — each resolves a different context)."));
    push(v, compute_post("backtest", "/api/backtest/paper/preview",
        "Render message templates being written, before any session exists. Sends nothing."));
    push(v, compute_post("backtest", "/api/backtest/paper/{id}/preview",
        "Render a session's templates against a representative trade, errors included. Sends nothing."));
    push(v, get("backtest", "/api/backtest/paper/events",
        "The session inbox: what was sent, what could not be delivered, what is still pending. Query: session, unseen=true."));
    push(v, post("backtest", "/api/backtest/paper/events/seen",
        "Acknowledge events (body: session, or nothing for every session)."));
    assert(v@ =~= old(v)@ + table_backtest_3());
}

/// The entries [`add_quant`] adds.
pub open spec fn table_quant() -> Seq<Endpoint> {
    seq![
        Endpoint { module: "quant", method: "POST", path: "/api/quant/single", desc: "Risk/return metrics for one asset's series (VaR, CVaR, vol, drawdown). Response includes per-bar drawdown_curve + histogram for charting — pass pick (e.g. [\"result.var_hist\",\"result.cvar\"]) when the user only needs figures.", has_body: true, compute: true },
        Endpoint { module: "quant", method: "POST", path: "/api/quant/kelly", desc: "Kelly criterion sizing.", has_body: true, compute: true },
        Endpoint { module: "quant", method: "POST", path: "/api/quant/size", desc: "Position sizing calculator.", has_body: true, compute: true },
        Endpoint { module: "quant", method: "POST", path: "/api/quant/asset-signals", desc: "Technical signals for an asset.", has_body: true, compute: true },
        Endpoint { module: "quant", method: "POST", path: "/api/quant/seasonality", desc: "Calendar breakdown of an asset's returns (by month, weekday and hour where the timeframe allows), with the sample size behind each bucket. Read the counts before the averages: a \"best month\" drawn from four observations is noise.", has_body: true, compute: true },
        Endpoint { module: "quant", method: "POST", path: "/api/quant/portfolio", desc: "Portfolio-level metrics (correlations, vol, drawdown…). Large response — pick the metric fields the user asked for.", has_body: true, compute: true },
    ]
}

fn add_quant(v: &mut Vec<Endpoint>)
    requires
        all_well_formed(old(v)@),
    ensures
        final(v)@ == old(v)@ + table_quant(),
        all_well_formed(final(v)@),
        final(v)@.len() > old(v)@.len(),
        forall|i: int| 0 <= i < old(v)@.len() ==> final(v)@[i] == old(v)@[i],
        final(v)@[old(v)@.len() as int].module@ == "quant"@,
{
    proof {
        lemma_methods_differ();
    }
    push(v, compute_post("quant", "/api/quant/single",
        "Risk/return metrics for one asset's series (VaR, CVaR, vol, drawdown). Response includes per-bar drawdown_curve + histogram for charting — pass pick (e.g. [\"result.var_hist\",\"result.cvar\"]) when the user only needs figures."));
    push(v, compute_post("quant", "/api/quant/kelly",
        "Kelly criterion sizing."));
    push(v, compute_post("quant", "/api/quant/size",
        "Position sizing calculator."));
    push(v, compute_post("quant", "/api/quant/asset-signals",
        "Technical signals for an asset."));
    push(v, compute_post("quant", "/api/quant/seasonality",
        "Calendar breakdown of an asset's returns (by month, weekday and hour where the timeframe allows), with the sample size behind each bucket. Read the counts before the averages: a \"best month\" drawn from four observations is noise."));
    push(v, compute_post("quant", "/api/quant/portfolio",
        "Portfolio-level metrics (correlations, vol, drawdown…). Large response — pick the metric fields the user asked for."));
    assert(v@ =~= old(v)@ + table_quant());
}

/// The entries [`add_histdata`] adds.
pub open spec fn table_histdata() -> Seq<Endpoint> {
    seq![
        Endpoint { module: "histdata", method: "GET", path: "/api/histdata/datasets", desc: "List downloaded datasets.", has_body: false, compute: false },
        Endpoint { module: "histdata", method: "GET", path: "/api/histdata/datasets/{id}/bars", desc: "OHLCV bars. Query: from, to, limit, offset.", has_body: false, compute: false },
        Endpoint { module: "histdata", method: "POST", path: "/api/histdata/downloads", desc: "Queue a new dataset download. Check /api/connectors/providers for valid provider/asset_type/timeframe combos first.", has_body: true, compute: false },
        Endpoint { module: "histdata", method: "POST", path: "/api/histdata/preview", desc: "Fetch a trailing window of bars straight from a provider WITHOUT storing anything (default 500 bars, max 5000). Use it to look at an instrument that was never downloaded — a quick quote, a chart, a check that a symbol is spelled the way the provider wants. The response also reports whether a dataset for these coordinates already exists. To keep the data, call /api/histdata/preview/save.", has_body: true, compute: true },
        Endpoint { module: "histdata", method: "POST", path: "/api/histdata/preview/save", desc: "Store the window a preview showed: queues the normal download job for those coordinates, consolidating with any bars already stored. Either an explicit from/to window or a trailing `bars` count.", has_body: true, compute: false },
        Endpoint { module: "histdata", method: "GET", path: "/api/histdata/symbols", desc: "Look instruments up across the connectors granted to the chart. Query: q (symbol or name), asset_type, connectors (comma-separated connector ids), limit. Returns each hit's provider-native symbol plus `notes` for connectors that could not answer (no search endpoint, missing key, rate limit).", has_body: false, compute: false },
        Endpoint { module: "histdata", method: "POST", path: "/api/histviz/series", desc: "One window of an instrument for charting: bars already stored are read from the catalog and only the missing edges are fetched through the connector. Stores nothing. Body: coordinates + `to` (RFC3339 exclusive upper bound, default now) + `bars` (slice size, default 1500). Walk backwards through history by passing the previous slice's oldest timestamp as `to`. `history_start` means the provider serves nothing older; `notice` carries the reason when a window came back short (auth, quota, rate_limit, depth, symbol).", has_body: true, compute: true },
        Endpoint { module: "histdata", method: "POST", path: "/api/histviz/series/batch", desc: "Several instruments in one round trip (at most 12), read one at a time because they usually share a connector, whose quota and rate limiter are counted per account. Body: `items` = a list of /api/histviz/series bodies, plus `align` (answer on one shared clock) and `clock` (align onto bars you already hold). A failure is per instrument: that slot carries `error`, the others carry their bars.", has_body: true, compute: true },
        Endpoint { module: "histdata", method: "POST", path: "/api/histdata/datasets/{id}/append", desc: "Extend a dataset with newer bars (from its last bar to now).", has_body: false, compute: false },
        Endpoint { module: "histdata", method: "GET", path: "/api/histdata/jobs", desc: "Download queue/job status.", has_body: false, compute: false },
        Endpoint { module: "histdata", method: "DELETE", path: "/api/histdata/jobs/{id}", desc: "Cancel one queued or running download.", has_body: false, compute: false },
        Endpoint { module: "histdata", method: "DELETE", path: "/api/histdata/jobs/batch/{id}", desc: "Cancel every job of a batch (one row per symbol of a multi-symbol download).", has_body: false, compute: false },
        Endpoint { module: "histdata", method: "GET", path: "/api/histdata/datasets/{id}/export", desc: "The dataset's bars as CSV text. Large: /datasets/{id}/bars with from/to/limit is the normal read.", has_body: false, compute: false },
        Endpoint { module: "histdata", method: "DELETE", path: "/api/histdata/datasets/{id}", desc: "Delete a dataset.", has_body: false, compute: false },
    ]
}

fn add_histdata(v: &mut Vec<Endpoint>)
    requires
        all_well_formed(old(v)@),
    ensures
        final(v)@ == old(v)@ + table_histdata(),
        all_well_formed(final(v)@),
        final(v)@.len() > old(v)@.len(),
        forall|i: int| 0 <= i < old(v)@.len() ==> final(v)@[i] == old(v)@[i],
        final(v)@[old(v)@.len() as int].module@ == "histdata"@,
{
    proof {
        lemma_methods_differ();
    }
    push(v, get("histdata", "/api/histdata/datasets",
        "List downloaded datasets."));
    push(v, get("histdata", "/api/histdata/datasets/{id}/bars",
        "OHLCV bars. Query: from, to, limit, offset."));
    push(v, post("histdata", "/api/histdata/downloads",
        "Queue a new dataset download. Check /api/connectors/providers for valid provider/asset_type/timeframe combos first."));
    push(v, compute_post("histdata", "/api/histdata/preview",
        "Fetch a trailing window of bars straight from a provider WITHOUT storing anything (default 500 bars, max 5000). Use it to look at an instrument that was never downloaded — a quick quote, a chart, a check that a symbol is spelled the way the provider wants. The response also reports whether a dataset for these coordinates already exists. To keep the data, call /api/histdata/preview/save."));
    push(v, post("histdata", "/api/histdata/preview/save",
        "Store the window a preview showed: queues the normal download job for those coordinates, consolidating with any bars already stored. Either an explicit from/to window or a trailing `bars` count."));
    push(v, get("histdata", "/api/histdata/symbols",
        "Look instruments up across the connectors granted to the chart. Query: q (symbol or name), asset_type, connectors (comma-separated connector ids), limit. Returns each hit's provider-native symbol plus `notes` for connectors that could not answer (no search endpoint, missing key, rate limit)."));
    push(v, compute_post("histdata", "/api/histviz/series",
        "One window of an instrument for charting: bars already stored are read from the catalog and only the missing edges are fetched through the connector. Stores nothing. Body: coordinates + `to` (RFC3339 exclusive upper bound, default now) + `bars` (slice size, default 1500). Walk backwards through history by passing the previous slice's oldest timestamp as `to`. `history_start` means the provider serves nothing older; `notice` carries the reason when a window came back short (auth, quota, rate_limit, depth, symbol)."));
    push(v, compute_post("histdata", "/api/histviz/series/batch",
        "Several instruments in one round trip (at most 12), read one at a time because they usually share a connector, whose quota and rate limiter are counted per account. Body: `items` = a list of /api/histviz/series bodies, plus `align` (answer on one shared clock) and `clock` (align onto bars you already hold). A failure is per instrument: that slot carries `error`, the others carry their bars."));
    push(v, post_empty("histdata", "/api/histdata/datasets/{id}/append",
        "Extend a dataset with newer bars (from its last bar to now)."));
    push(v, get("histdata", "/api/histdata/jobs",
        "Download queue/job status."));
    push(v, delete("histdata", "/api/histdata/jobs/{id}",
        "Cancel one queued or running download."));
    push(v, delete("histdata", "/api/histdata/jobs/batch/{id}",
        "Cancel every job of a batch (one row per symbol of a multi-symbol download)."));
    push(v, get("histdata", "/api/histdata/datasets/{id}/export",
        "The dataset's bars as CSV text. Large: /datasets/{id}/bars with from/to/limit is the normal read."));
    push(v, delete("histdata", "/api/histdata/datasets/{id}",
        "Delete a dataset."));
    assert(v@ =~= old(v)@ + table_histdata());
}

/// The entries [`add_histviz_1`] adds.
pub open spec fn table_histviz_1() -> Seq<Endpoint> {
    seq![
        Endpoint { module: "histviz", method: "GET", path: "/api/histviz/workspaces", desc: "Chart workspaces: the grid (rows x cols), the panes in it, the splitter fractions and the link-group colors.", has_body: false, compute: false },
        Endpoint { module: "histviz", method: "POST", path: "/api/histviz/workspaces", desc: "Create a workspace. The grid is between 1x1 and 3x4: a bigger one is that many live feeds. `panes` is one entry per pane (cell, coordinates, layout override, link group) and `settings` holds the splitter fractions and link colors: both are the chart client's own shapes, so read an existing workspace before writing one.", has_body: true, compute: false },
        Endpoint { module: "histviz", method: "GET", path: "/api/histviz/workspaces/{id}", desc: "One workspace.", has_body: false, compute: false },
        Endpoint { module: "histviz", method: "PUT", path: "/api/histviz/workspaces/{id}", desc: "Replace a workspace (full payload, same shape as create).", has_body: true, compute: false },
        Endpoint { module: "histviz", method: "DELETE", path: "/api/histviz/workspaces/{id}", desc: "Delete a workspace.", has_body: false, compute: false },
        Endpoint { module: "histviz", method: "GET", path: "/api/histviz/lists", desc: "The chart's own instrument lists (the rail beside the panes).", has_body: false, compute: false },
        Endpoint { module: "histviz", method: "POST", path: "/api/histviz/lists", desc: "Create a chart list. `items` is [{provider, asset_type, ticker, timeframe, connector_id, name}] in the user's order.", has_body: true, compute: false },
        Endpoint { module: "histviz", method: "GET", path: "/api/histviz/lists/{id}", desc: "One chart list.", has_body: false, compute: false },
        Endpoint { module: "histviz", method: "PUT", path: "/api/histviz/lists/{id}", desc: "Replace a chart list (full payload, same shape as create).", has_body: true, compute: false },
        Endpoint { module: "histviz", method: "DELETE", path: "/api/histviz/lists/{id}", desc: "Delete a chart list.", has_body: false, compute: false },
        Endpoint { module: "histviz", method: "POST", path: "/api/histviz/lists/{id}/promote", desc: "Copy a chart list into a NEW watchlist; the chart list is left alone, so promoting twice is not destructive. NOTE for whoever grants this: it writes into the Watchlists module, which this key does not otherwise reach.", has_body: true, compute: false },
        Endpoint { module: "histviz", method: "GET", path: "/api/histviz/alerts", desc: "Price and indicator alerts, watched by the server on closed bars. Query: provider, asset_type, ticker, timeframe (all four together) for one instrument's.", has_body: false, compute: false },
        Endpoint { module: "histviz", method: "POST", path: "/api/histviz/alerts", desc: "Create an alert: kind price|indicator, source close|open|high|low, op above|below|crosses (crossings, not states), a value, and the channels to notify (empty = every channel the chart is granted). It fires with no browser open.", has_body: true, compute: false },
        Endpoint { module: "histviz", method: "GET", path: "/api/histviz/alerts/{id}", desc: "One alert, with what it last saw and when it last fired.", has_body: false, compute: false },
    ]
}

fn add_histviz_1(v: &mut Vec<Endpoint>)
    requires
        all_well_formed(old(v)@),
    ensures
        final(v)@ == old(v)@ + table_histviz_1(),
        all_well_formed(final(v)@),
        final(v)@.len() > old(v)@.len(),
        forall|i: int| 0 <= i < old(v)@.len() ==> final(v)@[i] == old(v)@[i],
        final(v)@[old(v)@.len() as int].module@ == "histviz"@,
{
    proof {
        lemma_methods_differ();
    }
    push(v, get("histviz", "/api/histviz/workspaces",
        "Chart workspaces: the grid (rows x cols), the panes in it, the splitter fractions and the link-group colors."));
    push(v, post("histviz", "/api/histviz/workspaces",
        "Create a workspace. The grid is between 1x1 and 3x4: a bigger one is that many live feeds. `panes` is one entry per pane (cell, coordinates, layout override, link group) and `settings` holds the splitter fractions and link colors: both are the chart client's own shapes, so read an existing workspace before writing one."));
    push(v, get("histviz", "/api/histviz/workspaces/{id}",
        "One workspace."));
    push(v, put("histviz", "/api/histviz/workspaces/{id}",
        "Replace a workspace (full payload, same shape as create)."));
    push(v, delete("histviz", "/api/histviz/workspaces/{id}",
        "Delete a workspace."));
    push(v, get("histviz", "/api/histviz/lists",
        "The chart's own instrument lists (the rail beside the panes)."));
    push(v, post("histviz", "/api/histviz/lists",
        "Create a chart list. `items` is [{provider, asset_type, ticker, timeframe, connector_id, name}] in the user's order."));
    push(v, get("histviz", "/api/histviz/lists/{id}",
        "One chart list."));
    push(v, put("histviz", "/api/histviz/lists/{id}",
        "Replace a chart list (full payload, same shape as create)."));
    push(v, delete("histviz", "/api/histviz/lists/{id}",
        "Delete a chart list."));
    push(v, post("histviz", "/api/histviz/lists/{id}/promote",
        "Copy a chart list into a NEW watchlist; the chart list is left alone, so promoting twice is not destructive. NOTE for whoever grants this: it writes into the Watchlists module, which this key does not otherwise reach."));
    push(v, get("histviz", "/api/histviz/alerts",
        "Price and indicator alerts, watched by the server on closed bars. Query: provider, asset_type, ticker, timeframe (all four together) for one instrument's."));
    push(v, post("histviz", "/api/histviz/alerts",
        "Create an alert: kind price|indicator, source close|open|high|low, op above|below|crosses (crossings, not states), a value, and the channels to notify (empty = every channel the chart is granted). It fires with no browser open."));
    push(v, get("histviz", "/api/histviz/alerts/{id}",
        "One alert, with what it last saw and when it last fired."));
    assert(v@ =~= old(v)@ + table_histviz_1());
}

/// The entries [`add_histviz_2`] adds.
pub open spec fn table_histviz_2() -> Seq<Endpoint> {
    seq![
        Endpoint { module: "histviz", method: "PUT", path: "/api/histviz/alerts/{id}", desc: "Replace an alert (full payload, same shape as create). The bookkeeping columns are never writable.", has_body: true, compute: false },
        Endpoint { module: "histviz", method: "DELETE", path: "/api/histviz/alerts/{id}", desc: "Delete an alert.", has_body: false, compute: false },
    ]
}

fn add_histviz_2(v: &mut Vec<Endpoint>)
    requires
        all_well_formed(old(v)@),
    ensures
        final(v)@ == old(v)@ + table_histviz_2(),
        all_well_formed(final(v)@),
        final(v)@.len() > old(v)@.len(),
        forall|i: int| 0 <= i < old(v)@.len() ==> final(v)@[i] == old(v)@[i],
{
    proof {
        lemma_methods_differ();
    }
    push(v, put("histviz", "/api/histviz/alerts/{id}",
        "Replace an alert (full payload, same shape as create). The bookkeeping columns are never writable."));
    push(v, delete("histviz", "/api/histviz/alerts/{id}",
        "Delete an alert."));
    assert(v@ =~= old(v)@ + table_histviz_2());
}

/// The entries [`add_connectors`] adds.
pub open spec fn table_connectors() -> Seq<Endpoint> {
    seq![
        Endpoint { module: "connectors", method: "GET", path: "/api/connectors/modules", desc: "The modules a connector can be granted to.", has_body: false, compute: false },
        Endpoint { module: "connectors", method: "POST", path: "/api/connectors/{id}/test", desc: "Ask the provider whether this connector's credentials work. Answers ok plus a detail line naming what to fix; stores nothing. Refused on a provider that has no connection test.", has_body: false, compute: false },
        Endpoint { module: "connectors", method: "GET", path: "/api/connectors/providers", desc: "Available market-data providers and their capabilities (valid asset_type/timeframe combos per provider, which need an API key, which can stream live).", has_body: false, compute: false },
        Endpoint { module: "connectors", method: "GET", path: "/api/connectors", desc: "Configured connectors (named provider accounts) with the modules they are granted to, which credentials are set (names only, never values) and their request-quota usage. Query: module=histdata|watchlists|histviz to see only what that module may use.", has_body: false, compute: false },
    ]
}

fn add_connectors(v: &mut Vec<Endpoint>)
    requires
        all_well_formed(old(v)@),
    ensures
        final(v)@ == old(v)@ + table_connectors(),
        all_well_formed(final(v)@),
        final(v)@.len() > old(v)@.len(),
        forall|i: int| 0 <= i < old(v)@.len() ==> final(v)@[i] == old(v)@[i],
        final(v)@[old(v)@.len() as int].module@ == "connectors"@,
{
    proof {
        lemma_methods_differ();
    }
    push(v, get("connectors", "/api/connectors/modules",
        "The modules a connector can be granted to."));
    push(v, post_empty("connectors", "/api/connectors/{id}/test",
        "Ask the provider whether this connector's credentials work. Answers ok plus a detail line naming what to fix; stores nothing. Refused on a provider that has no connection test."));
    push(v, get("connectors", "/api/connectors/providers",
        "Available market-data providers and their capabilities (valid asset_type/timeframe combos per provider, which need an API key, which can stream live)."));
    push(v, get("connectors", "/api/connectors",
        "Configured connectors (named provider accounts) with the modules they are granted to, which credentials are set (names only, never values) and their request-quota usage. Query: module=histdata|watchlists|histviz to see only what that module may use."));
    assert(v@ =~= old(v)@ + table_connectors());
}

/// The entries [`add_findb`] adds.
pub open spec fn table_findb() -> Seq<Endpoint> {
    seq![
        Endpoint { module: "findb", method: "GET", path: "/api/findb/status", desc: "FinanceDatabase install status.", has_body: false, compute: false },
        Endpoint { module: "findb", method: "GET", path: "/api/findb/search", desc: "Search financial products. Query: q, kind, exchange, country, sector, limit, offset.", has_body: false, compute: false },
        Endpoint { module: "findb", method: "GET", path: "/api/findb/facets", desc: "Distinct values of ONE column, for building a filter. Query: column (REQUIRED, one of asset_type|exchange|currency|country|sector|industry|category|family), type (optional asset_type filter).", has_body: false, compute: false },
        Endpoint { module: "findb", method: "GET", path: "/api/findb/folders", desc: "List favorite folders.", has_body: false, compute: false },
        Endpoint { module: "findb", method: "POST", path: "/api/findb/folders", desc: "Create a folder.", has_body: true, compute: false },
        Endpoint { module: "findb", method: "PATCH", path: "/api/findb/folders/{id}", desc: "Rename a folder.", has_body: true, compute: false },
        Endpoint { module: "findb", method: "DELETE", path: "/api/findb/folders/{id}", desc: "Delete a folder.", has_body: false, compute: false },
        Endpoint { module: "findb", method: "GET", path: "/api/findb/favorites", desc: "List favorite products.", has_body: false, compute: false },
        Endpoint { module: "findb", method: "POST", path: "/api/findb/favorites", desc: "Add a favorite.", has_body: true, compute: false },
        Endpoint { module: "findb", method: "PATCH", path: "/api/findb/favorites/{id}", desc: "Move/annotate a favorite.", has_body: true, compute: false },
        Endpoint { module: "findb", method: "DELETE", path: "/api/findb/favorites/{id}", desc: "Remove a favorite.", has_body: false, compute: false },
    ]
}

fn add_findb(v: &mut Vec<Endpoint>)
    requires
        all_well_formed(old(v)@),
    ensures
        final(v)@ == old(v)@ + table_findb(),
        all_well_formed(final(v)@),
        final(v)@.len() > old(v)@.len(),
        forall|i: int| 0 <= i < old(v)@.len() ==> final(v)@[i] == old(v)@[i],
        final(v)@[old(v)@.len() as int].module@ == "findb"@,
{
    proof {
        lemma_methods_differ();
    }
    push(v, get("findb", "/api/findb/status",
        "FinanceDatabase install status."));
    push(v, get("findb", "/api/findb/search",
        "Search financial products. Query: q, kind, exchange, country, sector, limit, offset."));
    push(v, get("findb", "/api/findb/facets",
        "Distinct values of ONE column, for building a filter. Query: column (REQUIRED, one of asset_type|exchange|currency|country|sector|industry|category|family), type (optional asset_type filter)."));
    push(v, get("findb", "/api/findb/folders",
        "List favorite folders."));
    push(v, post("findb", "/api/findb/folders",
        "Create a folder."));
    push(v, patch("findb", "/api/findb/folders/{id}",
        "Rename a folder."));
    push(v, delete("findb", "/api/findb/folders/{id}",
        "Delete a folder."));
    push(v, get("findb", "/api/findb/favorites",
        "List favorite products."));
    push(v, post("findb", "/api/findb/favorites",
        "Add a favorite."));
    push(v, patch("findb", "/api/findb/favorites/{id}",
        "Move/annotate a favorite."));
    push(v, delete("findb", "/api/findb/favorites/{id}",
        "Remove a favorite."));
    assert(v@ =~= old(v)@ + table_findb());
}

/// The entries [`add_watchlists_1`] adds.
pub open spec fn table_watchlists_1() -> Seq<Endpoint> {
    seq![
        Endpoint { module: "watchlists", method: "GET", path: "/api/watchlists", desc: "List watchlists with item counts.", has_body: false, compute: false },
        Endpoint { module: "watchlists", method: "GET", path: "/api/watchlists/{id}", desc: "One watchlist with its items and cached quotes (price, 24h/3d/7d/30d changes).", has_body: false, compute: false },
        Endpoint { module: "watchlists", method: "GET", path: "/api/watchlists/search", desc: "Resolve a symbol to add. Query: q, kind (crypto|stock).", has_body: false, compute: false },
        Endpoint { module: "watchlists", method: "GET", path: "/api/watchlists/templates", desc: "Starter templates (id, name, symbols) usable when creating a watchlist.", has_body: false, compute: false },
        Endpoint { module: "watchlists", method: "POST", path: "/api/watchlists", desc: "Create a watchlist (optionally from a starter template).", has_body: true, compute: false },
        Endpoint { module: "watchlists", method: "PATCH", path: "/api/watchlists/{id}", desc: "Update a watchlist (name, description, sync, refresh cadence, quote source).", has_body: true, compute: false },
        Endpoint { module: "watchlists", method: "DELETE", path: "/api/watchlists/{id}", desc: "Delete a watchlist and its items.", has_body: false, compute: false },
        Endpoint { module: "watchlists", method: "POST", path: "/api/watchlists/{id}/items", desc: "Add a symbol.", has_body: true, compute: false },
        Endpoint { module: "watchlists", method: "PATCH", path: "/api/watchlists/items/{item_id}", desc: "Update an item (notes, position, quote overrides).", has_body: true, compute: false },
        Endpoint { module: "watchlists", method: "DELETE", path: "/api/watchlists/items/{item_id}", desc: "Remove an item.", has_body: false, compute: false },
        Endpoint { module: "watchlists", method: "POST", path: "/api/watchlists/{id}/refresh", desc: "Re-quote every item now.", has_body: false, compute: false },
        Endpoint { module: "watchlists", method: "POST", path: "/api/watchlists/{id}/import", desc: "Copy a Portfolio Tracker portfolio's assets onto the watchlist. Upserts: symbols already there are refreshed, not duplicated.", has_body: true, compute: false },
        Endpoint { module: "watchlists", method: "POST", path: "/api/watchlists/items/{item_id}/alerts", desc: "Create a price alert on an item: metric + direction + threshold, optional basis/window/repeat/cooldown, and the notification channels to push to. A channel the Watchlists module is not granted is refused, so read /api/notif-channels first (that endpoint is not on this gateway: ask the user for the channel ids).", has_body: true, compute: false },
        Endpoint { module: "watchlists", method: "PATCH", path: "/api/watchlists/alerts/{alert_id}", desc: "Update an alert (same full payload as create).", has_body: true, compute: false },
    ]
}

fn add_watchlists_1(v: &mut Vec<Endpoint>)
    requires
        all_well_formed(old(v)@),
    ensures
        final(v)@ == old(v)@ + table_watchlists_1(),
        all_well_formed(final(v)@),
        final(v)@.len() > old(v)@.len(),
        forall|i: int| 0 <= i < old(v)@.len() ==> final(v)@[i] == old(v)@[i],
        final(v)@[old(v)@.len() as int].module@ == "watchlists"@,
{
    proof {
        lemma_methods_differ();
    }
    push(v, get("watchlists", "/api/watchlists",
        "List watchlists with item counts."));
    push(v, get("watchlists", "/api/watchlists/{id}",
        "One watchlist with its items and cached quotes (price, 24h/3d/7d/30d changes)."));
    push(v, get("watchlists", "/api/watchlists/search",
        "Resolve a symbol to add. Query: q, kind (crypto|stock)."));
    push(v, get("watchlists", "/api/watchlists/templates",
        "Starter templates (id, name, symbols) usable when creating a watchlist."));
    push(v, post("watchlists", "/api/watchlists",
        "Create a watchlist (optionally from a starter template)."));
    push(v, patch("watchlists", "/api/watchlists/{id}",
        "Update a watchlist (name, description, sync, refresh cadence, quote source)."));
    push(v, delete("watchlists", "/api/watchlists/{id}",
        "Delete a watchlist and its items."));
    push(v, post("watchlists", "/api/watchlists/{id}/items",
        "Add a symbol."));
    push(v, patch("watchlists", "/api/watchlists/items/{item_id}",
        "Update an item (notes, position, quote overrides)."));
    push(v, delete("watchlists", "/api/watchlists/items/{item_id}",
        "Remove an item."));
    push(v, post_empty("watchlists", "/api/watchlists/{id}/refresh",
        "Re-quote every item now."));
    push(v, post("watchlists", "/api/watchlists/{id}/import",
        "Copy a Portfolio Tracker portfolio's assets onto the watchlist. Upserts: symbols already there are refreshed, not duplicated."));
    push(v, post("watchlists", "/api/watchlists/items/{item_id}/alerts",
        "Create a price alert on an item: metric + direction + threshold, optional basis/window/repeat/cooldown, and the notification channels to push to. A channel the Watchlists module is not granted is refused, so read /api/notif-channels first (that endpoint is not on this gateway: ask the user for the channel ids)."));
    push(v, patch("watchlists", "/api/watchlists/alerts/{alert_id}",
        "Update an alert (same full payload as create)."));
    assert(v@ =~= old(v)@ + table_watchlists_1());
}

/// The entries [`add_watchlists_2`] adds.
pub open spec fn table_watchlists_2() -> Seq<Endpoint> {
    seq![
        Endpoint { module: "watchlists", method: "DELETE", path: "/api/watchlists/alerts/{alert_id}", desc: "Delete an alert.", has_body: false, compute: false },
    ]
}

fn add_watchlists_2(v: &mut Vec<Endpoint>)
    requires
        all_well_formed(old(v)@),
    ensures
        final(v)@ == old(v)@ + table_watchlists_2(),
        all_well_formed(final(v)@),
        final(v)@.len() > old(v)@.len(),
        forall|i: int| 0 <= i < old(v)@.len() ==> final(v)@[i] == old(v)@[i],
{
    proof {
        lemma_methods_differ();
    }
    push(v, delete("watchlists", "/api/watchlists/alerts/{alert_id}",
        "Delete an alert."));
    assert(v@ =~= old(v)@ + table_watchlists_2());
}

/// The entries [`add_mportfolios`] adds.
pub open spec fn table_mportfolios() -> Seq<Endpoint> {
    seq![
        Endpoint { module: "mportfolios", method: "GET", path: "/api/mportfolios", desc: "List famous managers' portfolios (Dataroma cache).", has_body: false, compute: false },
        Endpoint { module: "mportfolios", method: "GET", path: "/api/mportfolios/{slug}", desc: "One manager's holdings.", has_body: false, compute: false },
        Endpoint { module: "mportfolios", method: "POST", path: "/api/mportfolios/refresh", desc: "Refresh the cache from source.", has_body: false, compute: false },
        Endpoint { module: "mportfolios", method: "GET", path: "/api/mportfolios/snapshots", desc: "List saved snapshots.", has_body: false, compute: false },
        Endpoint { module: "mportfolios", method: "POST", path: "/api/mportfolios/snapshots", desc: "Snapshot current holdings for comparison.", has_body: true, compute: false },
        Endpoint { module: "mportfolios", method: "GET", path: "/api/mportfolios/snapshots/{id}", desc: "Snapshot detail.", has_body: false, compute: false },
        Endpoint { module: "mportfolios", method: "DELETE", path: "/api/mportfolios/snapshots/{id}", desc: "Delete a snapshot.", has_body: false, compute: false },
        Endpoint { module: "mportfolios", method: "DELETE", path: "/api/mportfolios/snapshots/by-slug/{slug}", desc: "Delete every snapshot of one manager.", has_body: false, compute: false },
    ]
}

fn add_mportfolios(v: &mut Vec<Endpoint>)
    requires
        all_well_formed(old(v)@),
    ensures
        final(v)@ == old(v)@ + table_mportfolios(),
        all_well_formed(final(v)@),
        final(v)@.len() > old(v)@.len(),
        forall|i: int| 0 <= i < old(v)@.len() ==> final(v)@[i] == old(v)@[i],
        final(v)@[old(v)@.len() as int].module@ == "mportfolios"@,
{
    proof {
        lemma_methods_differ();
    }
    push(v, get("mportfolios", "/api/mportfolios",
        "List famous managers' portfolios (Dataroma cache)."));
    push(v, get("mportfolios", "/api/mportfolios/{slug}",
        "One manager's holdings."));
    push(v, post_empty("mportfolios", "/api/mportfolios/refresh",
        "Refresh the cache from source."));
    push(v, get("mportfolios", "/api/mportfolios/snapshots",
        "List saved snapshots."));
    push(v, post("mportfolios", "/api/mportfolios/snapshots",
        "Snapshot current holdings for comparison."));
    push(v, get("mportfolios", "/api/mportfolios/snapshots/{id}",
        "Snapshot detail."));
    push(v, delete("mportfolios", "/api/mportfolios/snapshots/{id}",
        "Delete a snapshot."));
    push(v, delete("mportfolios", "/api/mportfolios/snapshots/by-slug/{slug}",
        "Delete every snapshot of one manager."));
    assert(v@ =~= old(v)@ + table_mportfolios());
}

/// The entries [`add_wealth_1`] adds.
pub open spec fn table_wealth_1() -> Seq<Endpoint> {
    seq![
        Endpoint { module: "wealth", method: "GET", path: "/api/wealth/assets", desc: "List wealth assets (accounts, property, holdings…).", has_body: false, compute: false },
        Endpoint { module: "wealth", method: "POST", path: "/api/wealth/assets", desc: "Add an asset.", has_body: true, compute: false },
        Endpoint { module: "wealth", method: "PATCH", path: "/api/wealth/assets/{id}", desc: "Update an asset.", has_body: true, compute: false },
        Endpoint { module: "wealth", method: "DELETE", path: "/api/wealth/assets/{id}", desc: "Delete an asset.", has_body: false, compute: false },
        Endpoint { module: "wealth", method: "GET", path: "/api/wealth/assets/{id}/revisions", desc: "Value history of an asset.", has_body: false, compute: false },
        Endpoint { module: "wealth", method: "POST", path: "/api/wealth/assets/{id}/revisions", desc: "Record a new valuation.", has_body: true, compute: false },
        Endpoint { module: "wealth", method: "PATCH", path: "/api/wealth/revisions/{id}", desc: "Update a valuation.", has_body: true, compute: false },
        Endpoint { module: "wealth", method: "DELETE", path: "/api/wealth/revisions/{id}", desc: "Delete a valuation.", has_body: false, compute: false },
        Endpoint { module: "wealth", method: "GET", path: "/api/wealth/breakdown", desc: "Net-worth breakdown over time.", has_body: false, compute: false },
        Endpoint { module: "wealth", method: "GET", path: "/api/wealth/templates", desc: "List asset templates.", has_body: false, compute: false },
        Endpoint { module: "wealth", method: "POST", path: "/api/wealth/templates", desc: "Create an asset template.", has_body: true, compute: false },
        Endpoint { module: "wealth", method: "PATCH", path: "/api/wealth/templates/{id}", desc: "Update a template.", has_body: true, compute: false },
        Endpoint { module: "wealth", method: "DELETE", path: "/api/wealth/templates/{id}", desc: "Delete a template.", has_body: false, compute: false },
        Endpoint { module: "wealth", method: "GET", path: "/api/wealth/settings", desc: "Wealth settings.", has_body: false, compute: false },
    ]
}

fn add_wealth_1(v: &mut Vec<Endpoint>)
    requires
        all_well_formed(old(v)@),
    ensures
        final(v)@ == old(v)@ + table_wealth_1(),
        all_well_formed(final(v)@),
        final(v)@.len() > old(v)@.len(),
        forall|i: int| 0 <= i < old(v)@.len() ==> final(v)@[i] == old(v)@[i],
        final(v)@[old(v)@.len() as int].module@ == "wealth"@,
{
    proof {
        lemma_methods_differ();
    }
    push(v, get("wealth", "/api/wealth/assets",
        "List wealth assets (accounts, property, holdings…)."));
    push(v, post("wealth", "/api/wealth/assets",
        "Add an asset."));
    push(v, patch("wealth", "/api/wealth/assets/{id}",
        "Update an asset."));
    push(v, delete("wealth", "/api/wealth/assets/{id}",
        "Delete an asset."));
    push(v, get("wealth", "/api/wealth/assets/{id}/revisions",
        "Value history of an asset."));
    push(v, post("wealth", "/api/wealth/assets/{id}/revisions",
        "Record a new valuation."));
    push(v, patch("wealth", "/api/wealth/revisions/{id}",
        "Update a valuation."));
    push(v, delete("wealth", "/api/wealth/revisions/{id}",
        "Delete a valuation."));
    push(v, get("wealth", "/api/wealth/breakdown",
        "Net-worth breakdown over time."));
    push(v, get("wealth", "/api/wealth/templates",
        "List asset templates."));
    push(v, post("wealth", "/api/wealth/templates",
        "Create an asset template."));
    push(v, patch("wealth", "/api/wealth/templates/{id}",
        "Update a template."));
    push(v, delete("wealth", "/api/wealth/templates/{id}",
        "Delete a template."));
    push(v, get("wealth", "/api/wealth/settings",
        "Wealth settings."));
    assert(v@ =~= old(v)@ + table_wealth_1());
}

/// The entries [`add_wealth_2`] adds.
pub open spec fn table_wealth_2() -> Seq<Endpoint> {
    seq![
        Endpoint { module: "wealth", method: "PATCH", path: "/api/wealth/settings", desc: "Update wealth settings.", has_body: true, compute: false },
    ]
}

fn add_wealth_2(v: &mut Vec<Endpoint>)
    requires
        all_well_formed(old(v)@),
    ensures
        final(v)@ == old(v)@ + table_wealth_2(),
        all_well_formed(final(v)@),
        final(v)@.len() > old(v)@.len(),
        forall|i: int| 0 <= i < old(v)@.len() ==> final(v)@[i] == old(v)@[i],
{
    proof {
        lemma_methods_differ();
    }
    push(v, patch("wealth", "/api/wealth/settings",
        "Update wealth settings."));
    assert(v@ =~= old(v)@ + table_wealth_2());
}

/// The entries [`add_subscriptions`] adds.
pub open spec fn table_subscriptions() -> Seq<Endpoint> {
    seq![
        Endpoint { module: "subscriptions", method: "GET", path: "/api/subscriptions", desc: "List recurring subscriptions.", has_body: false, compute: false },
        Endpoint { module: "subscriptions", method: "POST", path: "/api/subscriptions", desc: "Add a subscription.", has_body: true, compute: false },
        Endpoint { module: "subscriptions", method: "GET", path: "/api/subscriptions/{id}", desc: "Subscription detail.", has_body: false, compute: false },
        Endpoint { module: "subscriptions", method: "PATCH", path: "/api/subscriptions/{id}", desc: "Update a subscription.", has_body: true, compute: false },
        Endpoint { module: "subscriptions", method: "DELETE", path: "/api/subscriptions/{id}", desc: "Delete a subscription.", has_body: false, compute: false },
        Endpoint { module: "subscriptions", method: "GET", path: "/api/subscriptions/breakdown", desc: "Cost breakdown (monthly/yearly, by category).", has_body: false, compute: false },
        Endpoint { module: "subscriptions", method: "GET", path: "/api/subscriptions/suggestions", desc: "Known services the user could be paying for, to seed a subscription.", has_body: false, compute: false },
        Endpoint { module: "subscriptions", method: "GET", path: "/api/subscriptions/settings", desc: "Subscription settings.", has_body: false, compute: false },
        Endpoint { module: "subscriptions", method: "PATCH", path: "/api/subscriptions/settings", desc: "Update settings.", has_body: true, compute: false },
    ]
}

fn add_subscriptions(v: &mut Vec<Endpoint>)
    requires
        all_well_formed(old(v)@),
    ensures
        final(v)@ == old(v)@ + table_subscriptions(),
        all_well_formed(final(v)@),
        final(v)@.len() > old(v)@.len(),
        forall|i: int| 0 <= i < old(v)@.len() ==> final(v)@[i] == old(v)@[i],
        final(v)@[old(v)@.len() as int].module@ == "subscriptions"@,
{
    proof {
        lemma_methods_differ();
    }
    push(v, get("subscriptions", "/api/subscriptions",
        "List recurring subscriptions."));
    push(v, post("subscriptions", "/api/subscriptions",
        "Add a subscription."));
    push(v, get("subscriptions", "/api/subscriptions/{id}",
        "Subscription detail."));
    push(v, patch("subscriptions", "/api/subscriptions/{id}",
        "Update a subscription."));
    push(v, delete("subscriptions", "/api/subscriptions/{id}",
        "Delete a subscription."));
    push(v, get("subscriptions", "/api/subscriptions/breakdown",
        "Cost breakdown (monthly/yearly, by category)."));
    push(v, get("subscriptions", "/api/subscriptions/suggestions",
        "Known services the user could be paying for, to seed a subscription."));
    push(v, get("subscriptions", "/api/subscriptions/settings",
        "Subscription settings."));
    push(v, patch("subscriptions", "/api/subscriptions/settings",
        "Update settings."));
    assert(v@ =~= old(v)@ + table_subscriptions());
}

/// The entries [`add_taxcalc`] adds.
pub open spec fn table_taxcalc() -> Seq<Endpoint> {
    seq![
        Endpoint { module: "taxcalc", method: "GET", path: "/api/taxcalc/templates", desc: "Available country tax templates.", has_body: false, compute: false },
        Endpoint { module: "taxcalc", method: "GET", path: "/api/taxcalc/profiles", desc: "List tax profiles.", has_body: false, compute: false },
        Endpoint { module: "taxcalc", method: "POST", path: "/api/taxcalc/profiles", desc: "Create a profile.", has_body: true, compute: false },
        Endpoint { module: "taxcalc", method: "GET", path: "/api/taxcalc/profiles/{id}", desc: "Profile detail.", has_body: false, compute: false },
        Endpoint { module: "taxcalc", method: "PUT", path: "/api/taxcalc/profiles/{id}", desc: "Update a profile.", has_body: true, compute: false },
        Endpoint { module: "taxcalc", method: "DELETE", path: "/api/taxcalc/profiles/{id}", desc: "Delete a profile.", has_body: false, compute: false },
        Endpoint { module: "taxcalc", method: "POST", path: "/api/taxcalc/compute", desc: "Stateless tax computation from inputs.", has_body: true, compute: true },
        Endpoint { module: "taxcalc", method: "POST", path: "/api/taxcalc/scenarios/{id}/compute", desc: "Run the engine against a profile and scenario inputs and return the result. Persists nothing: saving to history is POST /scenarios. The {id} in the path is ignored, the body carries everything.", has_body: true, compute: true },
        Endpoint { module: "taxcalc", method: "GET", path: "/api/taxcalc/scenarios", desc: "List saved scenarios.", has_body: false, compute: false },
        Endpoint { module: "taxcalc", method: "POST", path: "/api/taxcalc/scenarios", desc: "Create a scenario.", has_body: true, compute: false },
        Endpoint { module: "taxcalc", method: "GET", path: "/api/taxcalc/scenarios/{id}", desc: "Scenario detail.", has_body: false, compute: false },
        Endpoint { module: "taxcalc", method: "PUT", path: "/api/taxcalc/scenarios/{id}", desc: "Update a scenario.", has_body: true, compute: false },
        Endpoint { module: "taxcalc", method: "DELETE", path: "/api/taxcalc/scenarios/{id}", desc: "Delete a scenario.", has_body: false, compute: false },
        Endpoint { module: "taxcalc", method: "POST", path: "/api/taxcalc/scenarios/{id}/compute", desc: "Compute a saved scenario.", has_body: false, compute: true },
    ]
}

fn add_taxcalc(v: &mut Vec<Endpoint>)
    requires
        all_well_formed(old(v)@),
    ensures
        final(v)@ == old(v)@ + table_taxcalc(),
        all_well_formed(final(v)@),
        final(v)@.len() > old(v)@.len(),
        forall|i: int| 0 <= i < old(v)@.len() ==> final(v)@[i] == old(v)@[i],
        final(v)@[old(v)@.len() as int].module@ == "taxcalc"@,
{
    proof {
        lemma_methods_differ();
    }
    push(v, get("taxcalc", "/api/taxcalc/templates",
        "Available country tax templates."));
    push(v, get("taxcalc", "/api/taxcalc/profiles",
        "List tax profiles."));
    push(v, post("taxcalc", "/api/taxcalc/profiles",
        "Create a profile."));
    push(v, get("taxcalc", "/api/taxcalc/profiles/{id}",
        "Profile detail."));
    push(v, put("taxcalc", "/api/taxcalc/profiles/{id}",
        "Update a profile."));
    push(v, delete("taxcalc", "/api/taxcalc/profiles/{id}",
        "Delete a profile."));
    push(v, compute_post("taxcalc", "/api/taxcalc/compute",
        "Stateless tax computation from inputs."));
    push(v, compute_post("taxcalc", "/api/taxcalc/scenarios/{id}/compute",
        "Run the engine against a profile and scenario inputs and return the result. Persists nothing: saving to history is POST /scenarios. The {id} in the path is ignored, the body carries everything."));
    push(v, get("taxcalc", "/api/taxcalc/scenarios",
        "List saved scenarios."));
    push(v, post("taxcalc", "/api/taxcalc/scenarios",
        "Create a scenario."));
    push(v, get("taxcalc", "/api/taxcalc/scenarios/{id}",
        "Scenario detail."));
    push(v, put("taxcalc", "/api/taxcalc/scenarios/{id}",
        "Update a scenario."));
    push(v, delete("taxcalc", "/api/taxcalc/scenarios/{id}",
        "Delete a scenario."));
    push(v, compute_post_empty("taxcalc", "/api/taxcalc/scenarios/{id}/compute",
        "Compute a saved scenario."));
    assert(v@ =~= old(v)@ + table_taxcalc());
}

/// The entries [`add_editor_1`] adds.
pub open spec fn table_editor_1() -> Seq<Endpoint> {
    seq![
        Endpoint { module: "editor", method: "GET", path: "/api/documents", desc: "List documents (tree).", has_body: false, compute: false },
        Endpoint { module: "editor", method: "POST", path: "/api/documents", desc: "Create a document.", has_body: true, compute: false },
        Endpoint { module: "editor", method: "GET", path: "/api/documents/{id}", desc: "Document content (rich-text blocks JSON).", has_body: false, compute: false },
        Endpoint { module: "editor", method: "PATCH", path: "/api/documents/{id}", desc: "Update title/content.", has_body: true, compute: false },
        Endpoint { module: "editor", method: "DELETE", path: "/api/documents/{id}", desc: "Delete a document.", has_body: false, compute: false },
        Endpoint { module: "editor", method: "POST", path: "/api/documents/{id}/move", desc: "Move in the tree.", has_body: true, compute: false },
        Endpoint { module: "editor", method: "POST", path: "/api/documents/{id}/flag", desc: "Set or clear a document's colour flag in the tree.", has_body: true, compute: false },
        Endpoint { module: "editor", method: "GET", path: "/api/databases/{id}", desc: "Load an editor database (columns + rows).", has_body: false, compute: false },
        Endpoint { module: "editor", method: "POST", path: "/api/databases/{id}/columns", desc: "Add a column.", has_body: true, compute: false },
        Endpoint { module: "editor", method: "PATCH", path: "/api/databases/columns/{col_id}", desc: "Update a column.", has_body: true, compute: false },
        Endpoint { module: "editor", method: "DELETE", path: "/api/databases/columns/{col_id}", desc: "Delete a column.", has_body: false, compute: false },
        Endpoint { module: "editor", method: "POST", path: "/api/databases/{id}/rows", desc: "Add a row.", has_body: true, compute: false },
        Endpoint { module: "editor", method: "PATCH", path: "/api/databases/rows/{row_id}", desc: "Update a row.", has_body: true, compute: false },
        Endpoint { module: "editor", method: "DELETE", path: "/api/databases/rows/{row_id}", desc: "Delete a row.", has_body: false, compute: false },
    ]
}

fn add_editor_1(v: &mut Vec<Endpoint>)
    requires
        all_well_formed(old(v)@),
    ensures
        final(v)@ == old(v)@ + table_editor_1(),
        all_well_formed(final(v)@),
        final(v)@.len() > old(v)@.len(),
        forall|i: int| 0 <= i < old(v)@.len() ==> final(v)@[i] == old(v)@[i],
        final(v)@[old(v)@.len() as int].module@ == "editor"@,
{
    proof {
        lemma_methods_differ();
    }
    push(v, get("editor", "/api/documents",
        "List documents (tree)."));
    push(v, post("editor", "/api/documents",
        "Create a document."));
    push(v, get("editor", "/api/documents/{id}",
        "Document content (rich-text blocks JSON)."));
    push(v, patch("editor", "/api/documents/{id}",
        "Update title/content."));
    push(v, delete("editor", "/api/documents/{id}",
        "Delete a document."));
    push(v, post("editor", "/api/documents/{id}/move",
        "Move in the tree."));
    push(v, post("editor", "/api/documents/{id}/flag",
        "Set or clear a document's colour flag in the tree."));
    push(v, get("editor", "/api/databases/{id}",
        "Load an editor database (columns + rows)."));
    push(v, post("editor", "/api/databases/{id}/columns",
        "Add a column."));
    push(v, patch("editor", "/api/databases/columns/{col_id}",
        "Update a column."));
    push(v, delete("editor", "/api/databases/columns/{col_id}",
        "Delete a column."));
    push(v, post("editor", "/api/databases/{id}/rows",
        "Add a row."));
    push(v, patch("editor", "/api/databases/rows/{row_id}",
        "Update a row."));
    push(v, delete("editor", "/api/databases/rows/{row_id}",
        "Delete a row."));
    assert(v@ =~= old(v)@ + table_editor_1());
}

/// The entries [`add_editor_2`] adds.
pub open spec fn table_editor_2() -> Seq<Endpoint> {
    seq![
        Endpoint { module: "editor", method: "POST", path: "/api/databases/rows/{row_id}/move", desc: "Reorder a row.", has_body: true, compute: false },
    ]
}

fn add_editor_2(v: &mut Vec<Endpoint>)
    requires
        all_well_formed(old(v)@),
    ensures
        final(v)@ == old(v)@ + table_editor_2(),
        all_well_formed(final(v)@),
        final(v)@.len() > old(v)@.len(),
        forall|i: int| 0 <= i < old(v)@.len() ==> final(v)@[i] == old(v)@[i],
{
    proof {
        lemma_methods_differ();
    }
    push(v, post("editor", "/api/databases/rows/{row_id}/move",
        "Reorder a row."));
    assert(v@ =~= old(v)@ + table_editor_2());
}

/// The entries [`add_todos`] adds.
pub open spec fn table_todos() -> Seq<Endpoint> {
    seq![
        Endpoint { module: "todos", method: "GET", path: "/api/todos", desc: "List todos.", has_body: false, compute: false },
        Endpoint { module: "todos", method: "POST", path: "/api/todos", desc: "Add a todo.", has_body: true, compute: false },
        Endpoint { module: "todos", method: "GET", path: "/api/todos/{id}", desc: "Todo detail.", has_body: false, compute: false },
        Endpoint { module: "todos", method: "PATCH", path: "/api/todos/{id}", desc: "Update a todo.", has_body: true, compute: false },
        Endpoint { module: "todos", method: "DELETE", path: "/api/todos/{id}", desc: "Delete a todo.", has_body: false, compute: false },
        Endpoint { module: "todos", method: "PATCH", path: "/api/todos/{id}/done", desc: "Toggle done.", has_body: true, compute: false },
    ]
}

fn add_todos(v: &mut Vec<Endpoint>)
    requires
        all_well_formed(old(v)@),
    ensures
        final(v)@ == old(v)@ + table_todos(),
        all_well_formed(final(v)@),
        final(v)@.len() > old(v)@.len(),
        forall|i: int| 0 <= i < old(v)@.len() ==> final(v)@[i] == old(v)@[i],
        final(v)@[old(v)@.len() as int].module@ == "todos"@,
{
    proof {
        lemma_methods_differ();
    }
    push(v, get("todos", "/api/todos",
        "List todos."));
    push(v, post("todos", "/api/todos",
        "Add a todo."));
    push(v, get("todos", "/api/todos/{id}",
        "Todo detail."));
    push(v, patch("todos", "/api/todos/{id}",
        "Update a todo."));
    push(v, delete("todos", "/api/todos/{id}",
        "Delete a todo."));
    push(v, patch("todos", "/api/todos/{id}/done",
        "Toggle done."));
    assert(v@ =~= old(v)@ + table_todos());
}

/// The entries [`add_goals`] adds.
pub open spec fn table_goals() -> Seq<Endpoint> {
    seq![
        Endpoint { module: "goals", method: "GET", path: "/api/goals", desc: "List goals with progress.", has_body: false, compute: false },
        Endpoint { module: "goals", method: "POST", path: "/api/goals", desc: "Create a goal.", has_body: true, compute: false },
        Endpoint { module: "goals", method: "GET", path: "/api/goals/{id}", desc: "Goal detail.", has_body: false, compute: false },
        Endpoint { module: "goals", method: "PATCH", path: "/api/goals/{id}", desc: "Update a goal / progress.", has_body: true, compute: false },
        Endpoint { module: "goals", method: "DELETE", path: "/api/goals/{id}", desc: "Delete a goal.", has_body: false, compute: false },
        Endpoint { module: "goals", method: "POST", path: "/api/goals/{id}/position", desc: "Reorder a goal in the list.", has_body: true, compute: false },
    ]
}

fn add_goals(v: &mut Vec<Endpoint>)
    requires
        all_well_formed(old(v)@),
    ensures
        final(v)@ == old(v)@ + table_goals(),
        all_well_formed(final(v)@),
        final(v)@.len() > old(v)@.len(),
        forall|i: int| 0 <= i < old(v)@.len() ==> final(v)@[i] == old(v)@[i],
        final(v)@[old(v)@.len() as int].module@ == "goals"@,
{
    proof {
        lemma_methods_differ();
    }
    push(v, get("goals", "/api/goals",
        "List goals with progress."));
    push(v, post("goals", "/api/goals",
        "Create a goal."));
    push(v, get("goals", "/api/goals/{id}",
        "Goal detail."));
    push(v, patch("goals", "/api/goals/{id}",
        "Update a goal / progress."));
    push(v, delete("goals", "/api/goals/{id}",
        "Delete a goal."));
    push(v, post("goals", "/api/goals/{id}/position",
        "Reorder a goal in the list."));
    assert(v@ =~= old(v)@ + table_goals());
}

/// The entries [`add_remindme`] adds.
pub open spec fn table_remindme() -> Seq<Endpoint> {
    seq![
        Endpoint { module: "remindme", method: "GET", path: "/api/reminders", desc: "List reminders.", has_body: false, compute: false },
        Endpoint { module: "remindme", method: "POST", path: "/api/reminders", desc: "Create a reminder (one-shot or recurring).", has_body: true, compute: false },
        Endpoint { module: "remindme", method: "GET", path: "/api/reminders/{id}", desc: "Reminder detail.", has_body: false, compute: false },
        Endpoint { module: "remindme", method: "PATCH", path: "/api/reminders/{id}", desc: "Update a reminder.", has_body: true, compute: false },
        Endpoint { module: "remindme", method: "DELETE", path: "/api/reminders/{id}", desc: "Delete a reminder.", has_body: false, compute: false },
        Endpoint { module: "remindme", method: "GET", path: "/api/notifications", desc: "In-app notifications.", has_body: false, compute: false },
        Endpoint { module: "remindme", method: "GET", path: "/api/notifications/unread", desc: "Unread count.", has_body: false, compute: false },
        Endpoint { module: "remindme", method: "POST", path: "/api/notifications/ack-all", desc: "Mark all read.", has_body: false, compute: false },
        Endpoint { module: "remindme", method: "POST", path: "/api/notifications/{id}/read", desc: "Mark one read.", has_body: false, compute: false },
        Endpoint { module: "remindme", method: "DELETE", path: "/api/notifications/{id}", desc: "Delete one notification.", has_body: false, compute: false },
    ]
}

fn add_remindme(v: &mut Vec<Endpoint>)
    requires
        all_well_formed(old(v)@),
    ensures
        final(v)@ == old(v)@ + table_remindme(),
        all_well_formed(final(v)@),
        final(v)@.len() > old(v)@.len(),
        forall|i: int| 0 <= i < old(v)@.len() ==> final(v)@[i] == old(v)@[i],
        final(v)@[old(v)@.len() as int].module@ == "remindme"@,
{
    proof {
        lemma_methods_differ();
    }
    push(v, get("remindme", "/api/reminders",
        "List reminders."));
    push(v, post("remindme", "/api/reminders",
        "Create a reminder (one-shot or recurring)."));
    push(v, get("remindme", "/api/reminders/{id}",
        "Reminder detail."));
    push(v, patch("remindme", "/api/reminders/{id}",
        "Update a reminder."));
    push(v, delete("remindme", "/api/reminders/{id}",
        "Delete a reminder."));
    push(v, get("remindme", "/api/notifications",
        "In-app notifications."));
    push(v, get("remindme", "/api/notifications/unread",
        "Unread count."));
    push(v, post_empty("remindme", "/api/notifications/ack-all",
        "Mark all read."));
    push(v, post_empty("remindme", "/api/notifications/{id}/read",
        "Mark one read."));
    push(v, delete("remindme", "/api/notifications/{id}",
        "Delete one notification."));
    assert(v@ =~= old(v)@ + table_remindme());
}

/// The entries [`add_calendar`] adds.
pub open spec fn table_calendar() -> Seq<Endpoint> {
    seq![
        Endpoint { module: "calendar", method: "GET", path: "/api/calendar/events", desc: "List events. Query: from, to.", has_body: false, compute: false },
        Endpoint { module: "calendar", method: "POST", path: "/api/calendar/events", desc: "Create an event.", has_body: true, compute: false },
        Endpoint { module: "calendar", method: "GET", path: "/api/calendar/events/{id}", desc: "Event detail.", has_body: false, compute: false },
        Endpoint { module: "calendar", method: "PATCH", path: "/api/calendar/events/{id}", desc: "Update an event.", has_body: true, compute: false },
        Endpoint { module: "calendar", method: "DELETE", path: "/api/calendar/events/{id}", desc: "Delete an event.", has_body: false, compute: false },
    ]
}

fn add_calendar(v: &mut Vec<Endpoint>)
    requires
        all_well_formed(old(v)@),
    ensures
        final(v)@ == old(v)@ + table_calendar(),
        all_well_formed(final(v)@),
        final(v)@.len() > old(v)@.len(),
        forall|i: int| 0 <= i < old(v)@.len() ==> final(v)@[i] == old(v)@[i],
        final(v)@[old(v)@.len() as int].module@ == "calendar"@,
{
    proof {
        lemma_methods_differ();
    }
    push(v, get("calendar", "/api/calendar/events",
        "List events. Query: from, to."));
    push(v, post("calendar", "/api/calendar/events",
        "Create an event."));
    push(v, get("calendar", "/api/calendar/events/{id}",
        "Event detail."));
    push(v, patch("calendar", "/api/calendar/events/{id}",
        "Update an event."));
    push(v, delete("calendar", "/api/calendar/events/{id}",
        "Delete an event."));
    assert(v@ =~= old(v)@ + table_calendar());
}

/// The entries [`add_time_1`] adds.
pub open spec fn table_time_1() -> Seq<Endpoint> {
    seq![
        Endpoint { module: "time", method: "GET", path: "/api/time/projects", desc: "List time-tracking projects.", has_body: false, compute: false },
        Endpoint { module: "time", method: "POST", path: "/api/time/projects", desc: "Create a project.", has_body: true, compute: false },
        Endpoint { module: "time", method: "GET", path: "/api/time/projects/{id}", desc: "Project detail.", has_body: false, compute: false },
        Endpoint { module: "time", method: "PATCH", path: "/api/time/projects/{id}", desc: "Update a project.", has_body: true, compute: false },
        Endpoint { module: "time", method: "DELETE", path: "/api/time/projects/{id}", desc: "Delete a project.", has_body: false, compute: false },
        Endpoint { module: "time", method: "POST", path: "/api/time/projects/{id}/start", desc: "Start the timer on a project.", has_body: false, compute: false },
        Endpoint { module: "time", method: "POST", path: "/api/time/projects/{id}/stop", desc: "Stop the timer.", has_body: false, compute: false },
        Endpoint { module: "time", method: "GET", path: "/api/time/projects/{id}/entries", desc: "List entries for a project.", has_body: false, compute: false },
        Endpoint { module: "time", method: "POST", path: "/api/time/projects/{id}/entries", desc: "Add a manual entry.", has_body: true, compute: false },
        Endpoint { module: "time", method: "DELETE", path: "/api/time/entries/{id}", desc: "Delete an entry.", has_body: false, compute: false },
        Endpoint { module: "time", method: "POST", path: "/api/time/projects/{id}/position", desc: "Reorder a project.", has_body: true, compute: false },
        Endpoint { module: "time", method: "POST", path: "/api/time/heartbeat", desc: "Keep the running timer alive (the UI beats while the tab is open).", has_body: false, compute: false },
        Endpoint { module: "time", method: "POST", path: "/api/time/revert", desc: "Undo the last start/stop.", has_body: false, compute: false },
        Endpoint { module: "time", method: "PATCH", path: "/api/time/settings", desc: "Update time-tracker settings (hourly cost, rounding…).", has_body: true, compute: false },
    ]
}

fn add_time_1(v: &mut Vec<Endpoint>)
    requires
        all_well_formed(old(v)@),
    ensures
        final(v)@ == old(v)@ + table_time_1(),
        all_well_formed(final(v)@),
        final(v)@.len() > old(v)@.len(),
        forall|i: int| 0 <= i < old(v)@.len() ==> final(v)@[i] == old(v)@[i],
        final(v)@[old(v)@.len() as int].module@ == "time"@,
{
    proof {
        lemma_methods_differ();
    }
    push(v, get("time", "/api/time/projects",
        "List time-tracking projects."));
    push(v, post("time", "/api/time/projects",
        "Create a project."));
    push(v, get("time", "/api/time/projects/{id}",
        "Project detail."));
    push(v, patch("time", "/api/time/projects/{id}",
        "Update a project."));
    push(v, delete("time", "/api/time/projects/{id}",
        "Delete a project."));
    push(v, post_empty("time", "/api/time/projects/{id}/start",
        "Start the timer on a project."));
    push(v, post_empty("time", "/api/time/projects/{id}/stop",
        "Stop the timer."));
    push(v, get("time", "/api/time/projects/{id}/entries",
        "List entries for a project."));
    push(v, post("time", "/api/time/projects/{id}/entries",
        "Add a manual entry."));
    push(v, delete("time", "/api/time/entries/{id}",
        "Delete an entry."));
    push(v, post("time", "/api/time/projects/{id}/position",
        "Reorder a project."));
    push(v, post_empty("time", "/api/time/heartbeat",
        "Keep the running timer alive (the UI beats while the tab is open)."));
    push(v, post_empty("time", "/api/time/revert",
        "Undo the last start/stop."));
    push(v, patch("time", "/api/time/settings",
        "Update time-tracker settings (hourly cost, rounding…)."));
    assert(v@ =~= old(v)@ + table_time_1());
}

/// The entries [`add_time_2`] adds.
pub open spec fn table_time_2() -> Seq<Endpoint> {
    seq![
        Endpoint { module: "time", method: "GET", path: "/api/time/state", desc: "Current running timer, if any.", has_body: false, compute: false },
        Endpoint { module: "time", method: "GET", path: "/api/time/breakdown", desc: "Tracked-time breakdown.", has_body: false, compute: false },
    ]
}

fn add_time_2(v: &mut Vec<Endpoint>)
    requires
        all_well_formed(old(v)@),
    ensures
        final(v)@ == old(v)@ + table_time_2(),
        all_well_formed(final(v)@),
        final(v)@.len() > old(v)@.len(),
        forall|i: int| 0 <= i < old(v)@.len() ==> final(v)@[i] == old(v)@[i],
{
    proof {
        lemma_methods_differ();
    }
    push(v, get("time", "/api/time/state",
        "Current running timer, if any."));
    push(v, get("time", "/api/time/breakdown",
        "Tracked-time breakdown."));
    assert(v@ =~= old(v)@ + table_time_2());
}

/// The entries [`add_routines_1`] adds.
pub open spec fn table_routines_1() -> Seq<Endpoint> {
    seq![
        Endpoint { module: "routines", method: "GET", path: "/api/trader/board", desc: "Today's trader board: routines + tasks with check state.", has_body: false, compute: false },
        Endpoint { module: "routines", method: "GET", path: "/api/trader/routines", desc: "List routine templates with their checklist items.", has_body: false, compute: false },
        Endpoint { module: "routines", method: "GET", path: "/api/trader/categories", desc: "List routine categories.", has_body: false, compute: false },
        Endpoint { module: "routines", method: "POST", path: "/api/trader/routines", desc: "Create a routine template.", has_body: true, compute: false },
        Endpoint { module: "routines", method: "GET", path: "/api/trader/routines/{id}", desc: "One routine template with its items and schedule.", has_body: false, compute: false },
        Endpoint { module: "routines", method: "PATCH", path: "/api/trader/routines/{id}", desc: "Update a routine. `items` is a full replacement list when present; existing items keep their id so past checks stay attached.", has_body: true, compute: false },
        Endpoint { module: "routines", method: "DELETE", path: "/api/trader/routines/{id}", desc: "Delete a routine and its items.", has_body: false, compute: false },
        Endpoint { module: "routines", method: "POST", path: "/api/trader/routines/{id}/duplicate", desc: "Copy a routine (optionally under a new name).", has_body: true, compute: false },
        Endpoint { module: "routines", method: "POST", path: "/api/trader/routines/reorder", desc: "Reorder the routine list.", has_body: true, compute: false },
        Endpoint { module: "routines", method: "POST", path: "/api/trader/categories", desc: "Create a routine category.", has_body: true, compute: false },
        Endpoint { module: "routines", method: "PATCH", path: "/api/trader/categories/{id}", desc: "Update a category.", has_body: true, compute: false },
        Endpoint { module: "routines", method: "DELETE", path: "/api/trader/categories/{id}", desc: "Delete a category (its routines stay, uncategorized).", has_body: false, compute: false },
        Endpoint { module: "routines", method: "POST", path: "/api/trader/items/{id}/check", desc: "Check/uncheck a routine item today.", has_body: true, compute: false },
        Endpoint { module: "routines", method: "GET", path: "/api/trader/marks", desc: "Consistency day marks. Query: from, to.", has_body: false, compute: false },
    ]
}

fn add_routines_1(v: &mut Vec<Endpoint>)
    requires
        all_well_formed(old(v)@),
    ensures
        final(v)@ == old(v)@ + table_routines_1(),
        all_well_formed(final(v)@),
        final(v)@.len() > old(v)@.len(),
        forall|i: int| 0 <= i < old(v)@.len() ==> final(v)@[i] == old(v)@[i],
        final(v)@[old(v)@.len() as int].module@ == "routines"@,
{
    proof {
        lemma_methods_differ();
    }
    push(v, get("routines", "/api/trader/board",
        "Today's trader board: routines + tasks with check state."));
    push(v, get("routines", "/api/trader/routines",
        "List routine templates with their checklist items."));
    push(v, get("routines", "/api/trader/categories",
        "List routine categories."));
    push(v, post("routines", "/api/trader/routines",
        "Create a routine template."));
    push(v, get("routines", "/api/trader/routines/{id}",
        "One routine template with its items and schedule."));
    push(v, patch("routines", "/api/trader/routines/{id}",
        "Update a routine. `items` is a full replacement list when present; existing items keep their id so past checks stay attached."));
    push(v, delete("routines", "/api/trader/routines/{id}",
        "Delete a routine and its items."));
    push(v, post("routines", "/api/trader/routines/{id}/duplicate",
        "Copy a routine (optionally under a new name)."));
    push(v, post("routines", "/api/trader/routines/reorder",
        "Reorder the routine list."));
    push(v, post("routines", "/api/trader/categories",
        "Create a routine category."));
    push(v, patch("routines", "/api/trader/categories/{id}",
        "Update a category."));
    push(v, delete("routines", "/api/trader/categories/{id}",
        "Delete a category (its routines stay, uncategorized)."));
    push(v, post("routines", "/api/trader/items/{id}/check",
        "Check/uncheck a routine item today."));
    push(v, get("routines", "/api/trader/marks",
        "Consistency day marks. Query: from, to."));
    assert(v@ =~= old(v)@ + table_routines_1());
}

/// The entries [`add_routines_2`] adds.
pub open spec fn table_routines_2() -> Seq<Endpoint> {
    seq![
        Endpoint { module: "routines", method: "PUT", path: "/api/trader/marks", desc: "Mark a day full|action, or null to clear.", has_body: true, compute: false },
        Endpoint { module: "routines", method: "POST", path: "/api/trader/tasks", desc: "Add a one-off task.", has_body: true, compute: false },
        Endpoint { module: "routines", method: "PATCH", path: "/api/trader/tasks/{id}", desc: "Update a task.", has_body: true, compute: false },
        Endpoint { module: "routines", method: "DELETE", path: "/api/trader/tasks/{id}", desc: "Delete a task.", has_body: false, compute: false },
    ]
}

fn add_routines_2(v: &mut Vec<Endpoint>)
    requires
        all_well_formed(old(v)@),
    ensures
        final(v)@ == old(v)@ + table_routines_2(),
        all_well_formed(final(v)@),
        final(v)@.len() > old(v)@.len(),
        forall|i: int| 0 <= i < old(v)@.len() ==> final(v)@[i] == old(v)@[i],
{
    proof {
        lemma_methods_differ();
    }
    push(v, put("routines", "/api/trader/marks",
        "Mark a day full|action, or null to clear."));
    push(v, post("routines", "/api/trader/tasks",
        "Add a one-off task."));
    push(v, patch("routines", "/api/trader/tasks/{id}",
        "Update a task."));
    push(v, delete("routines", "/api/trader/tasks/{id}",
        "Delete a task."));
    assert(v@ =~= old(v)@ + table_routines_2());
}

/// The entries [`add_mindset_1`] adds.
pub open spec fn table_mindset_1() -> Seq<Endpoint> {
    seq![
        Endpoint { module: "mindset", method: "GET", path: "/api/mindset/day", desc: "Today's check-in templates, prompts + entries. Query: date.", has_body: false, compute: false },
        Endpoint { module: "mindset", method: "PUT", path: "/api/mindset/entries", desc: "Save a check-in for a template/date.", has_body: true, compute: false },
        Endpoint { module: "mindset", method: "GET", path: "/api/mindset/history", desc: "Past entries.", has_body: false, compute: false },
        Endpoint { module: "mindset", method: "GET", path: "/api/mindset/marks", desc: "Consistency day marks. Query: from, to.", has_body: false, compute: false },
        Endpoint { module: "mindset", method: "PUT", path: "/api/mindset/marks", desc: "Mark a day full|action, or null to clear.", has_body: true, compute: false },
        Endpoint { module: "mindset", method: "DELETE", path: "/api/mindset/entries", desc: "Delete a saved check-in. Body names the target: date, plus template_id or phase.", has_body: true, compute: false },
        Endpoint { module: "mindset", method: "GET", path: "/api/mindset/templates", desc: "List check-in templates with their prompts.", has_body: false, compute: false },
        Endpoint { module: "mindset", method: "POST", path: "/api/mindset/templates", desc: "Create a check-in template.", has_body: true, compute: false },
        Endpoint { module: "mindset", method: "DELETE", path: "/api/mindset/templates", desc: "Delete EVERY template (and with them their prompts). Destructive: confirm with the user first.", has_body: false, compute: false },
        Endpoint { module: "mindset", method: "POST", path: "/api/mindset/templates/reset", desc: "Restore the built-in starter templates.", has_body: false, compute: false },
        Endpoint { module: "mindset", method: "GET", path: "/api/mindset/templates/{id}", desc: "One template with its prompts.", has_body: false, compute: false },
        Endpoint { module: "mindset", method: "PATCH", path: "/api/mindset/templates/{id}", desc: "Update a template. `prompts` is a full replacement list when present; entries keep their id so past answers stay attached.", has_body: true, compute: false },
        Endpoint { module: "mindset", method: "DELETE", path: "/api/mindset/templates/{id}", desc: "Delete one template.", has_body: false, compute: false },
        Endpoint { module: "mindset", method: "POST", path: "/api/mindset/templates/{id}/duplicate", desc: "Copy a template (optionally under a new name).", has_body: true, compute: false },
    ]
}

fn add_mindset_1(v: &mut Vec<Endpoint>)
    requires
        all_well_formed(old(v)@),
    ensures
        final(v)@ == old(v)@ + table_mindset_1(),
        all_well_formed(final(v)@),
        final(v)@.len() > old(v)@.len(),
        forall|i: int| 0 <= i < old(v)@.len() ==> final(v)@[i] == old(v)@[i],
        final(v)@[old(v)@.len() as int].module@ == "mindset"@,
{
    proof {
        lemma_methods_differ();
    }
    push(v, get("mindset", "/api/mindset/day",
        "Today's check-in templates, prompts + entries. Query: date."));
    push(v, put("mindset", "/api/mindset/entries",
        "Save a check-in for a template/date."));
    push(v, get("mindset", "/api/mindset/history",
        "Past entries."));
    push(v, get("mindset", "/api/mindset/marks",
        "Consistency day marks. Query: from, to."));
    push(v, put("mindset", "/api/mindset/marks",
        "Mark a day full|action, or null to clear."));
    push(v, delete_body("mindset", "/api/mindset/entries",
        "Delete a saved check-in. Body names the target: date, plus template_id or phase."));
    push(v, get("mindset", "/api/mindset/templates",
        "List check-in templates with their prompts."));
    push(v, post("mindset", "/api/mindset/templates",
        "Create a check-in template."));
    push(v, delete("mindset", "/api/mindset/templates",
        "Delete EVERY template (and with them their prompts). Destructive: confirm with the user first."));
    push(v, post_empty("mindset", "/api/mindset/templates/reset",
        "Restore the built-in starter templates."));
    push(v, get("mindset", "/api/mindset/templates/{id}",
        "One template with its prompts."));
    push(v, patch("mindset", "/api/mindset/templates/{id}",
        "Update a template. `prompts` is a full replacement list when present; entries keep their id so past answers stay attached."));
    push(v, delete("mindset", "/api/mindset/templates/{id}",
        "Delete one template."));
    push(v, post("mindset", "/api/mindset/templates/{id}/duplicate",
        "Copy a template (optionally under a new name)."));
    assert(v@ =~= old(v)@ + table_mindset_1());
}

/// The entries [`add_mindset_2`] adds.
pub open spec fn table_mindset_2() -> Seq<Endpoint> {
    seq![
        Endpoint { module: "mindset", method: "GET", path: "/api/mindset/categories", desc: "List check-in categories.", has_body: false, compute: false },
        Endpoint { module: "mindset", method: "POST", path: "/api/mindset/categories", desc: "Create a check-in category.", has_body: true, compute: false },
        Endpoint { module: "mindset", method: "PATCH", path: "/api/mindset/categories/{id}", desc: "Update a category.", has_body: true, compute: false },
        Endpoint { module: "mindset", method: "DELETE", path: "/api/mindset/categories/{id}", desc: "Delete a category (its templates stay, uncategorized).", has_body: false, compute: false },
        Endpoint { module: "mindset", method: "GET", path: "/api/mindset/prompts", desc: "List prompts.", has_body: false, compute: false },
        Endpoint { module: "mindset", method: "POST", path: "/api/mindset/prompts", desc: "Add a prompt.", has_body: true, compute: false },
        Endpoint { module: "mindset", method: "PATCH", path: "/api/mindset/prompts/{id}", desc: "Update a prompt.", has_body: true, compute: false },
        Endpoint { module: "mindset", method: "DELETE", path: "/api/mindset/prompts/{id}", desc: "Delete a prompt.", has_body: false, compute: false },
    ]
}

fn add_mindset_2(v: &mut Vec<Endpoint>)
    requires
        all_well_formed(old(v)@),
    ensures
        final(v)@ == old(v)@ + table_mindset_2(),
        all_well_formed(final(v)@),
        final(v)@.len() > old(v)@.len(),
        forall|i: int| 0 <= i < old(v)@.len() ==> final(v)@[i] == old(v)@[i],
{
    proof {
        lemma_methods_differ();
    }
    push(v, get("mindset", "/api/mindset/categories",
        "List check-in categories."));
    push(v, post("mindset", "/api/mindset/categories",
        "Create a check-in category."));
    push(v, patch("mindset", "/api/mindset/categories/{id}",
        "Update a category."));
    push(v, delete("mindset", "/api/mindset/categories/{id}",
        "Delete a category (its templates stay, uncategorized)."));
    push(v, get("mindset", "/api/mindset/prompts",
        "List prompts."));
    push(v, post("mindset", "/api/mindset/prompts",
        "Add a prompt."));
    push(v, patch("mindset", "/api/mindset/prompts/{id}",
        "Update a prompt."));
    push(v, delete("mindset", "/api/mindset/prompts/{id}",
        "Delete a prompt."));
    assert(v@ =~= old(v)@ + table_mindset_2());
}

/// The entries [`add_news_1`] adds.
pub open spec fn table_news_1() -> Seq<Endpoint> {
    seq![
        Endpoint { module: "news", method: "GET", path: "/api/feeds", desc: "List configured feeds.", has_body: false, compute: false },
        Endpoint { module: "news", method: "POST", path: "/api/feeds", desc: "Add a feed.", has_body: true, compute: false },
        Endpoint { module: "news", method: "GET", path: "/api/feeds/{id}", desc: "Feed detail.", has_body: false, compute: false },
        Endpoint { module: "news", method: "PATCH", path: "/api/feeds/{id}", desc: "Update a feed.", has_body: true, compute: false },
        Endpoint { module: "news", method: "DELETE", path: "/api/feeds/{id}", desc: "Delete a feed.", has_body: false, compute: false },
        Endpoint { module: "news", method: "POST", path: "/api/feeds/{id}/refresh", desc: "Poll one feed now.", has_body: false, compute: false },
        Endpoint { module: "news", method: "POST", path: "/api/feeds/refresh-all", desc: "Poll all feeds now.", has_body: false, compute: false },
        Endpoint { module: "news", method: "GET", path: "/api/feed-items", desc: "Aggregated items. Query: feed_id, search, limit, offset.", has_body: false, compute: false },
        Endpoint { module: "news", method: "GET", path: "/api/feed-sources", desc: "Known source templates.", has_body: false, compute: false },
        Endpoint { module: "news", method: "GET", path: "/api/feeds/quotas", desc: "Per-feed request quota usage.", has_body: false, compute: false },
        Endpoint { module: "news", method: "GET", path: "/api/feed-dashboards", desc: "List feed dashboards (named subsets of the feeds, one of them the default).", has_body: false, compute: false },
        Endpoint { module: "news", method: "POST", path: "/api/feed-dashboards", desc: "Create a dashboard.", has_body: true, compute: false },
        Endpoint { module: "news", method: "GET", path: "/api/feed-dashboards/{id}", desc: "One dashboard with its items.", has_body: false, compute: false },
        Endpoint { module: "news", method: "PATCH", path: "/api/feed-dashboards/{id}", desc: "Update a dashboard (name, favorite, position, started).", has_body: true, compute: false },
    ]
}

fn add_news_1(v: &mut Vec<Endpoint>)
    requires
        all_well_formed(old(v)@),
    ensures
        final(v)@ == old(v)@ + table_news_1(),
        all_well_formed(final(v)@),
        final(v)@.len() > old(v)@.len(),
        forall|i: int| 0 <= i < old(v)@.len() ==> final(v)@[i] == old(v)@[i],
        final(v)@[old(v)@.len() as int].module@ == "news"@,
{
    proof {
        lemma_methods_differ();
    }
    push(v, get("news", "/api/feeds",
        "List configured feeds."));
    push(v, post("news", "/api/feeds",
        "Add a feed."));
    push(v, get("news", "/api/feeds/{id}",
        "Feed detail."));
    push(v, patch("news", "/api/feeds/{id}",
        "Update a feed."));
    push(v, delete("news", "/api/feeds/{id}",
        "Delete a feed."));
    push(v, post_empty("news", "/api/feeds/{id}/refresh",
        "Poll one feed now."));
    push(v, post_empty("news", "/api/feeds/refresh-all",
        "Poll all feeds now."));
    push(v, get("news", "/api/feed-items",
        "Aggregated items. Query: feed_id, search, limit, offset."));
    push(v, get("news", "/api/feed-sources",
        "Known source templates."));
    push(v, get("news", "/api/feeds/quotas",
        "Per-feed request quota usage."));
    push(v, get("news", "/api/feed-dashboards",
        "List feed dashboards (named subsets of the feeds, one of them the default)."));
    push(v, post("news", "/api/feed-dashboards",
        "Create a dashboard."));
    push(v, get("news", "/api/feed-dashboards/{id}",
        "One dashboard with its items."));
    push(v, patch("news", "/api/feed-dashboards/{id}",
        "Update a dashboard (name, favorite, position, started)."));
    assert(v@ =~= old(v)@ + table_news_1());
}

/// The entries [`add_news_2`] adds.
pub open spec fn table_news_2() -> Seq<Endpoint> {
    seq![
        Endpoint { module: "news", method: "DELETE", path: "/api/feed-dashboards/{id}", desc: "Delete a dashboard (its feeds stay).", has_body: false, compute: false },
        Endpoint { module: "news", method: "POST", path: "/api/feed-dashboards/{id}/default", desc: "Make it the dashboard the module opens on.", has_body: false, compute: false },
        Endpoint { module: "news", method: "POST", path: "/api/feed-dashboards/{id}/refresh", desc: "Poll every feed of this dashboard now.", has_body: false, compute: false },
        Endpoint { module: "news", method: "GET", path: "/api/feed-dashboards/{id}/sources", desc: "Feeds on this dashboard.", has_body: false, compute: false },
        Endpoint { module: "news", method: "POST", path: "/api/feed-dashboards/{id}/sources", desc: "Add a feed to the dashboard.", has_body: true, compute: false },
        Endpoint { module: "news", method: "DELETE", path: "/api/feed-dashboards/{id}/sources/{feed_id}", desc: "Remove a feed from the dashboard.", has_body: false, compute: false },
    ]
}

fn add_news_2(v: &mut Vec<Endpoint>)
    requires
        all_well_formed(old(v)@),
    ensures
        final(v)@ == old(v)@ + table_news_2(),
        all_well_formed(final(v)@),
        final(v)@.len() > old(v)@.len(),
        forall|i: int| 0 <= i < old(v)@.len() ==> final(v)@[i] == old(v)@[i],
{
    proof {
        lemma_methods_differ();
    }
    push(v, delete("news", "/api/feed-dashboards/{id}",
        "Delete a dashboard (its feeds stay)."));
    push(v, post_empty("news", "/api/feed-dashboards/{id}/default",
        "Make it the dashboard the module opens on."));
    push(v, post_empty("news", "/api/feed-dashboards/{id}/refresh",
        "Poll every feed of this dashboard now."));
    push(v, get("news", "/api/feed-dashboards/{id}/sources",
        "Feeds on this dashboard."));
    push(v, post("news", "/api/feed-dashboards/{id}/sources",
        "Add a feed to the dashboard."));
    push(v, delete("news", "/api/feed-dashboards/{id}/sources/{feed_id}",
        "Remove a feed from the dashboard."));
    assert(v@ =~= old(v)@ + table_news_2());
}

/// The entries [`add_resources`] adds.
pub open spec fn table_resources() -> Seq<Endpoint> {
    seq![
        Endpoint { module: "resources", method: "GET", path: "/api/resources", desc: "List saved resources (links/notes).", has_body: false, compute: false },
        Endpoint { module: "resources", method: "POST", path: "/api/resources", desc: "Add a resource.", has_body: true, compute: false },
        Endpoint { module: "resources", method: "PATCH", path: "/api/resources/{id}", desc: "Update a resource.", has_body: true, compute: false },
        Endpoint { module: "resources", method: "DELETE", path: "/api/resources/{id}", desc: "Delete a resource.", has_body: false, compute: false },
        Endpoint { module: "resources", method: "GET", path: "/api/resources/categories", desc: "List resource categories.", has_body: false, compute: false },
        Endpoint { module: "resources", method: "POST", path: "/api/resources/categories", desc: "Add a category.", has_body: true, compute: false },
        Endpoint { module: "resources", method: "PATCH", path: "/api/resources/categories/{id}", desc: "Update a category.", has_body: true, compute: false },
        Endpoint { module: "resources", method: "DELETE", path: "/api/resources/categories/{id}", desc: "Delete a category.", has_body: false, compute: false },
    ]
}

fn add_resources(v: &mut Vec<Endpoint>)
    requires
        all_well_formed(old(v)@),
    ensures
        final(v)@ == old(v)@ + table_resources(),
        all_well_formed(final(v)@),
        final(v)@.len() > old(v)@.len(),
        forall|i: int| 0 <= i < old(v)@.len() ==> final(v)@[i] == old(v)@[i],
        final(v)@[old(v)@.len() as int].module@ == "resources"@,
{
    proof {
        lemma_methods_differ();
    }
    push(v, get("resources", "/api/resources",
        "List saved resources (links/notes)."));
    push(v, post("resources", "/api/resources",
        "Add a resource."));
    push(v, patch("resources", "/api/resources/{id}",
        "Update a resource."));
    push(v, delete("resources", "/api/resources/{id}",
        "Delete a resource."));
    push(v, get("resources", "/api/resources/categories",
        "List resource categories."));
    push(v, post("resources", "/api/resources/categories",
        "Add a category."));
    push(v, patch("resources", "/api/resources/categories/{id}",
        "Update a category."));
    push(v, delete("resources", "/api/resources/categories/{id}",
        "Delete a category."));
    assert(v@ =~= old(v)@ + table_resources());
}

/// The entries [`add_prompt_store`] adds.
pub open spec fn table_prompt_store() -> Seq<Endpoint> {
    seq![
        Endpoint { module: "prompt-store", method: "GET", path: "/api/prompts", desc: "List saved prompts (name, body, tags).", has_body: false, compute: false },
        Endpoint { module: "prompt-store", method: "POST", path: "/api/prompts", desc: "Create a prompt.", has_body: true, compute: false },
        Endpoint { module: "prompt-store", method: "GET", path: "/api/prompts/{id}", desc: "Get one prompt.", has_body: false, compute: false },
        Endpoint { module: "prompt-store", method: "PATCH", path: "/api/prompts/{id}", desc: "Edit a prompt. Every save appends a version; nothing is overwritten in place.", has_body: true, compute: false },
        Endpoint { module: "prompt-store", method: "DELETE", path: "/api/prompts/{id}", desc: "Delete a prompt and its version history.", has_body: false, compute: false },
        Endpoint { module: "prompt-store", method: "GET", path: "/api/prompts/tags", desc: "Every tag in use, for filtering.", has_body: false, compute: false },
        Endpoint { module: "prompt-store", method: "GET", path: "/api/prompts/{id}/versions", desc: "Version history of a prompt, newest first.", has_body: false, compute: false },
        Endpoint { module: "prompt-store", method: "POST", path: "/api/prompts/{id}/rollback", desc: "Restore an old version. It is appended as a new version, so the history stays append-only.", has_body: true, compute: false },
        Endpoint { module: "prompt-store", method: "POST", path: "/api/prompts/{id}/duplicate", desc: "Copy a prompt.", has_body: false, compute: false },
        Endpoint { module: "prompt-store", method: "PATCH", path: "/api/prompts/{id}/vote", desc: "Set the thumbs up/down flag the quick filter reads.", has_body: true, compute: false },
    ]
}

fn add_prompt_store(v: &mut Vec<Endpoint>)
    requires
        all_well_formed(old(v)@),
    ensures
        final(v)@ == old(v)@ + table_prompt_store(),
        all_well_formed(final(v)@),
        final(v)@.len() > old(v)@.len(),
        forall|i: int| 0 <= i < old(v)@.len() ==> final(v)@[i] == old(v)@[i],
        final(v)@[old(v)@.len() as int].module@ == "prompt-store"@,
{
    proof {
        lemma_methods_differ();
    }
    push(v, get("prompt-store", "/api/prompts",
        "List saved prompts (name, body, tags)."));
    push(v, post("prompt-store", "/api/prompts",
        "Create a prompt."));
    push(v, get("prompt-store", "/api/prompts/{id}",
        "Get one prompt."));
    push(v, patch("prompt-store", "/api/prompts/{id}",
        "Edit a prompt. Every save appends a version; nothing is overwritten in place."));
    push(v, delete("prompt-store", "/api/prompts/{id}",
        "Delete a prompt and its version history."));
    push(v, get("prompt-store", "/api/prompts/tags",
        "Every tag in use, for filtering."));
    push(v, get("prompt-store", "/api/prompts/{id}/versions",
        "Version history of a prompt, newest first."));
    push(v, post("prompt-store", "/api/prompts/{id}/rollback",
        "Restore an old version. It is appended as a new version, so the history stays append-only."));
    push(v, post_empty("prompt-store", "/api/prompts/{id}/duplicate",
        "Copy a prompt."));
    push(v, patch("prompt-store", "/api/prompts/{id}/vote",
        "Set the thumbs up/down flag the quick filter reads."));
    assert(v@ =~= old(v)@ + table_prompt_store());
}

/// The entries [`add_mailbox`] adds.
pub open spec fn table_mailbox() -> Seq<Endpoint> {
    seq![
        Endpoint { module: "mailbox", method: "GET", path: "/api/mailbox/senders", desc: "List mail senders with category, status and unread counts.", has_body: false, compute: false },
        Endpoint { module: "mailbox", method: "GET", path: "/api/mailbox/messages", desc: "List stored mail. Query: sender_id, account_id, category, q, unread, starred, archived, limit, offset.", has_body: false, compute: false },
        Endpoint { module: "mailbox", method: "GET", path: "/api/mailbox/messages/{id}", desc: "Read one message (sanitised body + attachment list).", has_body: false, compute: false },
        Endpoint { module: "mailbox", method: "PATCH", path: "/api/mailbox/senders/{id}", desc: "Rename, re-categorize, mute or unmute a sender. Deleting one is not exposed: the messages cascade with it.", has_body: true, compute: false },
        Endpoint { module: "mailbox", method: "PATCH", path: "/api/mailbox/messages/{id}", desc: "Set read / starred / archived on one message. Local state only: no IMAP flag is ever written (the connection is read-only).", has_body: true, compute: false },
        Endpoint { module: "mailbox", method: "DELETE", path: "/api/mailbox/messages/{id}", desc: "Delete a stored message locally (the mail stays on the server).", has_body: false, compute: false },
        Endpoint { module: "mailbox", method: "POST", path: "/api/mailbox/messages/read-all", desc: "Mark every stored message read, or just one sender's with sender_id.", has_body: true, compute: false },
        Endpoint { module: "mailbox", method: "POST", path: "/api/mailbox/messages/{id}/remind", desc: "Raise a reminder about this message at a given time.", has_body: true, compute: false },
        Endpoint { module: "mailbox", method: "GET", path: "/api/mailbox/links", desc: "List the curated newsletter store.", has_body: false, compute: false },
        Endpoint { module: "mailbox", method: "POST", path: "/api/mailbox/links", desc: "Add a newsletter to the store.", has_body: true, compute: false },
        Endpoint { module: "mailbox", method: "PATCH", path: "/api/mailbox/links/{id}", desc: "Edit a store entry.", has_body: true, compute: false },
        Endpoint { module: "mailbox", method: "DELETE", path: "/api/mailbox/links/{id}", desc: "Remove a store entry.", has_body: false, compute: false },
    ]
}

fn add_mailbox(v: &mut Vec<Endpoint>)
    requires
        all_well_formed(old(v)@),
    ensures
        final(v)@ == old(v)@ + table_mailbox(),
        all_well_formed(final(v)@),
        final(v)@.len() > old(v)@.len(),
        forall|i: int| 0 <= i < old(v)@.len() ==> final(v)@[i] == old(v)@[i],
        final(v)@[old(v)@.len() as int].module@ == "mailbox"@,
{
    proof {
        lemma_methods_differ();
    }
    push(v, get("mailbox", "/api/mailbox/senders",
        "List mail senders with category, status and unread counts."));
    push(v, get("mailbox", "/api/mailbox/messages",
        "List stored mail. Query: sender_id, account_id, category, q, unread, starred, archived, limit, offset."));
    push(v, get("mailbox", "/api/mailbox/messages/{id}",
        "Read one message (sanitised body + attachment list)."));
    push(v, patch("mailbox", "/api/mailbox/senders/{id}",
        "Rename, re-categorize, mute or unmute a sender. Deleting one is not exposed: the messages cascade with it."));
    push(v, patch("mailbox", "/api/mailbox/messages/{id}",
        "Set read / starred / archived on one message. Local state only: no IMAP flag is ever written (the connection is read-only)."));
    push(v, delete("mailbox", "/api/mailbox/messages/{id}",
        "Delete a stored message locally (the mail stays on the server)."));
    push(v, post("mailbox", "/api/mailbox/messages/read-all",
        "Mark every stored message read, or just one sender's with sender_id."));
    push(v, post("mailbox", "/api/mailbox/messages/{id}/remind",
        "Raise a reminder about this message at a given time."));
    push(v, get("mailbox", "/api/mailbox/links",
        "List the curated newsletter store."));
    push(v, post("mailbox", "/api/mailbox/links",
        "Add a newsletter to the store."));
    push(v, patch("mailbox", "/api/mailbox/links/{id}",
        "Edit a store entry."));
    push(v, delete("mailbox", "/api/mailbox/links/{id}",
        "Remove a store entry."));
    assert(v@ =~= old(v)@ + table_mailbox());
}

/// The entries [`add_automator`] adds.
pub open spec fn table_automator() -> Seq<Endpoint> {
    seq![
        Endpoint { module: "automator", method: "GET", path: "/api/automator/workflows", desc: "List workflows with their schedules and last run.", has_body: false, compute: false },
        Endpoint { module: "automator", method: "GET", path: "/api/automator/workflows/{id}", desc: "One workflow: its graph, its draft (an unadopted proposal), its schedules and recent runs. Read this before editing: the graph you save replaces the draft wholesale.", has_body: false, compute: false },
        Endpoint { module: "automator", method: "GET", path: "/api/automator/workflows/{id}/versions", desc: "Revision history of a workflow's graph.", has_body: false, compute: false },
        Endpoint { module: "automator", method: "POST", path: "/api/automator/workflows", desc: "Create an empty workflow, then fill it with PUT /api/automator/workflows/{id}.", has_body: true, compute: false },
        Endpoint { module: "automator", method: "PATCH", path: "/api/automator/workflows/{id}", desc: "Rename a workflow or edit its description, favorite, enabled flag and run limit. `mcp_token_id` is refused here: a workflow's access token is attached by its owner, in the editor.", has_body: true, compute: false },
        Endpoint { module: "automator", method: "PUT", path: "/api/automator/workflows/{id}", desc: "Save a graph as the workflow's DRAFT (it does not become the running graph: its owner adopts it from the editor). An invalid graph is refused with the reason, so fix and re-save. Read GET /api/automator/catalog first for the block kinds and the endpoints an `api` block may call. `repoint_schedules` and `draft` in the body are ignored here.", has_body: true, compute: false },
        Endpoint { module: "automator", method: "POST", path: "/api/automator/workflows/{id}/test", desc: "Test-run the workflow's draft (its graph if there is no draft) and return the whole trace, block by block. Notifications and external calls are forced off and an `api` block has no envelope, so nothing leaves the machine and nothing is written: this checks the topology, the expressions and the transforms. Refused on a workflow that already carries an access token, which its owner tests from its own page.", has_body: true, compute: true },
        Endpoint { module: "automator", method: "GET", path: "/api/automator/catalog", desc: "The block palette: the block kinds, the operations a `transform` and an `if` accept, and every app endpoint an `api` block may call. Read it before composing a graph.", has_body: false, compute: false },
        Endpoint { module: "automator", method: "GET", path: "/api/automator/catalog/schema", desc: "Request-body JSON Schema of ONE endpoint an `api` block would call. Query: method and path, both REQUIRED (e.g. method=POST&path=/api/reminders).", has_body: false, compute: false },
        Endpoint { module: "automator", method: "GET", path: "/api/automator/runs", desc: "Run history. Query: workflow_id, status, limit.", has_body: false, compute: false },
        Endpoint { module: "automator", method: "GET", path: "/api/automator/runs/{id}", desc: "One run with its per-block trace: request, output, status and timing.", has_body: false, compute: false },
    ]
}

fn add_automator(v: &mut Vec<Endpoint>)
    requires
        all_well_formed(old(v)@),
    ensures
        final(v)@ == old(v)@ + table_automator(),
        all_well_formed(final(v)@),
        final(v)@.len() > old(v)@.len(),
        forall|i: int| 0 <= i < old(v)@.len() ==> final(v)@[i] == old(v)@[i],
        final(v)@[old(v)@.len() as int].module@ == "automator"@,
{
    proof {
        lemma_methods_differ();
    }
    push(v, get("automator", "/api/automator/workflows",
        "List workflows with their schedules and last run."));
    push(v, get("automator", "/api/automator/workflows/{id}",
        "One workflow: its graph, its draft (an unadopted proposal), its schedules and recent runs. Read this before editing: the graph you save replaces the draft wholesale."));
    push(v, get("automator", "/api/automator/workflows/{id}/versions",
        "Revision history of a workflow's graph."));
    push(v, post("automator", "/api/automator/workflows",
        "Create an empty workflow, then fill it with PUT /api/automator/workflows/{id}."));
    push(v, patch("automator", "/api/automator/workflows/{id}",
        "Rename a workflow or edit its description, favorite, enabled flag and run limit. `mcp_token_id` is refused here: a workflow's access token is attached by its owner, in the editor."));
    push(v, put("automator", "/api/automator/workflows/{id}",
        "Save a graph as the workflow's DRAFT (it does not become the running graph: its owner adopts it from the editor). An invalid graph is refused with the reason, so fix and re-save. Read GET /api/automator/catalog first for the block kinds and the endpoints an `api` block may call. `repoint_schedules` and `draft` in the body are ignored here."));
    push(v, compute_post("automator", "/api/automator/workflows/{id}/test",
        "Test-run the workflow's draft (its graph if there is no draft) and return the whole trace, block by block. Notifications and external calls are forced off and an `api` block has no envelope, so nothing leaves the machine and nothing is written: this checks the topology, the expressions and the transforms. Refused on a workflow that already carries an access token, which its owner tests from its own page."));
    push(v, get("automator", "/api/automator/catalog",
        "The block palette: the block kinds, the operations a `transform` and an `if` accept, and every app endpoint an `api` block may call. Read it before composing a graph."));
    push(v, get("automator", "/api/automator/catalog/schema",
        "Request-body JSON Schema of ONE endpoint an `api` block would call. Query: method and path, both REQUIRED (e.g. method=POST&path=/api/reminders)."));
    push(v, get("automator", "/api/automator/runs",
        "Run history. Query: workflow_id, status, limit."));
    push(v, get("automator", "/api/automator/runs/{id}",
        "One run with its per-block trace: request, output, status and timing."));
    assert(v@ =~= old(v)@ + table_automator());
}

/// The entries [`add_search`] adds.
pub open spec fn table_search() -> Seq<Endpoint> {
    seq![
        Endpoint { module: "search", method: "GET", path: "/api/search", desc: "Title-level search across the modules that store text (documents, trades, notes, resources, prompts…). Query: q (REQUIRED), scopes (comma-separated, default all). Returns titles and ids, never bodies: read the hit through its own module endpoint. NOTE for whoever grants this: it does not check the token's other module keys, so it reads titles everywhere.", has_body: false, compute: false },
    ]
}

fn add_search(v: &mut Vec<Endpoint>)
    requires
        all_well_formed(old(v)@),
    ensures
        final(v)@ == old(v)@ + table_search(),
        all_well_formed(final(v)@),
        final(v)@.len() > old(v)@.len(),
        forall|i: int| 0 <= i < old(v)@.len() ==> final(v)@[i] == old(v)@[i],
        final(v)@[old(v)@.len() as int].module@ == "search"@,
{
    proof {
        lemma_methods_differ();
    }
    push(v, get("search", "/api/search",
        "Title-level search across the modules that store text (documents, trades, notes, resources, prompts…). Query: q (REQUIRED), scopes (comma-separated, default all). Returns titles and ids, never bodies: read the hit through its own module endpoint. NOTE for whoever grants this: it does not check the token's other module keys, so it reads titles everywhere."));
    assert(v@ =~= old(v)@ + table_search());
}

/// The entries [`add_community_docs`] adds.
pub open spec fn table_community_docs() -> Seq<Endpoint> {
    seq![
        Endpoint { module: "community-docs", method: "GET", path: "/api/community-docs", desc: "List community docs.", has_body: false, compute: false },
        Endpoint { module: "community-docs", method: "GET", path: "/api/community-docs/{slug}", desc: "Read one doc.", has_body: false, compute: false },
        Endpoint { module: "community-docs", method: "GET", path: "/api/community-docs/favorites", desc: "List favorites.", has_body: false, compute: false },
        Endpoint { module: "community-docs", method: "PUT", path: "/api/community-docs/{slug}/favorite", desc: "Set/unset favorite.", has_body: true, compute: false },
        Endpoint { module: "community-docs", method: "POST", path: "/api/community-docs/refresh", desc: "Refresh the catalog from the website.", has_body: false, compute: false },
    ]
}

fn add_community_docs(v: &mut Vec<Endpoint>)
    requires
        all_well_formed(old(v)@),
    ensures
        final(v)@ == old(v)@ + table_community_docs(),
        all_well_formed(final(v)@),
        final(v)@.len() > old(v)@.len(),
        forall|i: int| 0 <= i < old(v)@.len() ==> final(v)@[i] == old(v)@[i],
        final(v)@[old(v)@.len() as int].module@ == "community-docs"@,
{
    proof {
        lemma_methods_differ();
    }
    push(v, get("community-docs", "/api/community-docs",
        "List community docs."));
    push(v, get("community-docs", "/api/community-docs/{slug}",
        "Read one doc."));
    push(v, get("community-docs", "/api/community-docs/favorites",
        "List favorites."));
    push(v, put("community-docs", "/api/community-docs/{slug}/favorite",
        "Set/unset favorite."));
    push(v, post_empty("community-docs", "/api/community-docs/refresh",
        "Refresh the catalog from the website."));
    assert(v@ =~= old(v)@ + table_community_docs());
}


/// The allowlist, in the order it is searched.
/// The allowlist, entry by entry, in the order it is declared.
pub open spec fn catalog_table() -> Seq<Endpoint> {
    table_journal_1() + table_journal_2() + table_journal_3() + table_journal_4() + table_portfolios_1() + table_portfolios_2() + table_backtest_1() + table_backtest_2() + table_backtest_3() + table_quant() + table_histdata() + table_histviz_1() + table_histviz_2() + table_connectors() + table_findb() + table_watchlists_1() + table_watchlists_2() + table_mportfolios() + table_wealth_1() + table_wealth_2() + table_subscriptions() + table_taxcalc() + table_editor_1() + table_editor_2() + table_todos() + table_goals() + table_remindme() + table_calendar() + table_time_1() + table_time_2() + table_routines_1() + table_routines_2() + table_mindset_1() + table_mindset_2() + table_news_1() + table_news_2() + table_resources() + table_prompt_store() + table_mailbox() + table_automator() + table_search() + table_community_docs()
}

pub fn catalog() -> (v: Vec<Endpoint>)
    ensures
        v@ == catalog_table(),
        all_well_formed(v@),
        exists|i: int| 0 <= i < v@.len() && #[trigger] v@[i].module@ == "journal"@,
        exists|i: int| 0 <= i < v@.len() && #[trigger] v@[i].module@ == "portfolios"@,
        exists|i: int| 0 <= i < v@.len() && #[trigger] v@[i].module@ == "backtest"@,
        exists|i: int| 0 <= i < v@.len() && #[trigger] v@[i].module@ == "quant"@,
        exists|i: int| 0 <= i < v@.len() && #[trigger] v@[i].module@ == "histdata"@,
        exists|i: int| 0 <= i < v@.len() && #[trigger] v@[i].module@ == "histviz"@,
        exists|i: int| 0 <= i < v@.len() && #[trigger] v@[i].module@ == "connectors"@,
        exists|i: int| 0 <= i < v@.len() && #[trigger] v@[i].module@ == "findb"@,
        exists|i: int| 0 <= i < v@.len() && #[trigger] v@[i].module@ == "watchlists"@,
        exists|i: int| 0 <= i < v@.len() && #[trigger] v@[i].module@ == "mportfolios"@,
        exists|i: int| 0 <= i < v@.len() && #[trigger] v@[i].module@ == "wealth"@,
        exists|i: int| 0 <= i < v@.len() && #[trigger] v@[i].module@ == "subscriptions"@,
        exists|i: int| 0 <= i < v@.len() && #[trigger] v@[i].module@ == "taxcalc"@,
        exists|i: int| 0 <= i < v@.len() && #[trigger] v@[i].module@ == "editor"@,
        exists|i: int| 0 <= i < v@.len() && #[trigger] v@[i].module@ == "todos"@,
        exists|i: int| 0 <= i < v@.len() && #[trigger] v@[i].module@ == "goals"@,
        exists|i: int| 0 <= i < v@.len() && #[trigger] v@[i].module@ == "remindme"@,
        exists|i: int| 0 <= i < v@.len() && #[trigger] v@[i].module@ == "calendar"@,
        exists|i: int| 0 <= i < v@.len() && #[trigger] v@[i].module@ == "time"@,
        exists|i: int| 0 <= i < v@.len() && #[trigger] v@[i].module@ == "routines"@,
        exists|i: int| 0 <= i < v@.len() && #[trigger] v@[i].module@ == "mindset"@,
        exists|i: int| 0 <= i < v@.len() && #[trigger] v@[i].module@ == "news"@,
        exists|i: int| 0 <= i < v@.len() && #[trigger] v@[i].module@ == "resources"@,
        exists|i: int| 0 <= i < v@.len() && #[trigger] v@[i].module@ == "prompt-store"@,
        exists|i: int| 0 <= i < v@.len() && #[trigger] v@[i].module@ == "mailbox"@,
        exists|i: int| 0 <= i < v@.len() && #[trigger] v@[i].module@ == "automator"@,
        exists|i: int| 0 <= i < v@.len() && #[trigger] v@[i].module@ == "search"@,
        exists|i: int| 0 <= i < v@.len() && #[trigger] v@[i].module@ == "community-docs"@,
{
    let mut v: Vec<Endpoint> = Vec::new();
    let ghost at_add_journal_1: int = v@.len() as int;
    add_journal_1(&mut v);
    assert(v@ =~= table_journal_1());
    let ghost seen_add_journal_1 = v@[at_add_journal_1];
    assert(seen_add_journal_1.module@ == "journal"@);
    add_journal_2(&mut v);
    add_journal_3(&mut v);
    add_journal_4(&mut v);
    let ghost at_add_portfolios_1: int = v@.len() as int;
    add_portfolios_1(&mut v);
    let ghost seen_add_portfolios_1 = v@[at_add_portfolios_1];
    assert(seen_add_portfolios_1.module@ == "portfolios"@);
    add_portfolios_2(&mut v);
    let ghost at_add_backtest_1: int = v@.len() as int;
    add_backtest_1(&mut v);
    let ghost seen_add_backtest_1 = v@[at_add_backtest_1];
    assert(seen_add_backtest_1.module@ == "backtest"@);
    add_backtest_2(&mut v);
    add_backtest_3(&mut v);
    let ghost at_add_quant: int = v@.len() as int;
    add_quant(&mut v);
    let ghost seen_add_quant = v@[at_add_quant];
    assert(seen_add_quant.module@ == "quant"@);
    let ghost at_add_histdata: int = v@.len() as int;
    add_histdata(&mut v);
    let ghost seen_add_histdata = v@[at_add_histdata];
    assert(seen_add_histdata.module@ == "histdata"@);
    let ghost at_add_histviz_1: int = v@.len() as int;
    add_histviz_1(&mut v);
    let ghost seen_add_histviz_1 = v@[at_add_histviz_1];
    assert(seen_add_histviz_1.module@ == "histviz"@);
    add_histviz_2(&mut v);
    let ghost at_add_connectors: int = v@.len() as int;
    add_connectors(&mut v);
    let ghost seen_add_connectors = v@[at_add_connectors];
    assert(seen_add_connectors.module@ == "connectors"@);
    let ghost at_add_findb: int = v@.len() as int;
    add_findb(&mut v);
    let ghost seen_add_findb = v@[at_add_findb];
    assert(seen_add_findb.module@ == "findb"@);
    let ghost at_add_watchlists_1: int = v@.len() as int;
    add_watchlists_1(&mut v);
    let ghost seen_add_watchlists_1 = v@[at_add_watchlists_1];
    assert(seen_add_watchlists_1.module@ == "watchlists"@);
    add_watchlists_2(&mut v);
    let ghost at_add_mportfolios: int = v@.len() as int;
    add_mportfolios(&mut v);
    let ghost seen_add_mportfolios = v@[at_add_mportfolios];
    assert(seen_add_mportfolios.module@ == "mportfolios"@);
    let ghost at_add_wealth_1: int = v@.len() as int;
    add_wealth_1(&mut v);
    let ghost seen_add_wealth_1 = v@[at_add_wealth_1];
    assert(seen_add_wealth_1.module@ == "wealth"@);
    add_wealth_2(&mut v);
    let ghost at_add_subscriptions: int = v@.len() as int;
    add_subscriptions(&mut v);
    let ghost seen_add_subscriptions = v@[at_add_subscriptions];
    assert(seen_add_subscriptions.module@ == "subscriptions"@);
    let ghost at_add_taxcalc: int = v@.len() as int;
    add_taxcalc(&mut v);
    let ghost seen_add_taxcalc = v@[at_add_taxcalc];
    assert(seen_add_taxcalc.module@ == "taxcalc"@);
    let ghost at_add_editor_1: int = v@.len() as int;
    add_editor_1(&mut v);
    let ghost seen_add_editor_1 = v@[at_add_editor_1];
    assert(seen_add_editor_1.module@ == "editor"@);
    add_editor_2(&mut v);
    let ghost at_add_todos: int = v@.len() as int;
    add_todos(&mut v);
    let ghost seen_add_todos = v@[at_add_todos];
    assert(seen_add_todos.module@ == "todos"@);
    let ghost at_add_goals: int = v@.len() as int;
    add_goals(&mut v);
    let ghost seen_add_goals = v@[at_add_goals];
    assert(seen_add_goals.module@ == "goals"@);
    let ghost at_add_remindme: int = v@.len() as int;
    add_remindme(&mut v);
    let ghost seen_add_remindme = v@[at_add_remindme];
    assert(seen_add_remindme.module@ == "remindme"@);
    let ghost at_add_calendar: int = v@.len() as int;
    add_calendar(&mut v);
    let ghost seen_add_calendar = v@[at_add_calendar];
    assert(seen_add_calendar.module@ == "calendar"@);
    let ghost at_add_time_1: int = v@.len() as int;
    add_time_1(&mut v);
    let ghost seen_add_time_1 = v@[at_add_time_1];
    assert(seen_add_time_1.module@ == "time"@);
    add_time_2(&mut v);
    let ghost at_add_routines_1: int = v@.len() as int;
    add_routines_1(&mut v);
    let ghost seen_add_routines_1 = v@[at_add_routines_1];
    assert(seen_add_routines_1.module@ == "routines"@);
    add_routines_2(&mut v);
    let ghost at_add_mindset_1: int = v@.len() as int;
    add_mindset_1(&mut v);
    let ghost seen_add_mindset_1 = v@[at_add_mindset_1];
    assert(seen_add_mindset_1.module@ == "mindset"@);
    add_mindset_2(&mut v);
    let ghost at_add_news_1: int = v@.len() as int;
    add_news_1(&mut v);
    let ghost seen_add_news_1 = v@[at_add_news_1];
    assert(seen_add_news_1.module@ == "news"@);
    add_news_2(&mut v);
    let ghost at_add_resources: int = v@.len() as int;
    add_resources(&mut v);
    let ghost seen_add_resources = v@[at_add_resources];
    assert(seen_add_resources.module@ == "resources"@);
    let ghost at_add_prompt_store: int = v@.len() as int;
    add_prompt_store(&mut v);
    let ghost seen_add_prompt_store = v@[at_add_prompt_store];
    assert(seen_add_prompt_store.module@ == "prompt-store"@);
    let ghost at_add_mailbox: int = v@.len() as int;
    add_mailbox(&mut v);
    let ghost seen_add_mailbox = v@[at_add_mailbox];
    assert(seen_add_mailbox.module@ == "mailbox"@);
    let ghost at_add_automator: int = v@.len() as int;
    add_automator(&mut v);
    let ghost seen_add_automator = v@[at_add_automator];
    assert(seen_add_automator.module@ == "automator"@);
    let ghost at_add_search: int = v@.len() as int;
    add_search(&mut v);
    let ghost seen_add_search = v@[at_add_search];
    assert(seen_add_search.module@ == "search"@);
    let ghost at_add_community_docs: int = v@.len() as int;
    add_community_docs(&mut v);
    let ghost seen_add_community_docs = v@[at_add_community_docs];
    assert(seen_add_community_docs.module@ == "community-docs"@);
    proof {
        assert(v@[at_add_journal_1] == seen_add_journal_1);
        assert(v@[at_add_portfolios_1] == seen_add_portfolios_1);
        assert(v@[at_add_backtest_1] == seen_add_backtest_1);
        assert(v@[at_add_quant] == seen_add_quant);
        assert(v@[at_add_histdata] == seen_add_histdata);
        assert(v@[at_add_histviz_1] == seen_add_histviz_1);
        assert(v@[at_add_connectors] == seen_add_connectors);
        assert(v@[at_add_findb] == seen_add_findb);
        assert(v@[at_add_watchlists_1] == seen_add_watchlists_1);
        assert(v@[at_add_mportfolios] == seen_add_mportfolios);
        assert(v@[at_add_wealth_1] == seen_add_wealth_1);
        assert(v@[at_add_subscriptions] == seen_add_subscriptions);
        assert(v@[at_add_taxcalc] == seen_add_taxcalc);
        assert(v@[at_add_editor_1] == seen_add_editor_1);
        assert(v@[at_add_todos] == seen_add_todos);
        assert(v@[at_add_goals] == seen_add_goals);
        assert(v@[at_add_remindme] == seen_add_remindme);
        assert(v@[at_add_calendar] == seen_add_calendar);
        assert(v@[at_add_time_1] == seen_add_time_1);
        assert(v@[at_add_routines_1] == seen_add_routines_1);
        assert(v@[at_add_mindset_1] == seen_add_mindset_1);
        assert(v@[at_add_news_1] == seen_add_news_1);
        assert(v@[at_add_resources] == seen_add_resources);
        assert(v@[at_add_prompt_store] == seen_add_prompt_store);
        assert(v@[at_add_mailbox] == seen_add_mailbox);
        assert(v@[at_add_automator] == seen_add_automator);
        assert(v@[at_add_search] == seen_add_search);
        assert(v@[at_add_community_docs] == seen_add_community_docs);
    }
    v
}


// ── Matching a request ───────────────────────────────────────────────────────

/// A template segment matches a path segment: `{param}` matches any non-empty one, anything
/// else only itself.
pub open spec fn segment_matches(t: Seq<char>, p: Seq<char>) -> bool {
    (t.len() > 0 && t[0] == '{' && t.last() == '}' && p.len() > 0) || t == p
}

/// `path` (no query string) matches the `/`-segmented template.
pub open spec fn matches_template(template: Seq<char>, path: Seq<char>) -> bool {
    let t = split_on(template, '/');
    let p = split_on(path, '/');
    t.len() == p.len() && forall|i: int| 0 <= i < t.len() ==> segment_matches(#[trigger] t[i], p[i])
}

/// True when `path` matches the `/`-segmented template, where a `{param}` segment matches any
/// single non-empty segment.
pub fn path_matches(template: &str, path: &str) -> (b: bool)
    ensures
        b == matches_template(template@, path@),
{
    let t = split_chars(template, '/');
    let p = split_chars(path, '/');
    if t.len() != p.len() {
        return false;
    }
    let mut i: usize = 0;
    while i < t.len()
        invariant
            i <= t@.len(),
            t@.len() == p@.len(),
            views(t@) == split_on(template@, '/'),
            views(p@) == split_on(path@, '/'),
            forall|j: int| 0 <= j < i ==> segment_matches(#[trigger] split_on(template@, '/')[j], split_on(path@, '/')[j]),
        decreases t@.len() - i,
    {
        let ts = crate::text::chars_of(t[i].as_str());
        let ps = p[i].as_str();
        proof {
            assert(views(t@)[i as int] == t@[i as int]@);
            assert(views(p@)[i as int] == p@[i as int]@);
        }
        let param = ts.len() > 0 && ts[0] == '{' && ts[ts.len() - 1] == '}' && !ps.is_empty();
        if !(param || str_eq(t[i].as_str(), ps)) {
            return false;
        }
        i = i + 1;
    }
    true
}

/// Entry `i` answers `method` on exactly this path.
pub open spec fn exact_at(c: Seq<Endpoint>, method: Seq<char>, path: Seq<char>, i: int) -> bool {
    c[i].method@ == method && c[i].path@ == path
}

/// Entry `i` answers `method` on a template this path matches.
pub open spec fn template_at(c: Seq<Endpoint>, method: Seq<char>, path: Seq<char>, i: int) -> bool {
    c[i].method@ == method && matches_template(c[i].path@, path)
}

/// The entry a request resolves to: the first exact one, else the first template one. A
/// literal segment beats a `{param}` one, the way the router itself routes, so the entry that
/// decides the permission check never hinges on the order of the list.
pub open spec fn resolves_to(c: Seq<Endpoint>, method: Seq<char>, path: Seq<char>, i: int) -> bool {
    0 <= i < c.len() && (
        (exact_at(c, method, path, i) && forall|j: int| 0 <= j < i ==> !exact_at(c, method, path, j))
        || ((forall|j: int| 0 <= j < c.len() ==> !exact_at(c, method, path, j))
            && template_at(c, method, path, i)
            && forall|j: int| 0 <= j < i ==> !template_at(c, method, path, j)))
}

/// Find the allowlist entry for a concrete request, as an index into the catalog.
pub fn lookup(c: &[Endpoint], method: &str, path: &str) -> (r: Option<usize>)
    ensures
        match r {
            Some(i) => resolves_to(c@, method@, path@, i as int),
            None => forall|j: int| 0 <= j < c@.len() ==> !exact_at(c@, method@, path@, j) && !template_at(c@, method@, path@, j),
        },
{
    let mut i: usize = 0;
    while i < c.len()
        invariant
            i <= c@.len(),
            forall|j: int| 0 <= j < i ==> !exact_at(c@, method@, path@, j),
        decreases c@.len() - i,
    {
        if str_eq(c[i].method, method) && str_eq(c[i].path, path) {
            return Some(i);
        }
        i = i + 1;
    }
    let mut k: usize = 0;
    while k < c.len()
        invariant
            k <= c@.len(),
            forall|j: int| 0 <= j < c@.len() ==> !exact_at(c@, method@, path@, j),
            forall|j: int| 0 <= j < k ==> !template_at(c@, method@, path@, j),
        decreases c@.len() - k,
    {
        if str_eq(c[k].method, method) && path_matches(c[k].path, path) {
            return Some(k);
        }
        k = k + 1;
    }
    None
}

/// The methods of the entries whose template matches `path`, in order, repeats kept.
pub open spec fn matching_methods(c: Seq<Endpoint>, path: Seq<char>) -> Seq<Seq<char>>
    decreases c.len(),
{
    if c.len() == 0 {
        Seq::empty()
    } else {
        let r = matching_methods(c.drop_last(), path);
        if matches_template(c.last().path@, path) { r.push(c.last().method@) } else { r }
    }
}

/// Methods allowed on `path`, whatever the method asked for, each once: turns a
/// right-path, wrong-method miss into a message that names the fix.
pub fn methods_for(c: &[Endpoint], path: &str) -> (r: Vec<&'static str>)
    ensures
        r@.map_values(|m: &'static str| m@) == dedup(matching_methods(c@, path@)),
{
    let mut out: Vec<&'static str> = Vec::new();
    let mut i: usize = 0;
    while i < c.len()
        invariant
            i <= c@.len(),
            out@.map_values(|m: &'static str| m@) == dedup(matching_methods(c@.take(i as int), path@)),
        decreases c@.len() - i,
    {
        let ghost prev = matching_methods(c@.take(i as int), path@);
        proof {
            assert(c@.take(i + 1).drop_last() == c@.take(i as int));
            assert(c@.take(i + 1).last() == c@[i as int]);
        }
        if path_matches(c[i].path, path) {
            let m = c[i].method;
            proof {
                assert(prev.push(m@).drop_last() == prev);
                assert(prev.push(m@).last() == m@);
            }
            let mut seen = false;
            let mut j: usize = 0;
            while j < out.len()
                invariant
                    j <= out@.len(),
                    seen == exists|q: int| 0 <= q < j && #[trigger] out@[q]@ == m@,
                decreases out@.len() - j,
            {
                if str_eq(out[j], m) {
                    seen = true;
                }
                j = j + 1;
            }
            let ghost before = out@.map_values(|x: &'static str| x@);
            proof {
                if seen {
                    let q = choose|q: int| 0 <= q < out@.len() && #[trigger] out@[q]@ == m@;
                    assert(before[q] == m@);
                } else {
                    assert forall|q: int| 0 <= q < before.len() implies before[q] != m@ by {
                        assert(before[q] == out@[q]@);
                    }
                }
            }
            if !seen {
                out.push(m);
                proof {
                    assert(out@.map_values(|x: &'static str| x@) == before.push(m@));
                }
            }
        }
        i = i + 1;
    }
    proof {
        assert(c@.take(c@.len() as int) == c@);
    }
    out
}

// ── Text from outside ────────────────────────────────────────────────────────

/// Endpoints whose response carries text written by someone other than the user: feed
/// articles, mail sent in by third parties, and the search index that mixes both. Matched
/// as a path prefix at a segment boundary.
pub fn untrusted_paths() -> (v: Vec<&'static str>)
    ensures
        v@.map_values(|p: &'static str| p@) == untrusted_prefixes(),
{
    let mut v: Vec<&'static str> = Vec::new();
    v.push("/api/feeds");
    v.push("/api/feed-items");
    v.push("/api/feed-dashboards");
    v.push("/api/mailbox/messages");
    v.push("/api/mailbox/senders");
    v.push("/api/mailbox/links");
    v.push("/api/search");
    proof {
        assert(v@.map_values(|p: &'static str| p@) =~= untrusted_prefixes());
    }
    v
}

pub open spec fn untrusted_prefixes() -> Seq<Seq<char>> {
    seq![
        "/api/feeds"@,
        "/api/feed-items"@,
        "/api/feed-dashboards"@,
        "/api/mailbox/messages"@,
        "/api/mailbox/senders"@,
        "/api/mailbox/links"@,
        "/api/search"@,
    ]
}

/// `path` is `prefix` itself, or continues it after a `/`.
pub open spec fn under(path: Seq<char>, prefix: Seq<char>) -> bool {
    path == prefix || (crate::text::starts_with(path, prefix) && path.len() > prefix.len() && path[prefix.len() as int] == '/')
}

/// Whether a concrete path serves content from outside.
pub fn is_untrusted(path: &str) -> (b: bool)
    ensures
        b == exists|k: int| 0 <= k < untrusted_prefixes().len() && under(path@, #[trigger] untrusted_prefixes()[k]),
{
    let prefixes = untrusted_paths();
    let v = crate::text::chars_of(path);
    let mut k: usize = 0;
    while k < prefixes.len()
        invariant
            k <= prefixes@.len(),
            prefixes@.map_values(|p: &'static str| p@) == untrusted_prefixes(),
            v@ == path@,
            forall|j: int| 0 <= j < k ==> !under(path@, #[trigger] untrusted_prefixes()[j]),
        decreases prefixes@.len() - k,
    {
        let p = crate::text::chars_of(prefixes[k]);
        proof {
            assert(untrusted_prefixes()[k as int] == prefixes@[k as int]@);
        }
        let exact = crate::text::chars_eq(&v, &p);
        let below = crate::text::matches_at(&v, &p, 0) && v.len() > p.len() && v[p.len()] == '/';
        if exact || below {
            return true;
        }
        k = k + 1;
    }
    false
}


proof fn lemma_matching_contains(c: Seq<Endpoint>, path: Seq<char>, m: Seq<char>)
    ensures
        matching_methods(c, path).contains(m) <==> exists|i: int| 0 <= i < c.len() && #[trigger] template_at(c, m, path, i),
    decreases c.len(),
{
    if c.len() > 0 {
        let p = c.drop_last();
        lemma_matching_contains(p, path, m);
        let r = matching_methods(p, path);
        if exists|i: int| 0 <= i < c.len() && #[trigger] template_at(c, m, path, i) {
            let i = choose|i: int| 0 <= i < c.len() && #[trigger] template_at(c, m, path, i);
            if i < c.len() - 1 {
                assert(p[i] == c[i]);
                assert(template_at(p, m, path, i));
                let k = choose|k: int| 0 <= k < r.len() && r[k] == m;
                if matches_template(c.last().path@, path) {
                    assert(r.push(c.last().method@)[k] == m);
                } else {
                    assert(r[k] == m);
                }
            } else {
                assert(matching_methods(c, path) == r.push(c.last().method@));
                assert(matching_methods(c, path)[r.len() as int] == m);
            }
        }
        if matching_methods(c, path).contains(m) {
            if matches_template(c.last().path@, path) && c.last().method@ == m {
                assert(template_at(c, m, path, c.len() - 1));
            } else {
                if matches_template(c.last().path@, path) {
                    let k = choose|k: int| 0 <= k < r.push(c.last().method@).len() && r.push(c.last().method@)[k] == m;
                    assert(k < r.len());
                    assert(r[k] == m);
                }
                assert(r.contains(m));
                let i = choose|i: int| 0 <= i < p.len() && #[trigger] template_at(p, m, path, i);
                assert(p[i] == c[i]);
                assert(template_at(c, m, path, i));
            }
        }
    }
}

proof fn lemma_first_exact(c: Seq<Endpoint>, m: Seq<char>, path: Seq<char>, n: int)
    requires
        0 <= n <= c.len(),
        exists|i: int| 0 <= i < n && #[trigger] exact_at(c, m, path, i),
    ensures
        exists|i: int| 0 <= i < n && exact_at(c, m, path, i) && forall|j: int| 0 <= j < i ==> !#[trigger] exact_at(c, m, path, j),
    decreases n,
{
    if exists|i: int| 0 <= i < n - 1 && #[trigger] exact_at(c, m, path, i) {
        lemma_first_exact(c, m, path, n - 1);
    } else {
        assert(exact_at(c, m, path, n - 1));
    }
}

proof fn lemma_first_template(c: Seq<Endpoint>, m: Seq<char>, path: Seq<char>, n: int)
    requires
        0 <= n <= c.len(),
        exists|i: int| 0 <= i < n && #[trigger] template_at(c, m, path, i),
    ensures
        exists|i: int| 0 <= i < n && template_at(c, m, path, i) && forall|j: int| 0 <= j < i ==> !#[trigger] template_at(c, m, path, j),
    decreases n,
{
    if exists|i: int| 0 <= i < n - 1 && #[trigger] template_at(c, m, path, i) {
        lemma_first_template(c, m, path, n - 1);
    } else {
        assert(template_at(c, m, path, n - 1));
    }
}

/// The law tying [`methods_for`] to [`lookup`]: the methods offered for a path are each named
/// once, and a method is listed when, and only when, some catalog entry with that method
/// matches the path, which is exactly when `lookup` of that method and path finds an entry
/// (its `None` case is the last condition below failing; its `Some(i)` case is
/// `resolves_to(c, m, path, i)`).
pub proof fn lemma_methods_for_matches_lookup(c: Seq<Endpoint>, path: Seq<char>, m: Seq<char>)
    ensures
        no_dups(dedup(matching_methods(c, path))),
        dedup(matching_methods(c, path)).contains(m)
            <==> exists|i: int| 0 <= i < c.len() && #[trigger] template_at(c, m, path, i),
        (exists|i: int| 0 <= i < c.len() && #[trigger] template_at(c, m, path, i))
            <==> exists|i: int| #[trigger] resolves_to(c, m, path, i),
        dedup(matching_methods(c, path)).contains(m)
            <==> !(forall|j: int| 0 <= j < c.len() ==> !#[trigger] exact_at(c, m, path, j)
                && !template_at(c, m, path, j)),
{
    lemma_dedup(matching_methods(c, path));
    lemma_matching_contains(c, path, m);
    if exists|i: int| 0 <= i < c.len() && #[trigger] template_at(c, m, path, i) {
        if exists|i: int| 0 <= i < c.len() && #[trigger] exact_at(c, m, path, i) {
            lemma_first_exact(c, m, path, c.len() as int);
            let i = choose|i: int| 0 <= i < c.len() && exact_at(c, m, path, i) && forall|j: int| 0 <= j < i ==> !#[trigger] exact_at(c, m, path, j);
            assert(resolves_to(c, m, path, i));
        } else {
            lemma_first_template(c, m, path, c.len() as int);
            let i = choose|i: int| 0 <= i < c.len() && template_at(c, m, path, i) && forall|j: int| 0 <= j < i ==> !#[trigger] template_at(c, m, path, j);
            assert(resolves_to(c, m, path, i));
        }
    }
    if exists|i: int| #[trigger] resolves_to(c, m, path, i) {
        let i = choose|i: int| #[trigger] resolves_to(c, m, path, i);
        if exact_at(c, m, path, i) {
            let t = split_on(c[i].path@, '/');
            assert(forall|k: int| 0 <= k < t.len() ==> segment_matches(#[trigger] t[k], t[k]));
            assert(matches_template(c[i].path@, path));
        }
        assert(template_at(c, m, path, i));
    }
    assert forall|j: int| 0 <= j < c.len() && #[trigger] exact_at(c, m, path, j) implies template_at(
        c,
        m,
        path,
        j,
    ) by {
        let t = split_on(c[j].path@, '/');
        assert(forall|k: int| 0 <= k < t.len() ==> segment_matches(#[trigger] t[k], t[k]));
    }
}
} // verus!
