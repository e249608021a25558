//! Interactive Brokers: what a numbered refusal from the gateway means.
//!
//! A refusal here is nearly always an entitlement, not a bug: IB serves what the account
//! subscribes to, and the live seat is exclusive per account. The number is the diagnosis,
//! except for tick-by-tick refusals, which are classified on their words.

use vstd::prelude::*;

use crate::live::fault::{Cause, Failure, LiveError, LiveFault};
use crate::text::{
    ascii_lower, chars_of, contains, lower_vec, signed_decimal, signed_decimal_of, str_contains,
    str_eq, string_of,
};

verus! {

/// Market-data lines a plain IB account holds at once (IB's documented default).
pub const LINE_CAP: usize = 100;

/// The gateway's error as the classification reads it.
#[derive(Debug, Clone)]
pub enum IbError {
    /// A numbered message from TWS or the gateway.
    Message { code: i32, message: String },
    /// Anything else, by its own words.
    Other(String),
}

/// The Interactive Brokers live connector.
pub struct IbkrLive;

/// What a real-time bar request asks IB to show for an asset type.
#[derive(Debug, Clone, Copy, PartialEq, Eq, Structural)]
pub enum WhatToShow {
    MidPoint,
    Trades,
}

/// Cash forex and crypto have no usable tape at IB, so both are midpoint, like their history.
pub fn realtime_what_to_show(asset_type: &str) -> (w: WhatToShow)
    ensures
        w == (if asset_type@ == "crypto"@ || asset_type@ == "fx"@ {
            WhatToShow::MidPoint
        } else {
            WhatToShow::Trades
        }),
{
    if str_eq(asset_type, "crypto") || str_eq(asset_type, "fx") {
        WhatToShow::MidPoint
    } else {
        WhatToShow::Trades
    }
}

/// A tick-by-tick refusal names its limit with one of these words.
pub open spec fn hit_ceiling(low: Seq<char>) -> bool {
    contains(low, "max"@) || contains(low, "maximum"@) || contains(low, "reached"@) || contains(
        low,
        "limit"@,
    ) || contains(low, "exceed"@)
}

/// The classification of a gateway error: the fault and the sentence it carries.
pub open spec fn classify_spec(addr: Seq<char>, symbol: Seq<char>, connector: Seq<char>, e: IbError) -> (LiveFault, Seq<char>) {
    match e {
        IbError::Other(t) => (LiveFault::Transport, symbol + " live: Interactive Brokers ("@ + addr + ") — "@ + t@),
        IbError::Message { code, message } => {
            let m = message@;
            let low = ascii_lower(m);
            if contains(low, "tick-by-tick"@) || contains(low, "tick by tick"@) {
                if hit_ceiling(low) {
                    (LiveFault::Conflict, "Interactive Brokers has no live tick stream left for "@ + symbol + " ("@ + m
                        + "). An account may hold only as many at once as it has market-depth lines, three on a plain account: stop live on another Interactive Brokers chart, or ask IB for more lines"@)
                } else {
                    (LiveFault::Unsupported, "Interactive Brokers serves no tick-by-tick stream for "@ + symbol + " ("@ + m
                        + "). Options and indices outside CME are the usual case; chart them from another provider, or download instead of streaming"@)
                }
            } else if code == 101 {
                (LiveFault::Conflict, "connector "@ + connector + "'s Interactive Brokers account is holding all the market-data lines it has ("@ + m
                    + "). Stop live on another chart and this one starts"@)
            } else if code == 200 {
                (LiveFault::Symbol, "Interactive Brokers has no contract matching "@ + symbol + " ("@ + m
                    + "). Check the spelling, and add the currency for a non-US instrument, e.g. SAN:EUR"@)
            } else if code == 354 || code == 10089 || code == 10090 || code == 10091 {
                (LiveFault::Entitlement, "connector "@ + connector + "'s Interactive Brokers account has no live market-data subscription for "@ + symbol + " ("@ + m
                    + "). Subscriptions are bought in Client Portal under Settings → Market Data Subscriptions; the delayed data IB offers instead is not a live feed"@)
            } else if code == 10197 {
                (LiveFault::Conflict, "Interactive Brokers gives one live market-data session per account and another one holds it. Close the TWS, mobile or web session using this account and this reconnects on its own ("@ + m + ")"@)
            } else if code == 322 || code == 420 {
                (LiveFault::Conflict, "Interactive Brokers is refusing further market-data requests on "@ + addr + " right now ("@ + m
                    + "). Close a chart or wait for the current ones to expire"@)
            } else {
                (LiveFault::Transport, symbol + " live: Interactive Brokers "@ + signed_decimal_of(code as int) + " — "@ + m)
            }
        },
    }
}

/// Name the refusal: 354 is a subscription to buy, 10197 another IB session to close, 200
/// a ticker to fix; everything else is transport and retried.
pub fn classify(addr: &str, symbol: &str, connector: &str, e: &IbError) -> (f: Failure)
    ensures
        f.is(classify_spec(addr@, symbol@, connector@, *e).0, classify_spec(addr@, symbol@, connector@, *e).1),
{
    let (fault, m) = match e {
        IbError::Other(t) => {
            let mut m = symbol.to_string();
            m.append(" live: Interactive Brokers (");
            m.append(addr);
            m.append(") — ");
            m.append(t.as_str());
            (LiveFault::Transport, m)
        },
        IbError::Message { code, message } => {
            let msg = message.as_str();
            let low = string_of(lower_vec(&chars_of(msg)).as_slice());
            let l = low.as_str();
            if str_contains(l, "tick-by-tick") || str_contains(l, "tick by tick") {
                if str_contains(l, "max") || str_contains(l, "maximum") || str_contains(l, "reached")
                    || str_contains(l, "limit") || str_contains(l, "exceed") {
                    let mut m = "Interactive Brokers has no live tick stream left for ".to_string();
                    m.append(symbol);
                    m.append(" (");
                    m.append(msg);
                    m.append("). An account may hold only as many at once as it has market-depth lines, three on a plain account: stop live on another Interactive Brokers chart, or ask IB for more lines");
                    (LiveFault::Conflict, m)
                } else {
                    let mut m = "Interactive Brokers serves no tick-by-tick stream for ".to_string();
                    m.append(symbol);
                    m.append(" (");
                    m.append(msg);
                    m.append("). Options and indices outside CME are the usual case; chart them from another provider, or download instead of streaming");
                    (LiveFault::Unsupported, m)
                }
            } else if *code == 101 {
                let mut m = "connector ".to_string();
                m.append(connector);
                m.append("'s Interactive Brokers account is holding all the market-data lines it has (");
                m.append(msg);
                m.append("). Stop live on another chart and this one starts");
                (LiveFault::Conflict, m)
            } else if *code == 200 {
                let mut m = "Interactive Brokers has no contract matching ".to_string();
                m.append(symbol);
                m.append(" (");
                m.append(msg);
                m.append("). Check the spelling, and add the currency for a non-US instrument, e.g. SAN:EUR");
                (LiveFault::Symbol, m)
            } else if *code == 354 || *code == 10089 || *code == 10090 || *code == 10091 {
                let mut m = "connector ".to_string();
                m.append(connector);
                m.append("'s Interactive Brokers account has no live market-data subscription for ");
                m.append(symbol);
                m.append(" (");
                m.append(msg);
                m.append("). Subscriptions are bought in Client Portal under Settings → Market Data Subscriptions; the delayed data IB offers instead is not a live feed");
                (LiveFault::Entitlement, m)
            } else if *code == 10197 {
                let mut m = "Interactive Brokers gives one live market-data session per account and another one holds it. Close the TWS, mobile or web session using this account and this reconnects on its own (".to_string();
                m.append(msg);
                m.append(")");
                (LiveFault::Conflict, m)
            } else if *code == 322 || *code == 420 {
                let mut m = "Interactive Brokers is refusing further market-data requests on ".to_string();
                m.append(addr);
                m.append(" right now (");
                m.append(msg);
                m.append("). Close a chart or wait for the current ones to expire");
                (LiveFault::Conflict, m)
            } else {
                let mut m = symbol.to_string();
                m.append(" live: Interactive Brokers ");
                m.append(signed_decimal(*code as i64).as_str());
                m.append(" — ");
                m.append(msg);
                (LiveFault::Transport, m)
            }
        },
    };
    Failure { cause: Cause::Live(LiveError { fault, message: m }), context: Vec::new() }
}

} // verus!
