//! Opening a socket: what a provider needs before it connects, and what it refuses on.
//!
//! Every keyed provider reads the same things first (the credentials, the connector's
//! settings, the instrument the socket opens with) and fails in the same few ways; the
//! connection itself is made by the driver once the plan is known.

use vstd::prelude::*;

use crate::live::alpaca::{feed_of, feed_setting, need, url_for, url_spec, no_feed_for, Entitlement, AlpacaLive};
use crate::live::crypto_venues::{interval_min, interval_min_of, KrakenLive};
use crate::live::fault::{Cause, Failure, LiveError, LiveFault};
use crate::live::instrument::Instrument;
use crate::live::massive::{channel_for, channel_for_spec, channel_ok, MassiveLive};
use crate::settings::Settings;
use crate::text::{trim, trim_str};

verus! {

/// Everything a provider needs to open one socket: the connector's settings merged with its
/// decrypted credentials, its user-given name (for the sentences a user has to act on), and
/// the instruments the socket opens with, all of one socket class.
pub struct SessionRequest<'a> {
    pub secrets: &'a Settings,
    pub connector: &'a str,
    pub instruments: &'a [Instrument],
}

/// A credential as read: present and non-blank after trimming.
pub open spec fn credential(s: Settings, name: Seq<char>) -> Option<Seq<char>> {
    match s.value_of(name) {
        Some(v) => if trim(v).len() > 0 { Some(trim(v)) } else { None },
        None => None,
    }
}

/// The entitlement the `feed` setting names, when it names one (blank is the free plan).
pub open spec fn feed_choice(s: Settings) -> Option<Entitlement> {
    let f = feed_setting(s);
    if f.len() == 0 || f == "iex"@ {
        Some(Entitlement::Iex)
    } else if f == "sip"@ {
        Some(Entitlement::Sip)
    } else {
        None
    }
}

/// The failure an empty instrument list opens with: plain words, so a transport fault.
pub open spec fn no_instrument(f: Failure, provider: Seq<char>) -> bool {
    f.cause matches Cause::Plain(t) && t@ == provider + " live: no instrument to open with"@
        && f.context@.len() == 0
}

pub fn no_instrument_failure(provider: &str) -> (f: Failure)
    ensures
        no_instrument(f, provider@),
{
    let mut t = provider.to_string();
    t.append(" live: no instrument to open with");
    Failure::msg(t.as_str())
}

/// What Alpaca's socket opens with.
pub struct AlpacaOpen {
    pub url: String,
    pub key: String,
    pub secret: String,
    pub feed: Entitlement,
}

/// The sentence a missing Alpaca credential is refused with.
pub open spec fn alpaca_missing(connector: Seq<char>, name: Seq<char>) -> Seq<char> {
    "connector "@ + connector + " has no Alpaca "@ + name + " — add it on the connector"@
}

impl AlpacaLive {
    /// The key, the secret, the entitlement and the URL of the first instrument's market,
    /// checked in that order.
    pub fn open_plan(&self, req: &SessionRequest) -> (r: Result<AlpacaOpen, Failure>)
        ensures
            ({
                let key = credential(*req.secrets, "api_key"@);
                let secret = credential(*req.secrets, "api_secret"@);
                let feed = feed_choice(*req.secrets);
                match r {
                    Ok(p) => key == Some(p.key@) && secret == Some(p.secret@) && feed == Some(p.feed)
                        && req.instruments@.len() > 0
                        && url_spec(req.instruments@[0].asset_type@, p.feed) == Some(p.url@),
                    Err(e) => if key is None {
                        e.is(LiveFault::Auth, alpaca_missing(req.connector@, "api_key"@))
                    } else if secret is None {
                        e.is(LiveFault::Auth, alpaca_missing(req.connector@, "api_secret"@))
                    } else if feed is None {
                        e.fault_spec() == LiveFault::Transport
                    } else if req.instruments@.len() == 0 {
                        no_instrument(e, "alpaca"@)
                    } else {
                        url_spec(req.instruments@[0].asset_type@, feed->0) is None && e.is(
                            LiveFault::Unsupported,
                            no_feed_for(req.instruments@[0].asset_type@),
                        )
                    },
                }
            }),
    {
        let key = match need(req.secrets, "api_key", req.connector) {
            Ok(k) => k,
            Err(e) => {
                proof {
                    reveal_strlit("api_key");
                }
                return Err(e);
            },
        };
        let secret = match need(req.secrets, "api_secret", req.connector) {
            Ok(s) => s,
            Err(e) => {
                proof {
                    reveal_strlit("api_secret");
                }
                return Err(e);
            },
        };
        let feed = match feed_of(req.secrets) {
            Ok(f) => f,
            Err(e) => return Err(e),
        };
        proof {
            reveal_strlit("sip");
            reveal_strlit("iex");
            assert("sip"@[0] != "iex"@[0]);
        }
        if req.instruments.len() == 0 {
            return Err(no_instrument_failure("alpaca"));
        }
        let url = match url_for(req.instruments[0].asset_type.as_str(), feed) {
            Ok(u) => u,
            Err(e) => return Err(e),
        };
        Ok(AlpacaOpen { url, key, secret, feed })
    }
}

/// The sentence a missing Massive key is refused with.
pub open spec fn massive_missing(connector: Seq<char>) -> Seq<char> {
    "connector "@ + connector + " has no Massive api_key , add it on the connector"@
}

impl MassiveLive {
    /// The key and the cluster of the first instrument's market, checked in that order.
    pub fn open_plan(&self, req: &SessionRequest) -> (r: Result<(&'static str, String), Failure>)
        requires
            req.instruments@.len() > 0 ==> channel_ok(req.instruments@[0].asset_type@, req.instruments@[0].symbol@),
        ensures
            ({
                let key = credential(*req.secrets, "api_key"@);
                match r {
                    Ok((cluster, k)) => key == Some(k@) && req.instruments@.len() > 0
                        && (channel_for_spec(req.instruments@[0].asset_type@, req.instruments@[0].symbol@)
                        matches Some(c) && c.0 == cluster@),
                    Err(e) => if key is None {
                        e.is(LiveFault::Auth, massive_missing(req.connector@))
                    } else if req.instruments@.len() == 0 {
                        no_instrument(e, "massive"@)
                    } else {
                        channel_for_spec(req.instruments@[0].asset_type@, req.instruments@[0].symbol@) is None
                            && e.is(LiveFault::Unsupported, "Massive has no live feed for "@ + req.instruments@[0].asset_type@)
                    },
                }
            }),
    {
        let key = match req.secrets.get("api_key") {
            Some(v) => trim_str(v.as_str()),
            None => String::new(),
        };
        proof {
            reveal_strlit("api_key");
        }
        if key.as_str().is_empty() {
            let mut m = "connector ".to_string();
            m.append(req.connector);
            m.append(" has no Massive api_key , add it on the connector");
            return Err(LiveError::err(LiveFault::Auth, m.as_str()));
        }
        if req.instruments.len() == 0 {
            return Err(no_instrument_failure("massive"));
        }
        let first = &req.instruments[0];
        match channel_for(first.asset_type.as_str(), first.symbol.as_str()) {
            Ok((cluster, _)) => Ok((cluster, key)),
            Err(e) => Err(e),
        }
    }
}

impl KrakenLive {
    /// The interval every instrument on the socket shares: the first one's.
    pub fn open_plan(&self, req: &SessionRequest) -> (r: Result<u32, Failure>)
        ensures
            match r {
                Ok(m) => req.instruments@.len() > 0 && m == interval_min_of(req.instruments@[0].timeframe@),
                Err(e) => req.instruments@.len() == 0 && no_instrument(e, "kraken"@),
            },
    {
        if req.instruments.len() == 0 {
            return Err(no_instrument_failure("kraken"));
        }
        Ok(interval_min(req.instruments[0].timeframe.as_str()))
    }
}

} // verus!
