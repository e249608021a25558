//! Live market data: why a feed stopped, which socket and channel an instrument rides,
//! how the fold buckets source updates into the chart's timeframe, and what each provider
//! calls its channels.

pub mod fault;
pub mod instrument;
pub mod alpaca;
pub mod crypto_venues;
pub mod massive;
pub mod bars;
pub mod agg;
pub mod rollover;
pub mod frame;
pub mod candle_feeds;
pub mod capitalcom;
pub mod hub;
pub mod reach;
pub mod handshake;
pub mod ibkr;
pub mod session;
