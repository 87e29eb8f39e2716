//! The responder's decisions: which upstream request, cache key, time
//! to live and template a command maps to. The transport that carries
//! commands in and replies out is outside the library; it hands a
//! [`Command`] in and performs the returned plan.
use vstd::prelude::*;

use vstd::utf8::encode_utf8;

use crate::text::{to_upper, upper_of};

verus! {

/// An incoming chat command, already parsed by the transport.
#[derive(Clone, Debug)]
pub enum Command {
    /// Price of a trading pair (empty means the default pair).
    P(String),
    /// Current bitcoin transaction fee.
    Fee,
    /// Information on a bitcoin address.
    Addr(String),
    /// Usage information.
    Help,
}

/// A handle standing for a registered raw update handler; it is
/// stateless and always ready to take a request.
pub struct BotHandle;

impl BotHandle {
    /// Readiness never blocks.
    pub fn ready(&self) -> (r: bool)
        ensures
            r,
    {
        true
    }
}

/// One upstream call, described by plain values.
#[derive(Clone, Debug)]
pub enum UpstreamRequest {
    /// The exchange's rolling-window ticker for one symbol.
    BinanceTicker { symbol: String, window: String },
    /// The bitcoin network's current statistics.
    BitcoinStats,
    /// The dashboard for one bitcoin address.
    BitcoinAddress { address: String },
}

/// What the responder decided for a data command: where to fetch, under
/// which cache key and freshness window, and which template renders it.
#[derive(Clone, Debug)]
pub struct FetchPlan {
    pub key: String,
    pub ttl_secs: u64,
    pub request: UpstreamRequest,
    pub template: String,
}

/// The decision for one command: fetch and render, or answer with the
/// usage text.
#[derive(Clone, Debug)]
pub enum CommandPlan {
    Fetch(FetchPlan),
    HelpText,
}

/// The query normalisation of the price command: an empty query falls
/// back to the default pair, a short one (under five bytes) gets the
/// quote currency appended; the uppercase mapping is applied last.
pub open spec fn normalized_query(q: Seq<char>) -> Seq<char> {
    let q1 = if q.len() == 0 {
        "BTCUSDT"@
    } else {
        q
    };
    if (encode_utf8(q1).len() as usize) < 5 {
        q1 + "USDT"@
    } else {
        q1
    }
}

/// Normalises a trading-pair query as the price command expects it.
pub fn normalize_query(q: String) -> (r: String)
    ensures
        r@ == upper_of(normalized_query(q@)),
{
    let q1: String = if q.as_str().unicode_len() == 0 {
        String::from_str("BTCUSDT")
    } else {
        q
    };
    let q2: String = if q1.as_str().len() < 5 {
        q1.concat("USDT")
    } else {
        q1
    };
    to_upper(q2.as_str())
}

/// The upstream endpoints, as URL and query pairs.
pub struct HttpRequest {
    pub url: String,
    pub query: Vec<(String, String)>,
}

/// Describes the HTTP call for an upstream request: the ticker endpoint
/// takes the symbol and window as query parameters; the bitcoin
/// endpoints encode everything in the path.
pub fn build_request(req: &UpstreamRequest) -> (r: HttpRequest)
    ensures
        match *req {
            UpstreamRequest::BinanceTicker { symbol, window } => {
                &&& r.url@ == "https://api.binance.com/api/v3/ticker"@
                &&& r.query@.len() == 2
                &&& r.query@[0].0@ == "symbol"@ && r.query@[0].1@ == symbol@
                &&& r.query@[1].0@ == "windowSize"@ && r.query@[1].1@ == window@
            },
            UpstreamRequest::BitcoinStats => {
                &&& r.url@ == "https://api.blockchair.com/bitcoin/stats"@
                &&& r.query@.len() == 0
            },
            UpstreamRequest::BitcoinAddress { address } => {
                &&& r.url@ == "https://api.blockchair.com/bitcoin/dashboards/address/"@
                    + address@
                &&& r.query@.len() == 0
            },
        },
{
    match req {
        UpstreamRequest::BinanceTicker { symbol, window } => {
            let mut query: Vec<(String, String)> = Vec::new();
            query.push((String::from_str("symbol"), symbol.clone()));
            query.push((String::from_str("windowSize"), window.clone()));
            HttpRequest { url: String::from_str("https://api.binance.com/api/v3/ticker"), query }
        },
        UpstreamRequest::BitcoinStats => HttpRequest {
            url: String::from_str("https://api.blockchair.com/bitcoin/stats"),
            query: Vec::new(),
        },
        UpstreamRequest::BitcoinAddress { address } => HttpRequest {
            url: String::from_str("https://api.blockchair.com/bitcoin/dashboards/address/")
                .concat(address.as_str()),
            query: Vec::new(),
        },
    }
}

/// Maps a command to its plan: the price command is served for five
/// seconds under `p:` and its normalised symbol, the fee command for
/// sixty seconds under `fee`, the address command for a hundred seconds
/// under `addr:` and the address; help needs no fetch.
pub fn plan_for_command(cmd: &Command) -> (r: CommandPlan)
    ensures
        match *cmd {
            Command::P(q) => r matches CommandPlan::Fetch(p) && {
                &&& p.key@ == "p:"@ + upper_of(normalized_query(q@))
                &&& p.ttl_secs == 5
                &&& p.request matches UpstreamRequest::BinanceTicker { symbol, window }
                    && symbol@ == upper_of(normalized_query(q@)) && window@ == "1d"@
                &&& p.template@ == "p.tera"@
            },
            Command::Fee => r matches CommandPlan::Fetch(p) && {
                &&& p.key@ == "fee"@
                &&& p.ttl_secs == 60
                &&& p.request is BitcoinStats
                &&& p.template@ == "fee.tera"@
            },
            Command::Addr(a) => r matches CommandPlan::Fetch(p) && {
                &&& p.key@ == "addr:"@ + a@
                &&& p.ttl_secs == 100
                &&& p.request matches UpstreamRequest::BitcoinAddress { address } && address@
                    == a@
                &&& p.template@ == "addr.tera"@
            },
            Command::Help => r is HelpText,
        },
{
    match cmd {
        Command::P(q) => {
            let symbol = normalize_query(q.clone());
            CommandPlan::Fetch(
                FetchPlan {
                    key: String::from_str("p:").concat(symbol.as_str()),
                    ttl_secs: 5,
                    request: UpstreamRequest::BinanceTicker {
                        symbol,
                        window: String::from_str("1d"),
                    },
                    template: String::from_str("p.tera"),
                },
            )
        },
        Command::Fee => CommandPlan::Fetch(
            FetchPlan {
                key: String::from_str("fee"),
                ttl_secs: 60,
                request: UpstreamRequest::BitcoinStats,
                template: String::from_str("fee.tera"),
            },
        ),
        Command::Addr(a) => CommandPlan::Fetch(
            FetchPlan {
                key: String::from_str("addr:").concat(a.as_str()),
                ttl_secs: 100,
                request: UpstreamRequest::BitcoinAddress { address: a.clone() },
                template: String::from_str("addr.tera"),
            },
        ),
        Command::Help => CommandPlan::HelpText,
    }
}

} // verus!
