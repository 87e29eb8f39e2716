use coinbot::responder::{
    build_request, normalize_query, plan_for_command, BotHandle, Command, CommandPlan,
    UpstreamRequest,
};

#[test]
fn normalize_empty_query_uses_default_pair() {
    assert_eq!(normalize_query(String::new()), "BTCUSDT");
}

#[test]
fn normalize_short_query_appends_quote_currency() {
    assert_eq!(normalize_query(String::from("btc")), "BTCUSDT");
    assert_eq!(normalize_query(String::from("eth")), "ETHUSDT");
}

#[test]
fn normalize_long_query_only_uppercases() {
    assert_eq!(normalize_query(String::from("dogeusdt")), "DOGEUSDT");
}

#[test]
fn price_plan() {
    let plan = plan_for_command(&Command::P(String::from("btc")));
    match plan {
        CommandPlan::Fetch(p) => {
            assert_eq!(p.key, "p:BTCUSDT");
            assert_eq!(p.ttl_secs, 5);
            assert_eq!(p.template, "p.tera");
            match p.request {
                UpstreamRequest::BinanceTicker { symbol, window } => {
                    assert_eq!(symbol, "BTCUSDT");
                    assert_eq!(window, "1d");
                },
                other => panic!("wrong request {:?}", other),
            }
        },
        other => panic!("wrong plan {:?}", other),
    }
}

#[test]
fn fee_plan() {
    let plan = plan_for_command(&Command::Fee);
    match plan {
        CommandPlan::Fetch(p) => {
            assert_eq!(p.key, "fee");
            assert_eq!(p.ttl_secs, 60);
            assert_eq!(p.template, "fee.tera");
            assert!(matches!(p.request, UpstreamRequest::BitcoinStats));
        },
        other => panic!("wrong plan {:?}", other),
    }
}

#[test]
fn addr_plan() {
    let plan = plan_for_command(&Command::Addr(String::from("bc1qabc")));
    match plan {
        CommandPlan::Fetch(p) => {
            assert_eq!(p.key, "addr:bc1qabc");
            assert_eq!(p.ttl_secs, 100);
            assert_eq!(p.template, "addr.tera");
            match p.request {
                UpstreamRequest::BitcoinAddress { address } => assert_eq!(address, "bc1qabc"),
                other => panic!("wrong request {:?}", other),
            }
        },
        other => panic!("wrong plan {:?}", other),
    }
}

#[test]
fn help_plan() {
    assert!(matches!(plan_for_command(&Command::Help), CommandPlan::HelpText));
}

#[test]
fn ticker_request_url_and_query() {
    let r = build_request(&UpstreamRequest::BinanceTicker {
        symbol: String::from("BTCUSDT"),
        window: String::from("1d"),
    });
    assert_eq!(r.url, "https://api.binance.com/api/v3/ticker");
    assert_eq!(r.query.len(), 2);
    assert_eq!(r.query[0], (String::from("symbol"), String::from("BTCUSDT")));
    assert_eq!(r.query[1], (String::from("windowSize"), String::from("1d")));
}

#[test]
fn stats_request_url() {
    let r = build_request(&UpstreamRequest::BitcoinStats);
    assert_eq!(r.url, "https://api.blockchair.com/bitcoin/stats");
    assert!(r.query.is_empty());
}

#[test]
fn address_request_url() {
    let r = build_request(&UpstreamRequest::BitcoinAddress { address: String::from("bc1qabc") });
    assert_eq!(r.url, "https://api.blockchair.com/bitcoin/dashboards/address/bc1qabc");
    assert!(r.query.is_empty());
}

#[test]
fn handle_is_always_ready() {
    assert!(BotHandle.ready());
}
