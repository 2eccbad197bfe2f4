use quant_data::add;
use quant_data::bar::{calculate_price_change, is_valid_data, requested_days, DataSource, FetchError, MarketData};
use quant_data::binance::BinanceDataProvider;
use quant_data::chart::{is_buy_signal, is_bull, x_label_count, ChartPlotter, ChartStyle};
use quant_data::yahoo::{convert_quote, history_window, yahoo_symbol};
use quant_data::crypto::{coin_id, latest_of, market_chart_url, CryptoDataProvider};
use quant_data::decimal::{format_amount, format_int, parse_int, SCALE};
use quant_data::number::{read_amount, read_stored_amount};
use quant_data::display::{format_change, format_countdown, format_percent_change, format_price, format_volume};
use quant_data::local::{LocalDataProvider, LocalMarketData};
use quant_data::monitor::{pad_right, MarketMonitor};
use quant_data::ratelimit::{RateLimiter, MIN_REQUEST_INTERVAL_MS, PENALTY_MS};
use quant_data::services::{capitalize, parse_port, AppConfig, CommonError, Config, CoreService, UserService, UserServiceImpl};
use quant_data::synth::{synthesize_bar, synthesize_bars};

fn bar(symbol: &str, ts: i64, open: u64, close: u64) -> MarketData {
    MarketData {
        symbol: symbol.to_string(),
        timestamp: ts,
        open,
        high: close.max(open),
        low: close.min(open),
        close,
        volume: 1_000 * SCALE,
        source: DataSource::Crypto,
    }
}

#[test]
fn it_works() {
    let result = add(2, 2);
    assert_eq!(result, 4);
}

#[test]
fn percent_change_rise_and_fall() {
    assert_eq!(format_percent_change(100 * SCALE, 105 * SCALE), "+5.00%");
    assert_eq!(format_percent_change(100 * SCALE, 95 * SCALE), "-5.00%");
    assert_eq!(format_percent_change(100, 105), "+5.00%");
    assert_eq!(format_percent_change(3 * SCALE, 4 * SCALE), "+33.33%");
    assert_eq!(format_percent_change(0, 5), "+inf%");
    assert_eq!(format_percent_change(0, 0), "NaN%");
}

#[test]
fn change_is_coloured() {
    assert_eq!(format_change(100, 105), "\x1b[32m+5.00%\x1b[0m");
    assert_eq!(format_change(100, 95), "\x1b[31m-5.00%\x1b[0m");
    assert_eq!(format_change(100, 100), "\x1b[32m+0.00%\x1b[0m");
}

#[test]
fn volume_suffixes() {
    assert_eq!(format_volume(1_500_000_000 * SCALE), "1.50B");
    assert_eq!(format_volume(2_500_000 * SCALE), "2.50M");
    assert_eq!(format_volume(500 * SCALE), "500.00");
    assert_eq!(format_volume(1_000 * SCALE), "1.00K");
    assert_eq!(format_volume(999 * SCALE), "999.00");
    assert_eq!(format_volume(0), "0.00");
}

#[test]
fn price_as_currency() {
    assert_eq!(format_price(6_723_412_345_678), "$67234.12");
    assert_eq!(format_price(99_500_000), "$1.00");
    assert_eq!(format_price(5), "$0.00");
    assert_eq!(format_price(0), "$0.00");
}

#[test]
fn countdown_text() {
    assert_eq!(format_countdown(5_000, 5_000), "updating...");
    assert_eq!(
        format_countdown(1_500, 5_000),
        "3s until next update (API limit: 10 requests per minute)"
    );
}

#[test]
fn amounts_read_and_written() {
    assert_eq!(read_stored_amount("67234.12000000"), Some(6_723_412_000_000));
    assert_eq!(read_stored_amount("5"), Some(5 * SCALE));
    assert_eq!(read_stored_amount("0.5"), Some(SCALE / 2));
    assert_eq!(read_stored_amount("0.123456789"), Some(12_345_679));
    assert_eq!(read_stored_amount("0.30000000000000004"), Some(30_000_000));
    assert_eq!(read_stored_amount("1e-7"), Some(10));
    assert_eq!(read_stored_amount("1."), Some(SCALE));
    assert_eq!(read_stored_amount(".5"), Some(SCALE / 2));
    assert_eq!(read_stored_amount("-0.0"), Some(0));
    assert_eq!(read_stored_amount("-1"), None);
    assert_eq!(read_stored_amount("abc"), None);
    assert_eq!(read_stored_amount(""), None);
    assert_eq!(read_stored_amount("184467440737.09551615"), Some(u64::MAX));
    assert_eq!(read_stored_amount("184467440737.09551616"), Some(u64::MAX));
    assert_eq!(format_amount(150_000_000), "1.50000000");
    assert_eq!(format_amount(7), "0.00000007");
    assert_eq!(parse_int("-42"), Some(-42));
    assert_eq!(parse_int("1700000000"), Some(1_700_000_000));
    assert_eq!(parse_int("-"), None);
    assert_eq!(parse_int("9223372036854775808"), None);
    assert_eq!(parse_int("-9223372036854775808"), Some(i64::MIN));
    assert_eq!(format_int(-42), "-42");
    assert_eq!(format_int(i64::MIN), "-9223372036854775808");
}

#[test]
fn synthesized_bar_follows_the_draws() {
    let b = synthesize_bar("BTC", 1_700_000_000_123, 100 * SCALE, 0, 1_000_000, 1_000_000, 0);
    assert_eq!(b.close, 100 * SCALE);
    assert_eq!(b.open, 99 * SCALE);
    assert_eq!(b.high, 102 * SCALE);
    assert_eq!(b.low, 98 * SCALE);
    assert_eq!(b.volume, 750_000 * SCALE);
    assert_eq!(b.timestamp, 1_700_000_000);
    assert_eq!(b.source, DataSource::Crypto);
    let c = synthesize_bar("ETH", -1_500, 50 * SCALE, 500_000, 0, 0, 1_000_000);
    assert_eq!(c.open, 50 * SCALE);
    assert_eq!(c.high, 50 * SCALE);
    assert_eq!(c.low, 50 * SCALE);
    assert_eq!(c.volume, 1_250_000 * SCALE);
    assert_eq!(c.timestamp, -1);
}

#[test]
fn synthesized_bars_stay_in_bounds() {
    let points: Vec<(i64, u64)> = (0..50).map(|i| (i * 86_400_000, (1_000 + i as u64) * SCALE)).collect();
    let bars = synthesize_bars("BTC", &points);
    assert_eq!(bars.len(), points.len());
    for (b, (ms, price)) in bars.iter().zip(points.iter()) {
        assert_eq!(b.close, *price);
        assert_eq!(b.timestamp, ms / 1000);
        assert!(b.open >= price * 49 / 50 && b.open <= price * 51 / 50);
        assert!(b.high >= *price && b.high <= price * 51 / 50);
        assert!(b.low <= *price && b.low >= price * 49 / 50);
        assert!(b.volume >= 500_000 * SCALE && b.volume <= 1_500_000 * SCALE);
    }
}

#[test]
fn requests_are_spaced_by_the_interval() {
    let mut l = RateLimiter::new(0, MIN_REQUEST_INTERVAL_MS);
    let first = l.acquire(0);
    assert_eq!(first, 6_500);
    let mut issued = vec![l.last_request_ms];
    for now in [6_500u64, 6_600, 20_000, 20_001] {
        l.acquire(now);
        issued.push(l.last_request_ms);
    }
    assert_eq!(issued, vec![6_500, 13_000, 19_500, 26_000, 32_500]);
    for w in issued.windows(2) {
        assert!(w[1] - w[0] >= MIN_REQUEST_INTERVAL_MS);
    }
    assert!(issued[4] - issued[0] >= 4 * MIN_REQUEST_INTERVAL_MS);
    assert_eq!(l.acquire(100_000), 0);
}

#[test]
fn quota_violation_delays_next_call() {
    let mut p = CryptoDataProvider::new(0);
    let plan = p.begin_fetch("btc", 1, 10_000).unwrap();
    assert_eq!(plan.wait_ms, 0);
    let (wait, res) = p.finish_fetch("btc", 429, None, None, 10_500);
    assert_eq!(res, Err(FetchError::RateLimited));
    assert_eq!(wait, PENALTY_MS);
    let next = p.begin_fetch("eth", 1, 10_600).unwrap();
    assert!(10_600 + next.wait_ms >= 10_500 + PENALTY_MS);
    let (wait2, res2) = p.finish_fetch("btc", 400, Some(429), Some(vec![(0, SCALE)]), 80_000);
    assert_eq!(res2, Err(FetchError::RateLimited));
    assert!(wait2 >= PENALTY_MS);
}

#[test]
fn upstream_errors() {
    let mut p = CryptoDataProvider::new(0);
    let (wait, res) = p.finish_fetch("btc", 500, Some(10), None, 1_000);
    assert_eq!(wait, 0);
    assert!(matches!(res, Err(FetchError::UpstreamError(_))));
    let (_, res) = p.finish_fetch("btc", 200, None, None, 1_000);
    assert!(matches!(res, Err(FetchError::UpstreamError(_))));
    let (_, res) = p.finish_fetch("btc", 200, None, Some(vec![(0, u64::MAX)]), 1_000);
    assert!(matches!(res, Err(FetchError::UpstreamError(_))));
    let (_, res) = p.finish_fetch("btc", 200, None, Some(vec![(86_400_000, 7 * SCALE)]), 1_000);
    let bars = res.unwrap();
    assert_eq!(bars.len(), 1);
    assert_eq!(bars[0].close, 7 * SCALE);
    assert_eq!(bars[0].symbol, "btc");
    assert!(matches!(latest_of(Vec::new()), Err(FetchError::UpstreamError(_))));
    assert_eq!(latest_of(bars.clone()).unwrap(), bars[0]);
}

#[test]
fn unknown_symbol_is_not_found_at_once() {
    let mut p = CryptoDataProvider::new(0);
    let before = p.limiter;
    let r = p.begin_fetch("FOO", 7, 1_000);
    assert!(matches!(r, Err(FetchError::NotFound(_))));
    assert_eq!(p.limiter, before);
    assert_eq!(coin_id("BTC"), Some("bitcoin"));
    assert_eq!(coin_id("XRP"), Some("ripple"));
    assert_eq!(coin_id("btc"), None);
    let plan = p.begin_fetch("doge", 30, 1_000).unwrap();
    assert_eq!(
        plan.url,
        "https://api.coingecko.com/api/v3/coins/dogecoin/market_chart?vs_currency=usd&days=30&interval=daily"
    );
    assert_eq!(plan.wait_ms, 5_500);
    assert_eq!(market_chart_url("bitcoin", -1), "https://api.coingecko.com/api/v3/coins/bitcoin/market_chart?vs_currency=usd&days=-1&interval=daily");
}

#[test]
fn local_store_round_trip() {
    let rows = vec![
        LocalMarketData { symbol: "BTC".to_string(), timestamp: 1_700_000_000, open: 3_000_012_345_678, high: 3_100_000_000_000, low: 2_900_000_000_000, close: 3_050_000_000_001, volume: 12 },
        LocalMarketData { symbol: "BTC".to_string(), timestamp: -5, open: 0, high: 1, low: 0, close: 1, volume: u64::MAX },
        LocalMarketData { symbol: "a,\"b\"".to_string(), timestamp: 1_700_086_400, open: SCALE, high: SCALE, low: SCALE, close: SCALE, volume: 0 },
    ];
    let bytes = LocalDataProvider::encode_rows(&rows).unwrap();
    let text = String::from_utf8(bytes.clone()).unwrap();
    assert!(text.starts_with("symbol,timestamp,open,high,low,close,volume\n"));
    let back = LocalDataProvider::decode_rows(&bytes).unwrap();
    assert_eq!(back, rows);
    let bars = LocalDataProvider::history_from_rows(back.clone(), None, None);
    assert_eq!(bars.len(), 3);
    for (b, r) in bars.iter().zip(rows.iter()) {
        assert_eq!((&b.symbol, b.timestamp, b.open, b.high, b.low, b.close, b.volume), (&r.symbol, r.timestamp, r.open, r.high, r.low, r.close, r.volume));
        assert_eq!(b.source, DataSource::Local);
    }
    let window = LocalDataProvider::history_from_rows(back.clone(), Some(0), Some(1_700_000_000));
    assert_eq!(window.len(), 1);
    assert_eq!(window[0].timestamp, 1_700_000_000);
    let latest = LocalDataProvider::latest_from_rows(back).unwrap();
    assert_eq!(latest.timestamp, 1_700_086_400);
    assert!(matches!(LocalDataProvider::latest_from_rows(Vec::new()), Err(FetchError::NotFound(_))));
}

#[test]
fn local_store_rejects_bad_files() {
    let bad_row = b"symbol,timestamp,open,high,low,close,volume\nBTC,12,x,1,1,1,1\n".to_vec();
    assert!(matches!(LocalDataProvider::decode_rows(&bad_row), Err(FetchError::LocalStorageError(_))));
    let no_header = b"BTC,12,1,1,1,1,1\n".to_vec();
    assert!(matches!(LocalDataProvider::decode_rows(&no_header), Err(FetchError::LocalStorageError(_))));
    let ragged = b"symbol,timestamp,open,high,low,close,volume\nBTC,12\n".to_vec();
    assert!(matches!(LocalDataProvider::decode_rows(&ragged), Err(FetchError::LocalStorageError(_))));
    let empty_rows = b"symbol,timestamp,open,high,low,close,volume\n".to_vec();
    assert_eq!(LocalDataProvider::decode_rows(&empty_rows).unwrap(), Vec::new());
    let p = LocalDataProvider::new("data");
    assert_eq!(p.get_file_path("BTC"), "data/btc.csv");
}

#[test]
fn monitor_replaces_bars_wholesale() {
    let mut m = MarketMonitor::new(vec!["BTC".to_string(), "ETH".to_string()], 5_000, 0);
    m.update_market_data(vec![Ok(bar("BTC", 1, 100, 105)), Ok(bar("ETH", 1, 10, 9))], 10);
    assert_eq!(m.market_data.len(), 2);
    assert_eq!(m.last_update_ms, 10);
    assert_eq!(m.display_rows().len(), 2);
    assert!(!m.needs_update(4_000));
    assert!(m.needs_update(5_010));
    m.update_market_data(
        vec![Ok(bar("BTC", 2, 105, 110)), Err(FetchError::UpstreamError("down".to_string()))],
        5_010,
    );
    assert_eq!(m.market_data, vec![bar("BTC", 2, 105, 110)]);
    assert_eq!(m.last_update_ms, 5_010);
    m.update_market_data(vec![Err(FetchError::RateLimited), Err(FetchError::RateLimited)], 10_020);
    assert_eq!(m.market_data, vec![bar("BTC", 2, 105, 110)]);
    assert_eq!(m.last_update_ms, 5_010);
    assert_eq!(m.format_countdown(6_010), "4s until next update (API limit: 10 requests per minute)");
    let rows = m.display_rows();
    assert_eq!(
        rows[0],
        "BTC      $0.00        \x1b[32m+4.76%\x1b[0m $0.00        $0.00        $0.00        1.00K       "
    );
}

#[test]
fn padding_keeps_long_text() {
    assert_eq!(pad_right("ab".to_string(), 4), "ab  ");
    assert_eq!(pad_right("abcdef".to_string(), 4), "abcdef");
}

#[test]
fn exchange_helpers() {
    assert_eq!(BinanceDataProvider::convert_symbol("btc"), "BTCUSDT");
    assert_eq!(BinanceDataProvider::convert_interval(1), "1m");
    assert_eq!(BinanceDataProvider::convert_interval(7), "15m");
    assert_eq!(BinanceDataProvider::convert_interval(30), "1h");
    assert_eq!(BinanceDataProvider::convert_interval(31), "1d");
    let k = BinanceDataProvider::convert_kline("BTC", 1_700_000_000_999, "1.5", "2", "oops", "1.75000000", "");
    assert_eq!((k.open, k.high, k.low, k.close, k.volume), (150_000_000, 200_000_000, 0, 175_000_000, 0));
    assert_eq!(k.timestamp, 1_700_000_000);
    assert_eq!(k.source, DataSource::Binance);
    assert_eq!(yahoo_symbol("AAPL"), "AAPL.US");
    let q = convert_quote("AAPL.US", 1_700_000_000, 1, 2, 3, 4, 10);
    assert_eq!((q.timestamp, q.volume, q.source), (1_700_000_000, 10 * SCALE, DataSource::Yahoo));
    assert_eq!(convert_quote("X", 0, 0, 0, 0, 0, u64::MAX).volume, u64::MAX);
    assert_eq!(requested_days(None, None, 1_700_000_000), 30);
    assert_eq!(requested_days(Some(0), Some(86_400 * 7 + 5), 0), 7);
    assert_eq!(requested_days(Some(100_000), Some(0), 0), -1);
}

#[test]
fn bar_checks() {
    let b = bar("BTC", 0, 100, 105);
    assert!(is_valid_data(&b));
    assert!(!is_valid_data(&bar("BTC", 0, 100, 0)));
    assert_eq!(calculate_price_change(&vec![bar("A", 0, 1, 100), bar("A", 1, 1, 105)]), Some(500));
    assert_eq!(calculate_price_change(&vec![bar("A", 0, 1, 100), bar("A", 1, 1, 95)]), Some(-500));
    assert_eq!(calculate_price_change(&vec![bar("A", 0, 1, 100)]), None);
    assert_eq!(calculate_price_change(&vec![bar("A", 0, 1, 0), bar("A", 1, 1, 5)]), None);
}

#[test]
fn services_behave() {
    assert_eq!(capitalize("hello"), "Hello");
    assert_eq!(capitalize(""), "");
    assert_eq!(capitalize("ßa"), "SSa");
    let mut users = UserServiceImpl::new();
    assert_eq!(users.get_user(0).err(), Some(CommonError::InvalidInput("Invalid user ID".to_string())));
    let u = users.get_user(42).ok().unwrap();
    assert_eq!((u.id, u.name.as_str(), u.email.as_str()), (42, "User 42", "user42@example.com"));
    let a = users.create_user("a".to_string(), "a@x".to_string()).ok().unwrap();
    let b = users.create_user("b".to_string(), "b@x".to_string()).ok().unwrap();
    assert_eq!((a.id, b.id), (1, 2));
    let cfg = AppConfig::defaults("0.1.0", 4);
    assert_eq!(cfg.server.port, 8080);
    let core = CoreService::new(Config::from_app_config(cfg));
    assert_eq!(core.config.name, "my-app");
    assert_eq!(core.process("x").ok().unwrap(), "Processed: x");
}

#[test]
fn chart_averages_and_extent() {
    let data: Vec<MarketData> = (0..20)
        .map(|i| MarketData {
            symbol: "AAPL".to_string(),
            timestamp: 1_704_067_200 + i * 86_400,
            open: (100 + i as u64) * SCALE,
            high: (105 + i as u64) * SCALE,
            low: (95 + i as u64) * SCALE,
            close: (102 + i as u64) * SCALE,
            volume: 1_000_000 * SCALE,
            source: DataSource::Local,
        })
        .collect();
    let mut plotter = ChartPlotter::new(data).with_style(ChartStyle::default_style()).with_ma_periods(vec![5, 10, 20]);
    plotter.add_signal(1_704_067_200 + 5 * 86_400, 105 * SCALE, "BUY");
    plotter.add_signal(1_704_067_200 + 15 * 86_400, 115 * SCALE, "SELL");
    assert_eq!(plotter.signals.len(), 2);
    let ma5 = plotter.calculate_ma(5);
    assert_eq!(ma5.len(), 16);
    assert_eq!(ma5[0], (1_704_067_200 + 4 * 86_400, 104 * SCALE));
    let ma20 = plotter.calculate_ma(20);
    assert_eq!(ma20, vec![(1_704_067_200 + 19 * 86_400, 11_150_000_000)]);
    assert!(plotter.calculate_ma(21).is_empty());
    assert_eq!(plotter.price_extent(), Some((95 * SCALE, 124 * SCALE)));
    assert_eq!(plotter.first_data().unwrap().timestamp, 1_704_067_200);
    assert_eq!(plotter.last_data().unwrap().timestamp, 1_704_067_200 + 19 * 86_400);
    assert_eq!(plotter.get_data().len(), 20);
    assert!(is_bull(&plotter.get_data()[0]));
    assert!(is_buy_signal("BUY"));
    assert!(!is_buy_signal("SELL"));
    assert_eq!((x_label_count(7), x_label_count(20), x_label_count(50), x_label_count(51)), (7, 10, 10, 5));
    assert!(ChartPlotter::new(Vec::new()).price_extent().is_none());
}

#[test]
fn config_from_environment() {
    let base = || AppConfig::defaults("0.1.0", 8);
    let c = base()
        .with_env(Some("0.0.0.0".to_string()), Some("9000".to_string()), None, Some("debug".to_string()))
        .ok()
        .unwrap();
    assert_eq!((c.server.host.as_str(), c.server.port, c.logging.level.as_str()), ("0.0.0.0", 9000, "debug"));
    assert_eq!(c.database.url, "postgres://localhost/db");
    assert_eq!(c.server.workers, 8);
    let plus = base().with_env(None, Some("+81".to_string()), None, None).ok().unwrap();
    assert_eq!(plus.server.port, 81);
    let bad = base().with_env(None, Some("70000".to_string()), None, None);
    assert!(matches!(bad, Err(CommonError::ParseError(_))));
    let empty = base().with_env(None, Some("".to_string()), None, None);
    assert!(matches!(empty, Err(CommonError::ParseError(_))));
    let core = CoreService::new(Config::from_app_config(base()));
    assert!(core.start().is_ok());
}

#[test]
fn chart_style_and_file_name() {
    let s: ChartStyle = Default::default();
    assert_eq!((s.width, s.height, s.ma_colors.len()), (1200, 800, 3));
    assert_eq!(quant_data::chart::chart_file_name("BTC"), "btc_chart.png");
}

#[test]
fn lenient_amounts() {
    assert_eq!(read_amount("67234.12000000"), 6_723_412_000_000);
    assert_eq!(read_amount("1.123456789"), 112_345_679);
    assert_eq!(read_amount("1.123456784"), 112_345_678);
    assert_eq!(read_amount("0.999999995"), SCALE);
    assert_eq!(read_amount("5."), 5 * SCALE);
    assert_eq!(read_amount(".5"), SCALE / 2);
    assert_eq!(read_amount("+2"), 2 * SCALE);
    assert_eq!(read_amount("-1.5"), 0);
    assert_eq!(read_amount("."), 0);
    assert_eq!(read_amount("abc"), 0);
    assert_eq!(read_amount(""), 0);
    assert_eq!(read_amount("99999999999999999999"), u64::MAX);
    let k = BinanceDataProvider::convert_kline("BTC", 0, "1.123456789", "2.0000000051", "x", "3", "0.000000004");
    assert_eq!((k.open, k.high, k.low, k.close, k.volume), (112_345_679, 200_000_001, 0, 3 * SCALE, 0));
}

#[test]
fn first_round_is_due_at_once() {
    let mut m = MarketMonitor::new(vec!["BTC".to_string()], 300_000, 1_000);
    assert!(m.needs_update(1_000));
    m.update_market_data(vec![Err(FetchError::RateLimited)], 1_500);
    assert!(!m.needs_update(2_000));
    assert_eq!(m.last_update_ms, 1_000);
    assert!(m.needs_update(301_000));
}

#[test]
fn user_ids_count_up() {
    let mut users = UserServiceImpl::new();
    for k in 1..=5u64 {
        let u = users.create_user(format!("u{}", k), format!("u{}@x", k)).ok().unwrap();
        assert_eq!(u.id, k);
    }
    let mut last = UserServiceImpl { next_id: u64::MAX };
    assert_eq!(last.create_user("a".to_string(), "b".to_string()).ok().unwrap().id, u64::MAX);
    assert_eq!(last.next_id, 0);
}

#[test]
fn ports_and_windows() {
    assert_eq!(parse_port("8080"), Some(8080));
    assert_eq!(parse_port("+1"), Some(1));
    assert_eq!(parse_port("65536"), None);
    assert_eq!(parse_port("-1"), None);
    assert_eq!(parse_port("+"), None);
    assert_eq!(parse_port(" 80"), None);
    assert_eq!(history_window(None, None, 3_000_000), (408_000, 3_000_000));
    assert_eq!(history_window(Some(5), Some(9), 3_000_000), (5, 9));
}

#[test]
fn written_rows_read_back() {
    let rows: Vec<LocalMarketData> = (0..10)
        .map(|i| LocalMarketData {
            symbol: if i % 2 == 0 { "ETH".to_string() } else { "we,ird\"\nname".to_string() },
            timestamp: -3 + i * 1_000,
            open: i as u64 * 7,
            high: u64::MAX - i as u64,
            low: 0,
            close: 123_456_789 * i as u64,
            volume: SCALE,
        })
        .collect();
    let bytes = LocalDataProvider::encode_rows(&rows).unwrap();
    assert_eq!(LocalDataProvider::decode_rows(&bytes).unwrap(), rows);
    let none = LocalDataProvider::encode_rows(&Vec::new()).unwrap();
    assert_eq!(none, b"symbol,timestamp,open,high,low,close,volume\n".to_vec());
    assert_eq!(LocalDataProvider::decode_rows(&none).unwrap(), Vec::new());
}

#[test]
fn amounts_with_exponents() {
    assert_eq!(read_amount("1e3"), 1_000 * SCALE);
    assert_eq!(read_amount("1E+2"), 100 * SCALE);
    assert_eq!(read_amount("1.5e-8"), 2);
    assert_eq!(read_amount("2.5e-9"), 0);
    assert_eq!(read_amount("5e-9"), 1);
    assert_eq!(read_amount("1.23456789123e2"), 12_345_678_912);
    assert_eq!(read_amount("6.7234e4"), 6_723_400_000_000);
    assert_eq!(read_amount("1e400"), u64::MAX);
    assert_eq!(read_amount("0e400"), 0);
    assert_eq!(read_amount("1e-400"), 0);
    assert_eq!(read_amount("1e99999999999999999999999999999999999999999"), u64::MAX);
    assert_eq!(read_amount("1e-99999999999999999999999999999999999999999"), 0);
    assert_eq!(read_amount("-1e3"), 0);
    assert_eq!(read_amount("1e"), 0);
    assert_eq!(read_amount("e5"), 0);
    assert_eq!(read_amount("1e2e3"), 0);
    assert_eq!(read_amount(".e1"), 0);
    let k = BinanceDataProvider::convert_kline("BTC", 0, "1e0", "2.5E1", "1e-8", "3", "4e2");
    assert_eq!((k.open, k.high, k.low, k.close, k.volume), (SCALE, 25 * SCALE, 1, 3 * SCALE, 400 * SCALE));
}

#[test]
fn float_style_file_reads() {
    let text = b"symbol,timestamp,open,high,low,close,volume\nBTC,1700000000,0.30000000000000004,1e-7,100.0,67234.123456789,1500000.0\n".to_vec();
    let rows = LocalDataProvider::decode_rows(&text).unwrap();
    assert_eq!(rows.len(), 1);
    let r = &rows[0];
    assert_eq!((r.open, r.high, r.low, r.close, r.volume), (30_000_000, 10, 100 * SCALE, 6_723_412_345_679, 1_500_000 * SCALE));
}
