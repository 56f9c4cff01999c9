use hq_monitor::biz::{process_header, BizContext, HeaderError};
use hq_monitor::config::{get_seconds, Configuration, TradeSession};
use hq_monitor::text::ParseIntError;

fn config() -> Configuration {
    Configuration::new(
        "prod".to_string(),
        "/data/mktdt00.txt".to_string(),
        30,
        vec![],
        vec![
            TradeSession { start: 93000, end: 113000 },
            TradeSession { start: 130000, end: 150000 },
        ],
    )
}

/// A header whose time field holds `field` (21 bytes).
fn header(field: &str) -> String {
    format!("{:<49}{}{:<20}\n", "HEADER|FAST|1.0|2.0|0000000123|", field, "|12345678|")
}

#[test]
fn seconds_of_clock_times() {
    assert_eq!(get_seconds(0), 0);
    assert_eq!(get_seconds(153005), 15 * 3600 + 30 * 60 + 5);
    assert_eq!(get_seconds(4294967295), 429496 * 3600 + 72 * 60 + 95);
}

#[test]
fn trade_time_within_sessions() {
    let c = config();
    assert!(c.is_trade_time(93000));
    assert!(c.is_trade_time(113000));
    assert!(!c.is_trade_time(113001));
    assert!(c.is_trade_time(140000));
    assert!(!c.is_trade_time(80000));
}

#[test]
fn config_clone_keeps_values() {
    let c = config();
    let d = c.clone();
    assert_eq!(d._env, c._env);
    assert_eq!(d._txt_file, c._txt_file);
    assert_eq!(d._txt_interval, 30);
    assert_eq!(d._trade_sessions.len(), 2);
}

#[test]
fn new_context_starts_at_zero() {
    let ctx = BizContext::new(config());
    assert_eq!(ctx._txt_time, 0);
    assert_eq!(ctx._txt_adjust, 0);
    assert_eq!(ctx._dbf_time, 0);
    assert_eq!(ctx._dbf_adjust, 0);
}

#[test]
fn parse_time_combines_fields() {
    let ctx = BizContext::new(config());
    let ts: Vec<&[u8]> = vec![b"15", b"30", b"05"];
    assert_eq!(ctx.parse_time(&ts), Ok(153005));
    let bad: Vec<&[u8]> = vec![b"15", b"", b"x"];
    assert_eq!(ctx.parse_time(&bad), Err(ParseIntError::Empty));
    let bad2: Vec<&[u8]> = vec![b"1a", b"", b"x"];
    assert_eq!(ctx.parse_time(&bad2), Err(ParseIntError::InvalidDigit));
}

#[test]
fn report_alarm_text() {
    let ctx = BizContext::new(config());
    let a = ctx.report_alarm(153005);
    assert_eq!(a._id, 2000);
    assert_eq!(a._source, "HQ MONITOR");
    assert_eq!(a._target, "SH_TXT_FILE");
    assert_eq!(a._description, "Shanghai stopped: market_time: 153005, ");
    assert_eq!(a._time, "");
    assert_eq!(a._env, "prod");
}

#[test]
fn lagging_market_raises_alarm() {
    let mut ctx = BizContext::new(config());
    // Ten-o-clock market time, seen a minute later.
    let a = ctx.check_time(100000, 100100);
    assert!(a.is_some());
    assert_eq!(ctx._txt_time, 100000);
    assert_eq!(ctx._txt_adjust, 0);
}

#[test]
fn adjustment_measured_once() {
    let mut ctx = BizContext::new(config());
    assert!(ctx.check_time(100000, 100000).is_none());
    // Five seconds later in market time, 66 seconds later locally.
    assert!(ctx.check_time(100005, 100106).is_none());
    assert_eq!(ctx._txt_adjust, 61);
    // The adjustment is kept from then on.
    assert!(ctx.check_time(100010, 100111).is_none());
    assert_eq!(ctx._txt_adjust, 61);
    // Market stalls: local time runs ahead by the interval.
    assert!(ctx.check_time(100010, 100141).is_some());
    // Market runs ahead of local time by the interval.
    assert!(ctx.check_time(100200, 100230).is_some());
    assert_eq!(ctx._txt_adjust, 61);
}

#[test]
fn off_hours_check_changes_nothing() {
    let mut ctx = BizContext::new(config());
    assert!(ctx.check_time(80000, 100000).is_none());
    assert_eq!(ctx._txt_time, 0);
    // Market time in session, local time out of session: no alarm.
    assert!(ctx.check_time(100000, 120000).is_none());
    assert_eq!(ctx._txt_time, 100000);
}

#[test]
fn header_field_extracted() {
    let h = header("20180124-15:30:05.700");
    assert_eq!(process_header(&h), Ok(&b"20180124-15:30:05.700"[..]));
    assert_eq!(process_header("short"), Err(HeaderError::InvalidData));
}

#[test]
fn short_header_is_refused() {
    let mut ctx = BizContext::new(config());
    assert!(ctx.check_txt_is_safe("HEADER", 100000));
    assert!(matches!(ctx.check_txt("HEADER", 100000), Err(HeaderError::InvalidData)));
    let eighty = "x".repeat(80);
    assert!(matches!(ctx.check_txt(&eighty, 100000), Err(HeaderError::InvalidData)));
}

#[test]
fn header_time_is_checked() {
    let mut ctx = BizContext::new(config());
    let h = header("20180124-10:00:00.700");
    assert!(ctx.check_txt_is_safe(&h, 100100));
    let r = ctx.check_txt(&h, 100100);
    let a = r.unwrap().unwrap();
    assert_eq!(a._description, "Shanghai stopped: market_time: 100000, ");
    assert_eq!(ctx._txt_time, 100000);
    let r2 = ctx.check_sh_market(&header("20180124-10:01:00.000"), 100100);
    assert!(r2.unwrap().is_none());
    assert_eq!(ctx._txt_time, 100100);
}

#[test]
fn unreadable_time_is_passed_over() {
    let mut ctx = BizContext::new(config());
    let h = header("20180124-10:0x:00.700");
    assert!(ctx.check_txt_is_safe(&h, 100100));
    assert!(matches!(ctx.check_txt(&h, 100100), Ok(None)));
    assert_eq!(ctx._txt_time, 0);
    let two_parts = header("20180124-10:00000.700");
    assert!(matches!(ctx.check_txt(&two_parts, 100100), Ok(None)));
    let four_parts = header("20180124-1:0:0:00.700");
    assert!(matches!(ctx.check_txt(&four_parts, 100100), Ok(None)));
}

#[test]
fn unsafe_headers_are_flagged() {
    let ctx = BizContext::new(config());
    // The clock is shorter than eight bytes.
    assert!(!ctx.check_txt_is_safe(&header("20180124-1:0:0.000000"), 100000));
    // The hours do not fit once combined.
    assert!(!ctx.check_txt_is_safe(&header("20180124-999999:0:0.0"), 100000));
    // A multi-byte character straddles byte 49.
    let mut h = "x".repeat(48);
    h.push('é');
    h.push_str(&"y".repeat(40));
    assert!(!ctx.check_txt_is_safe(&h, 100000));
}

#[test]
fn dbf_check_passes() {
    assert_eq!(BizContext::check_dbf("any"), Ok(()));
}
