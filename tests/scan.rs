use bt_extract::clock::{render_or_raw, LogTimestamp};
use bt_extract::extract::{extract_backtraces, Backtrace};

fn frames(bt: &Backtrace) -> Vec<(String, String)> {
    bt.stack.iter().map(|e| (e.name.clone(), e.addr.clone())).collect()
}

fn pairs(v: &[(&str, &str)]) -> Vec<(String, String)> {
    v.iter().map(|(a, b)| (a.to_string(), b.to_string())).collect()
}

#[test]
fn empty_log_yields_nothing() {
    assert!(extract_backtraces("").is_empty());
}

#[test]
fn log_without_fragments_yields_nothing() {
    let log = "I (100) boot: start\nW (200) wifi: connecting\nsomething PC without colon\nbacktrace: lower case\n";
    assert!(extract_backtraces(log).is_empty());
}

#[test]
fn pc_then_inline_backtrace() {
    let log = "PC:0x400d1234\nBacktrace:0x400d1234:0x20 0x400d5678:0x30\n";
    let r = extract_backtraces(log);
    assert_eq!(r.len(), 1);
    assert_eq!(r[0].pc, "0x400d1234");
    assert_eq!(frames(&r[0]), pairs(&[("0x400d1234", "0x20"), ("0x400d5678", "0x30")]));
    assert_eq!(r[0].location, 1);
}

#[test]
fn backtrace_then_pc_gives_same_record() {
    let a = extract_backtraces("PC:0x400d1234\nBacktrace:0x400d1234:0x20 0x400d5678:0x30");
    let b = extract_backtraces("Backtrace:0x400d1234:0x20 0x400d5678:0x30\nPC:0x400d1234");
    assert_eq!(a.len(), 1);
    assert_eq!(b.len(), 1);
    assert_eq!(a[0].pc, b[0].pc);
    assert_eq!(frames(&a[0]), frames(&b[0]));
}

#[test]
fn sync_with_tag_before_value() {
    let mut c = LogTimestamp::new();
    assert_eq!(c.to_absolute(5), 5);
    let log = "X (5000) updated time: 1700000000\nPC:0x400d1234\nBacktrace:0x400d1234:0x20\n";
    let r = extract_backtraces(log);
    assert_eq!(r.len(), 1);
    assert_eq!(r[0].timestamp, "2023-11-14 22:13:20 UTC");
    c.time_utc = 1700000000;
    c.time_boot = 5;
    assert_eq!(c.to_absolute(5), 1700000000);
    assert_eq!(c.to_string(5), "2023-11-14 22:13:20 UTC");
    assert_eq!(c.to_absolute(65), 1700000060);
}

#[test]
fn sync_with_tag_after_value() {
    let log = "updated time: 1700000000 X (5000)\nPC:0x400d1234\nBacktrace:0x400d1234:0x20\n";
    let r = extract_backtraces(log);
    assert_eq!(r.len(), 1);
    assert_eq!(r[0].timestamp, "2023-11-14 22:13:20 UTC");
}

#[test]
fn later_device_time_moves_wall_clock() {
    let log = "X (5000) updated time: 1700000000\nI (65000) app: crash\nPC:0x400d1234\nBacktrace:0x400d1234:0x20\n";
    let r = extract_backtraces(log);
    assert_eq!(r[0].timestamp, "2023-11-14 22:14:20 UTC");
    assert_eq!(r[0].location, 3);
}

#[test]
fn passthrough_before_sync() {
    let c = LogTimestamp::new();
    assert_eq!(c.to_absolute(0), 0);
    assert_eq!(c.to_absolute(83), 83);
    assert_eq!(c.to_absolute(-7), -7);
    let r = extract_backtraces("I (83999) x\nPC:0x400d1234\nBacktrace:0x400d1234:0x20");
    assert_eq!(r[0].timestamp, "1970-01-01 00:01:23 UTC");
}

#[test]
fn two_events_in_scan_order() {
    let log = "PC:0x400d1111\nBacktrace:0x400d1111:0x10\nI (100) unrelated\nnoise line\nPC:0x42002222\nBacktrace:0x42002222:0x20 0x42003333:0x30\n";
    let r = extract_backtraces(log);
    assert_eq!(r.len(), 2);
    assert_eq!(r[0].pc, "0x400d1111");
    assert_eq!(frames(&r[0]), pairs(&[("0x400d1111", "0x10")]));
    assert_eq!(r[0].location, 1);
    assert_eq!(r[1].pc, "0x42002222");
    assert_eq!(frames(&r[1]), pairs(&[("0x42002222", "0x20"), ("0x42003333", "0x30")]));
    assert_eq!(r[1].location, 5);
}

#[test]
fn extraction_is_repeatable() {
    let log = "X (5000) updated time: 1700000000\nPC:0x400d1234\nBacktrace:0x400d1234:0x20\nPC:0x40001234\nBacktrace: 0x40001234:0x3ffb |<-CORRUPTED";
    let a = extract_backtraces(log);
    let b = extract_backtraces(log);
    assert_eq!(a.len(), b.len());
    for (x, y) in a.iter().zip(b.iter()) {
        assert_eq!(x.location, y.location);
        assert_eq!(x.timestamp, y.timestamp);
        assert_eq!(x.pc, y.pc);
        assert_eq!(frames(x), frames(y));
    }
}

#[test]
fn malformed_sync_value_keeps_passthrough() {
    let log = "X (5000) updated time: abc\nI (83000) x\nPC:0x400d1234\nBacktrace:0x400d1234:0x20\n";
    let r = extract_backtraces(log);
    assert_eq!(r.len(), 1);
    assert_eq!(r[0].timestamp, "1970-01-01 00:01:23 UTC");
    assert_eq!(r[0].location, 3);
}

#[test]
fn sync_line_is_not_a_fragment() {
    let log = "updated time: 1700000000 PC:0x400d1234\nBacktrace:0x400d1234:0x20\n";
    let r = extract_backtraces(log);
    assert!(r.is_empty());
}

#[test]
fn free_text_backtrace_takes_one_address() {
    let log = "PC:0x400d1234\nBacktrace: 0x400d1234:0x3ffb0000 0x400d5678:0x3ffb0010 |<-CORRUPTED\n";
    let r = extract_backtraces(log);
    assert_eq!(r.len(), 1);
    assert_eq!(frames(&r[0]), pairs(&[("0x400d5678", "")]));
}

#[test]
fn free_text_without_address_adds_no_frame() {
    let log = "PC:0x400d1234\nBacktrace: corrupted frame list\nBacktrace:0x400d1234:0x20\n";
    let r = extract_backtraces(log);
    assert_eq!(r.len(), 1);
    assert_eq!(frames(&r[0]), pairs(&[("0x400d1234", "0x20")]));
}

#[test]
fn inline_token_fields() {
    let log = "PC:0x400d1234\nBacktrace:0x1:0x2:0x3  abc :0x5\n";
    let r = extract_backtraces(log);
    assert_eq!(frames(&r[0]), pairs(&[("0x1", "0x2:0x3"), ("", ""), ("", "0x5")]));
}

#[test]
fn pc_pattern_details() {
    let r = extract_backtraces("  PC  :0x42001234abc\nBacktrace:0x1:0x2");
    assert_eq!(r.len(), 1);
    assert_eq!(r[0].pc, "0x42001234abc");
    let r = extract_backtraces("PC: 0x400d1234\nBacktrace:0x1:0x2");
    assert!(r.is_empty());
    let r = extract_backtraces("PC:0x430d1234\nBacktrace:0x1:0x2");
    assert!(r.is_empty());
}

#[test]
fn crlf_lines_and_pc_overwrite() {
    let log = "PC:0x400d1111\r\nPC:0x400d2222\r\nBacktrace:0x400d2222:0x20\r\n";
    let r = extract_backtraces(log);
    assert_eq!(r.len(), 1);
    assert_eq!(r[0].pc, "0x400d2222");
    assert_eq!(r[0].location, 1);
    assert_eq!(frames(&r[0]), pairs(&[("0x400d2222", "0x20")]));
}

#[test]
fn unfinished_record_is_dropped() {
    let r = extract_backtraces("Backtrace:0x400d1234:0x20\nI (5) end\n");
    assert!(r.is_empty());
}

#[test]
fn oversized_tag_reads_as_zero() {
    let log = "I (83000) x\nI (99999999999999999999999) y\nPC:0x400d1234\nBacktrace:0x400d1234:0x20";
    let r = extract_backtraces(log);
    assert_eq!(r[0].timestamp, "1970-01-01 00:00:00 UTC");
}

#[test]
fn out_of_range_time_renders_raw_seconds() {
    let c = LogTimestamp { time_utc: i64::MAX, time_boot: 0 };
    assert_eq!(c.to_string(i64::MAX), "18446744073709551614");
    let c = LogTimestamp { time_utc: 1, time_boot: i64::MAX };
    assert_eq!(c.to_string(0), "-9223372036854775806");
}

#[test]
fn render_prefers_given_text() {
    assert_eq!(render_or_raw(42, Some("then".to_string())), "then");
    assert_eq!(render_or_raw(42, None), "42");
    assert_eq!(render_or_raw(-1700000000, None), "-1700000000");
    assert_eq!(render_or_raw(0, None), "0");
}
