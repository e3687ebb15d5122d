use wifi_control::parse::{parse_line, parse_listing, parse_networks, parse_number_or_zero, Columns};
use wifi_control::text::{contains_str, parse_u32, split_lines, trim_str};

const HEADER: &str =
    "IN-USE  BSSID              SSID        MODE   CHAN  RATE       SIGNAL  BARS  SECURITY";

fn row(
    marker: &str,
    bssid: &str,
    ssid: &str,
    mode: &str,
    chan: &str,
    rate: &str,
    signal: &str,
    bars: &str,
    security: &str,
) -> String {
    format!(
        "{:<8}{:<19}{:<12}{:<7}{:<6}{:<11}{:<8}{:<6}{}",
        marker, bssid, ssid, mode, chan, rate, signal, bars, security
    )
}

#[test]
fn scan_header_and_one_line() {
    let line = row("*", "AA:BB:CC:DD:EE:FF", "HomeNet", "Infra", "6", "130 Mbit/s", "87", "▂▄▆█", "WPA2");
    let nets = parse_networks(HEADER, &vec![line]);
    assert_eq!(nets.len(), 1);
    let n = &nets[0];
    assert_eq!(n.bssid, "AA:BB:CC:DD:EE:FF");
    assert_eq!(n.ssid, "HomeNet");
    assert_eq!(n.mode, "Infra");
    assert_eq!(n.channel, 6);
    assert_eq!(n.rate, "130 Mbit/s");
    assert_eq!(n.signal, 87);
    assert_eq!(n.security, "WPA2");
}

#[test]
fn known_values_at_known_offsets_read_back() {
    let header = "A  B    C";
    let cols = Columns::of_header(header);
    assert_eq!(cols.starts, vec![0, 3, 8]);
    assert_eq!(cols.width, 9);
    let line = "x  ab   z WPA2 WPA3";
    let n = parse_line(&cols, line);
    assert_eq!(n.bssid, "ab");
    assert_eq!(n.ssid, "z");
    assert_eq!(n.mode, "");
    assert_eq!(n.security, "WPA2 WPA3");
}

#[test]
fn non_numeric_channel_and_signal_read_as_zero() {
    let line = row("", "11:22:33:44:55:66", "Cafe", "Infra", "--", "54 Mbit/s", "n/a", "▂___", "WPA1 WPA2");
    let nets = parse_networks(HEADER, &vec![line]);
    assert_eq!(nets.len(), 1);
    assert_eq!(nets[0].channel, 0);
    assert_eq!(nets[0].signal, 0);
    assert_eq!(nets[0].ssid, "Cafe");
    assert_eq!(nets[0].security, "WPA1 WPA2");
}

#[test]
fn one_record_per_line_in_order_with_duplicates_kept() {
    let a = row("", "AA:AA:AA:AA:AA:AA", "One", "Infra", "1", "130 Mbit/s", "10", "_", "WPA2");
    let b = row("*", "BB:BB:BB:BB:BB:BB", "Two Words", "Ad-Hoc", "11", "65 Mbit/s", "99", "_", "");
    let nets = parse_networks(HEADER, &vec![a.clone(), b, a]);
    assert_eq!(nets.len(), 3);
    assert_eq!(nets[0].ssid, "One");
    assert_eq!(nets[1].ssid, "Two Words");
    assert_eq!(nets[1].mode, "Ad-Hoc");
    assert_eq!(nets[1].channel, 11);
    assert_eq!(nets[1].security, "");
    assert_eq!(nets[2].bssid, "AA:AA:AA:AA:AA:AA");
}

#[test]
fn short_line_gives_empty_fields() {
    let nets = parse_networks(HEADER, &vec!["        AA:BB".to_string(), String::new()]);
    assert_eq!(nets.len(), 2);
    assert_eq!(nets[0].bssid, "AA:BB");
    assert_eq!(nets[0].ssid, "");
    assert_eq!(nets[0].channel, 0);
    assert_eq!(nets[0].security, "");
    assert_eq!(nets[1].bssid, "");
}

#[test]
fn no_data_lines_give_no_networks() {
    assert!(parse_networks(HEADER, &vec![]).is_empty());
    assert!(parse_listing("").is_empty());
    assert!(parse_listing(HEADER).is_empty());
}

#[test]
fn listing_splits_header_from_lines() {
    let a = row("", "AA:AA:AA:AA:AA:AA", "One", "Infra", "1", "130 Mbit/s", "10", "_", "WPA2");
    let b = row("", "BB:BB:BB:BB:BB:BB", "Two", "Infra", "36", "270 Mbit/s", "55", "_", "WPA3");
    let text = format!("{}\r\n{}\n{}", HEADER, a, b);
    let nets = parse_listing(&text);
    assert_eq!(nets.len(), 2);
    assert_eq!(nets[0].security, "WPA2");
    assert_eq!(nets[1].channel, 36);
    assert_eq!(nets[1].signal, 55);
}

#[test]
fn header_with_leading_whitespace_has_a_leading_column() {
    let cols = Columns::of_header("  AB C");
    assert_eq!(cols.starts, vec![0, 2, 5]);
}

#[test]
fn numbers_parse_as_u32() {
    assert_eq!(parse_u32("87"), Some(87));
    assert_eq!(parse_u32("+7"), Some(7));
    assert_eq!(parse_u32("007"), Some(7));
    assert_eq!(parse_u32("4294967295"), Some(4294967295));
    assert_eq!(parse_u32("4294967296"), None);
    assert_eq!(parse_u32("99999999999999999999"), None);
    assert_eq!(parse_u32(""), None);
    assert_eq!(parse_u32("+"), None);
    assert_eq!(parse_u32("-1"), None);
    assert_eq!(parse_u32("1 2"), None);
    assert_eq!(parse_number_or_zero("abc"), 0);
    assert_eq!(parse_number_or_zero("42"), 42);
}

#[test]
fn trim_removes_unicode_whitespace() {
    assert_eq!(trim_str("  a b \t\n"), "a b");
    assert_eq!(trim_str("\u{3000}x\u{A0}"), "x");
    assert_eq!(trim_str(" \r\n "), "");
    assert_eq!(trim_str("é"), "é");
}

#[test]
fn substring_search_is_exact() {
    assert!(contains_str("Connection successfully activated.", "successfully activated"));
    assert!(!contains_str("connection successfully activated.", "Connection successfully activated"));
    assert!(contains_str("abc", ""));
    assert!(!contains_str("ab", "abc"));
    assert!(contains_str("xxabab", "abab"));
}

#[test]
fn lines_split_as_str_lines_does() {
    let ls = split_lines("a\r\nb\n\nc\n");
    assert_eq!(ls, vec!["a", "b", "", "c"]);
    let ls = split_lines("one\ntwo\r");
    assert_eq!(ls, vec!["one", "two\r"]);
    assert!(split_lines("").is_empty());
    assert_eq!(split_lines("\n"), vec![""]);
}
