use chat_feed::config::bind_target;
use chat_feed::config::parse_channel_id;
use chat_feed::message::decimal_string;

#[test]
fn channel_id_is_read_from_digits() {
    assert_eq!(parse_channel_id("0"), Some(0));
    assert_eq!(parse_channel_id("7"), Some(7));
    assert_eq!(parse_channel_id("940745698587074570"), Some(940745698587074570));
    assert_eq!(parse_channel_id("18446744073709551615"), Some(u64::MAX));
    assert_eq!(parse_channel_id("007"), Some(7));
    assert_eq!(parse_channel_id("000000000000000000000000001"), Some(1));
    assert_eq!(parse_channel_id("+42"), Some(42));
}

#[test]
fn malformed_channel_id_is_refused() {
    for text in [
        "", "+", "-", "-1", "++1", "+-1", "1+", "12a", "a12", " 12", "12 ", "1 2", "1_000", "0x10",
        "12.0", "١٢", "１２", "18446744073709551616", "18446744073709551620",
        "99999999999999999999", "100000000000000000000000",
    ] {
        assert_eq!(parse_channel_id(text), None, "{:?}", text);
    }
}

#[test]
fn channel_id_agrees_with_std() {
    for text in [
        "", "+", "-", "0", "+0", "-0", "00", "1", "+1", "-1", "18446744073709551615",
        "18446744073709551616", "+18446744073709551615", "27670116110564327424", "x", "9x", "٣",
    ] {
        assert_eq!(parse_channel_id(text), text.parse::<u64>().ok(), "{:?}", text);
    }
}

#[test]
fn channel_id_reads_back_what_decimal_string_writes() {
    for n in [0u64, 1, 9, 10, 99, 100, 12345, u64::MAX - 1, u64::MAX] {
        assert_eq!(parse_channel_id(&decimal_string(n)), Some(n));
    }
}

#[test]
fn bind_target_joins_host_and_port() {
    assert_eq!(bind_target("127.0.0.1", "3000"), "127.0.0.1:3000");
    assert_eq!(bind_target("", ""), ":");
    assert_eq!(bind_target("[::1]", "80"), "[::1]:80");
}
