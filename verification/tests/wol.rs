use collie_waker::time::TimeSpan;
use collie_waker::wol::{
    magic_packet, parse_mac, RateLimiter, UdpMagicPacketSender, WakeSignal, WolError,
};

#[test]
fn parses_colon_separated_mac() {
    assert_eq!(
        parse_mac("00:11:22:33:44:55").unwrap(),
        [0x00, 0x11, 0x22, 0x33, 0x44, 0x55]
    );
}

#[test]
fn parses_uppercase_and_dash_separated_mac() {
    assert_eq!(
        parse_mac("00-11-22-33-44-55").unwrap(),
        [0x00, 0x11, 0x22, 0x33, 0x44, 0x55]
    );
}

#[test]
fn rejects_malformed_macs() {
    for bad in [
        "",
        "00:11:22:33:44",
        "00:11:22:33:44:55:33",
        "zz:zz:zz:zz:zz:zz",
    ] {
        assert!(parse_mac(bad).is_err(), "expected {bad:?} to be rejected");
    }
}

#[test]
fn magic_packet_is_sync_header_plus_sixteen_macs() {
    let mac = [0x00, 0x11, 0x22, 0x33, 0x44, 0x55];
    let packet = magic_packet(&mac);

    assert_eq!(packet.len(), 102);
    assert_eq!(&packet[..6], &[0xFF; 6]);
    for chunk in packet[6..].chunks(6) {
        assert_eq!(chunk, &mac);
    }
}

#[test]
fn parses_mixed_case_and_mixed_separators() {
    assert_eq!(
        parse_mac("aA:bB-0c:Dd-eE:fF").unwrap(),
        [0xAA, 0xBB, 0x0C, 0xDD, 0xEE, 0xFF]
    );
}

#[test]
fn rejects_a_signed_octet() {
    for bad in ["+1:22:33:44:55:66", "00:11:22:33:44:+5", "+f:00:00:00:00:01"] {
        assert!(parse_mac(bad).is_err(), "expected {bad:?} to be rejected");
    }
}

#[test]
fn rejects_fields_that_are_not_two_hex_digits() {
    for bad in [
        "0:11:22:33:44:55",
        "000:11:22:33:44:55",
        "00:11:22:33:44:5g",
        "00:11:22:33:44:",
        "00::11:22:33:44",
        "++:11:22:33:44:55",
        "é0:11:22:33:44:55",
        "é:11:22:33:44:55",
        " 00:11:22:33:44:55",
    ] {
        assert!(parse_mac(bad).is_err(), "expected {bad:?} to be rejected");
    }
}

#[test]
fn mac_error_keeps_the_input_and_displays_it() {
    let err = parse_mac("nope").unwrap_err();
    assert_eq!(err.input(), "nope");
    assert_eq!(err.message(), "invalid MAC address: nope");
}

#[test]
fn sender_packet_and_destination() {
    let mac = [0x01, 0x02, 0x03, 0x04, 0x05, 0x06];
    let sender = UdpMagicPacketSender::new(mac, "255.255.255.255".to_string(), 9);
    assert_eq!(sender.packet(), magic_packet(&mac));
    assert_eq!(sender.destination(), "255.255.255.255:9");
    let other = UdpMagicPacketSender::new(mac, "192.0.2.255".to_string(), 40000);
    assert_eq!(other.destination(), "192.0.2.255:40000");
}

#[test]
fn wol_error_keeps_its_message() {
    assert_eq!(WolError::new("no network").message(), "no network");
}

const SEC: u64 = 1_000_000_000;

/// One wake request at `now`, as the process makes it: the sender is called
/// (and counted) only where the limit permits, and a send that succeeds is
/// recorded.
fn wake(limiter: &mut RateLimiter, calls: &mut usize, now: u64, send_ok: bool) -> Result<WakeSignal, ()> {
    if !limiter.permits(now) {
        return Ok(WakeSignal::RateLimited);
    }
    *calls += 1;
    limiter.after_send(now, send_ok);
    if send_ok { Ok(WakeSignal::Sent) } else { Err(()) }
}

#[test]
fn rate_limiter_suppresses_within_the_window() {
    let mut limiter = RateLimiter::new(TimeSpan::from_secs(10));
    let mut calls = 0;

    assert_eq!(wake(&mut limiter, &mut calls, 0, true), Ok(WakeSignal::Sent));
    assert_eq!(wake(&mut limiter, &mut calls, 9 * SEC, true), Ok(WakeSignal::RateLimited));

    assert_eq!(calls, 1);
}

#[test]
fn rate_limiter_allows_after_the_window() {
    let mut limiter = RateLimiter::new(TimeSpan::from_secs(10));
    let mut calls = 0;

    assert_eq!(wake(&mut limiter, &mut calls, 0, true), Ok(WakeSignal::Sent));
    assert_eq!(wake(&mut limiter, &mut calls, 11 * SEC, true), Ok(WakeSignal::Sent));

    assert_eq!(calls, 2);
}

#[test]
fn a_burst_of_requests_sends_one_packet() {
    let mut limiter = RateLimiter::new(TimeSpan::from_secs(10));
    let mut calls = 0;
    let signals: Vec<_> = [5 * SEC, 5 * SEC, 5 * SEC + 1, 6 * SEC, 14 * SEC]
        .iter()
        .map(|&t| wake(&mut limiter, &mut calls, t, true))
        .collect();
    assert_eq!(calls, 1);
    assert_eq!(signals[0], Ok(WakeSignal::Sent));
    assert!(signals[1..].iter().all(|s| *s == Ok(WakeSignal::RateLimited)));
}

#[test]
fn a_failed_send_lets_the_next_request_try_again() {
    let mut limiter = RateLimiter::new(TimeSpan::from_secs(10));
    let mut calls = 0;
    assert_eq!(wake(&mut limiter, &mut calls, 0, false), Err(()));
    assert_eq!(wake(&mut limiter, &mut calls, 1, true), Ok(WakeSignal::Sent));
    assert_eq!(calls, 2);
}

#[test]
fn rate_limiter_window_is_inclusive_at_its_end() {
    let mut limiter = RateLimiter::new(TimeSpan::from_secs(10));
    limiter.after_send(5 * SEC, true);
    assert!(!limiter.permits(15 * SEC - 1));
    assert!(limiter.permits(15 * SEC));
}

#[test]
fn failed_send_is_not_recorded() {
    let mut limiter = RateLimiter::new(TimeSpan::from_secs(10));
    assert!(limiter.permits(0));
    limiter.after_send(0, false);
    assert_eq!(limiter.last_sent, None);
    assert!(limiter.permits(SEC));
}

#[test]
fn clock_going_backwards_counts_as_no_time() {
    let mut limiter = RateLimiter::new(TimeSpan::from_secs(10));
    limiter.after_send(20 * SEC, true);
    assert!(!limiter.permits(0));
    let free = RateLimiter::new(TimeSpan::from_secs(0));
    assert!(free.permits(0));
}
