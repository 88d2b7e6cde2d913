//! Tests of the name resolution adapter and the clock response parser.

use modem_mux::driver::{AddrType, Driver, DriverCall, DriverReply, IpAddr};
use modem_mux::dns::{parse_ip_literal, select_address};
use modem_mux::error::{DriverError, Error, NbError};
use modem_mux::gnss::GnssOptions;
use modem_mux::lte::ClockTime;
use modem_mux::{Modem, ModemState, SocketState};

fn fresh_modem(script: Vec<DriverReply>) -> Modem {
    Modem {
        state: ModemState { active_lte_sockets: 0, active_gnss_sockets: 0 },
        driver: Driver::with_script(script),
    }
}

fn v4a() -> IpAddr {
    IpAddr::V4([10, 0, 0, 1])
}
fn v4b() -> IpAddr {
    IpAddr::V4([10, 0, 0, 2])
}
fn v6a() -> IpAddr {
    IpAddr::V6([0x2001, 0xdb8, 0, 0, 0, 0, 0, 1])
}
fn v6b() -> IpAddr {
    IpAddr::V6([0x2001, 0xdb8, 0, 0, 0, 0, 0, 2])
}

/// Resolving a literal address touches the command channel in no way.
#[test]
fn literal_address_resolves_without_radio_interaction() {
    let mut modem = fresh_modem(vec![]);
    let r = modem.get_host_by_name("10.0.0.5", AddrType::Either);
    assert_eq!(r, Ok(IpAddr::V4([10, 0, 0, 5])));
    assert!(modem.driver.log.is_empty());
}

#[test]
fn dotted_quad_literals_parse() {
    assert_eq!(parse_ip_literal("192.168.001.1"), Some(IpAddr::V4([192, 168, 1, 1])));
    assert_eq!(parse_ip_literal("255.255.255.255"), Some(IpAddr::V4([255, 255, 255, 255])));
    assert_eq!(parse_ip_literal("0.0.0.0"), Some(IpAddr::V4([0, 0, 0, 0])));
    assert_eq!(parse_ip_literal("256.1.1.1"), None);
    assert_eq!(parse_ip_literal("1.2.3"), None);
    assert_eq!(parse_ip_literal("1.2.3.4.5"), None);
    assert_eq!(parse_ip_literal("1.2.3.x"), None);
    assert_eq!(parse_ip_literal("1234.1.1.1"), None);
    assert_eq!(parse_ip_literal("example.com"), None);
    assert_eq!(parse_ip_literal(""), None);
}

#[test]
fn colon_grouped_literals_parse() {
    assert_eq!(
        parse_ip_literal("2001:db8::1"),
        Some(IpAddr::V6([0x2001, 0xdb8, 0, 0, 0, 0, 0, 1]))
    );
    assert_eq!(parse_ip_literal("::1"), Some(IpAddr::V6([0, 0, 0, 0, 0, 0, 0, 1])));
    assert_eq!(parse_ip_literal("::"), Some(IpAddr::V6([0; 8])));
    assert_eq!(parse_ip_literal("fe80::"), Some(IpAddr::V6([0xfe80, 0, 0, 0, 0, 0, 0, 0])));
    assert_eq!(
        parse_ip_literal("1:2:3:4:5:6:7:8"),
        Some(IpAddr::V6([1, 2, 3, 4, 5, 6, 7, 8]))
    );
    assert_eq!(
        parse_ip_literal("a:B:c:D:e:F:0:9"),
        Some(IpAddr::V6([0xa, 0xb, 0xc, 0xd, 0xe, 0xf, 0, 9]))
    );
    assert_eq!(parse_ip_literal("1:2:3:4:5:6:7"), None);
    assert_eq!(parse_ip_literal("1:2:3:4:5:6:7:8:9"), None);
    assert_eq!(parse_ip_literal("1:2:3:4:5:6:7:8::"), None);
    assert_eq!(parse_ip_literal(":::"), None);
    assert_eq!(parse_ip_literal("12345::"), None);
    assert_eq!(parse_ip_literal("g::"), None);
    assert_eq!(parse_ip_literal("1::2::3"), None);
    // embedded dotted-quad tails are not part of this grammar
    assert_eq!(parse_ip_literal("::ffff:1.2.3.4"), None);
}

#[test]
fn colon_grouped_literal_resolves_without_radio_interaction() {
    let mut modem = fresh_modem(vec![]);
    let r = modem.get_host_by_name("2001:db8::1", AddrType::Either);
    assert_eq!(r, Ok(IpAddr::V6([0x2001, 0xdb8, 0, 0, 0, 0, 0, 1])));
    assert!(modem.driver.log.is_empty());
}

#[test]
fn hostname_validation_comes_before_the_resolver() {
    let mut modem = fresh_modem(vec![]);
    assert_eq!(
        modem.get_host_by_name("h\u{00e9}llo.example", AddrType::Either),
        Err(NbError::Other(Error::HostnameNotAscii))
    );
    let long = "a".repeat(257);
    assert_eq!(
        modem.get_host_by_name(&long, AddrType::Either),
        Err(NbError::Other(Error::HostnameTooLong))
    );
    // neither rejection consulted the resolver
    assert!(modem.driver.log.is_empty());

    let edge = "a".repeat(256);
    assert_eq!(
        modem.get_host_by_name(&edge, AddrType::Either),
        Err(NbError::Other(Error::NoAtResponse))
    );
    assert_eq!(modem.driver.log.len(), 1);
}

#[test]
fn resolver_candidates_prefer_the_exact_family() {
    let mut modem = fresh_modem(vec![DriverReply::Records(vec![v6a(), v4a(), v4b()])]);
    let r = modem.get_host_by_name("example.com", AddrType::IPv4);
    assert_eq!(r, Ok(v4a()));
    assert_eq!(
        *modem.driver.log.last().unwrap(),
        DriverCall::Resolve("example.com".to_string(), AddrType::IPv4)
    );
}

/// The documented fallback policy: with no candidate of the preferred
/// family, the last candidate seen is accepted.
#[test]
fn resolver_falls_back_to_the_last_candidate() {
    let mut modem = fresh_modem(vec![DriverReply::Records(vec![v6a(), v6b()])]);
    let r = modem.get_host_by_name("example.com", AddrType::IPv4);
    assert_eq!(r, Ok(v6b()));
}

#[test]
fn resolver_with_no_preference_takes_the_first_candidate() {
    let mut modem = fresh_modem(vec![DriverReply::Records(vec![v6a(), v4a()])]);
    let r = modem.get_host_by_name("example.com", AddrType::Either);
    assert_eq!(r, Ok(v6a()));
}

#[test]
fn resolver_without_candidates_finds_no_address() {
    let mut modem = fresh_modem(vec![DriverReply::Records(vec![])]);
    assert_eq!(
        modem.get_host_by_name("example.com", AddrType::Either),
        Err(NbError::Other(Error::AddressNotFound))
    );
}

#[test]
fn resolver_failure_surfaces_the_vendor_error_number() {
    let mut modem = fresh_modem(vec![DriverReply::Failed(DriverError::Nordic(-1, 22))]);
    assert_eq!(
        modem.get_host_by_name("example.com", AddrType::Either),
        Err(NbError::Other(Error::NrfSys(22)))
    );
}

#[test]
fn selection_policy_on_plain_candidate_lists() {
    assert_eq!(select_address(&vec![v6a(), v4a(), v4b()], AddrType::IPv4), Some(v4a()));
    assert_eq!(select_address(&vec![v4a(), v4b()], AddrType::IPv6), Some(v4b()));
    assert_eq!(select_address(&vec![v4a(), v6a()], AddrType::Either), Some(v4a()));
    assert_eq!(select_address(&vec![], AddrType::Either), None);
    assert_eq!(select_address(&vec![v4a(), v6b()], AddrType::IPv6), Some(v6b()));
}

/// The fixed 29-byte clock layout: the two-digit year is normalized by
/// adding 2000; month, day, hour, minute and second are read as they
/// stand.
#[test]
fn clock_response_parses_the_fixed_layout() {
    let t = ClockTime::from_str("+CCLK: \"18/12/06,22:10:00+08\"").unwrap();
    assert_eq!(t.year, 2018);
    assert_eq!(t.month, 12);
    assert_eq!(t.day, 6);
    assert_eq!(t.hour, 22);
    assert_eq!(t.minute, 10);
    assert_eq!(t.sec, 0);
}

#[test]
fn clock_response_of_the_wrong_shape_is_rejected() {
    assert_eq!(
        ClockTime::from_str("+CCLK: \"18/12/06,22:10:00\""),
        Err(Error::UnexpectedAtResponse)
    );
    assert_eq!(ClockTime::from_str(""), Err(Error::UnexpectedAtResponse));
    assert_eq!(
        ClockTime::from_str("+CCLK: \"18/12/0a,22:10:00+08\""),
        Err(Error::UnexpectedAtResponse)
    );
    // a multi-byte character breaks the fixed byte layout
    assert_eq!(
        ClockTime::from_str("+CCLK: \u{201c}18/12/06,22:10:00+08\""),
        Err(Error::UnexpectedAtResponse)
    );
}

#[test]
fn socket_state_queries() {
    assert!(SocketState::Closed.is_closed());
    assert!(!SocketState::Closed.is_connected());
    assert!(SocketState::Connected.is_connected());
    assert!(!SocketState::WaitingForLte.is_closed());
    assert!(!SocketState::WaitingForLte.is_connected());
}

#[test]
fn gnss_options_default_values() {
    let options = GnssOptions::default();
    assert_eq!(options.fix_interval, 1);
    assert_eq!(options.fix_retry, 60);
    assert_eq!(options.delete_mask.0, 0);
    assert_eq!(options.nmea_mask.0, 0);
}
