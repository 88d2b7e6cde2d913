//! Tests of the per-channel state machines: stream, datagram, session,
//! diagnostic and positioning channels, and the deferred-close wrappers.

use modem_mux::at::AtSocket;
use modem_mux::driver::{
    AtCommand, ChannelKind, Driver, DriverCall, DriverReply, GnssData, IpAddr, SocketAddr,
};
use modem_mux::error::{DriverError, Error, NbError};
use modem_mux::gnss::GnssOptions;
use modem_mux::helpers::{deferred_at_socket, deferred_tcp_socket, send};
use modem_mux::tcp::TcpSocket;
use modem_mux::{Modem, ModemState};

fn fresh_modem(script: Vec<DriverReply>) -> Modem {
    Modem {
        state: ModemState { active_lte_sockets: 0, active_gnss_sockets: 0 },
        driver: Driver::with_script(script),
    }
}

fn at(c: AtCommand) -> DriverCall {
    DriverCall::AtCommand(c)
}

fn cereg(line: &str) -> DriverReply {
    DriverReply::Line(line.to_string())
}

fn remote() -> SocketAddr {
    SocketAddr { ip: IpAddr::V4([142, 250, 179, 211]), port: 80 }
}

/// Connect a cellular stream channel while registration cycles
/// transient, then ready: exactly one power-on sequence is issued and
/// exactly one raw connect succeeds, on the second poll.
#[test]
fn stream_connects_on_the_second_poll() {
    let mut modem = fresh_modem(vec![
        DriverReply::Done, // open the raw channel
        DriverReply::Done, // power-on: data profile
        DriverReply::Done, // power-on: UICC low power
        DriverReply::Done, // power-on: power saving mode
        DriverReply::Done, // power-on: activate cellular
        cereg("+CEREG: 0,0"), // first poll: transient
    ]);
    let mut sock = modem.tcp_socket().unwrap();
    let r1 = modem.tcp_connect(&mut sock, remote());
    assert_eq!(r1, Err(NbError::WouldBlock));
    assert_eq!(modem.state.active_lte_sockets, 1);

    modem.driver.push_reply(cereg("+CEREG: 0,1")); // second poll: ready
    modem.driver.push_reply(DriverReply::Done); // raw connect
    let r2 = modem.tcp_connect(&mut sock, remote());
    assert_eq!(r2, Ok(()));
    assert!(modem.tcp_is_connected(&sock).unwrap());
    assert_eq!(modem.state.active_lte_sockets, 1);

    let log = &modem.driver.log;
    let power_ons = log.iter().filter(|c| **c == at(AtCommand::LteOn)).count();
    assert_eq!(power_ons, 1);
    let connects: Vec<&DriverCall> =
        log.iter().filter(|c| matches!(c, DriverCall::RawConnect(_))).collect();
    assert_eq!(connects.len(), 1);
    assert_eq!(*connects[0], DriverCall::RawConnect(remote()));

    // closing the last cellular user powers the subsystem off again
    modem.driver.push_reply(DriverReply::Done);
    modem.driver.push_reply(DriverReply::Done);
    assert_eq!(modem.tcp_close(sock), Ok(()));
    assert_eq!(modem.state.active_lte_sockets, 0);
    assert!(modem.driver.log.contains(&at(AtCommand::LteOff)));
}

/// Retrying connect while registration stays transient never increments
/// the count beyond the single initial increment.
#[test]
fn pending_retry_is_idempotent() {
    let mut modem = fresh_modem(vec![
        DriverReply::Done,
        DriverReply::Done,
        DriverReply::Done,
        DriverReply::Done,
        DriverReply::Done,
        cereg("+CEREG: 0,2"),
        cereg("+CEREG: 0,0"),
        cereg("+CEREG: 0,4"),
    ]);
    let mut sock = modem.tcp_socket().unwrap();
    for _ in 0..3 {
        assert_eq!(modem.tcp_connect(&mut sock, remote()), Err(NbError::WouldBlock));
        assert_eq!(modem.state.active_lte_sockets, 1);
    }
    let power_ons =
        modem.driver.log.iter().filter(|c| **c == at(AtCommand::LteOn)).count();
    assert_eq!(power_ons, 1);
}

#[test]
fn connect_on_connected_socket_is_refused() {
    let mut modem = fresh_modem(vec![
        DriverReply::Done,
        DriverReply::Done,
        DriverReply::Done,
        DriverReply::Done,
        DriverReply::Done,
        cereg("+CEREG: 0,5"), // ready: registered, roaming
        DriverReply::Done,
    ]);
    let mut sock = modem.tcp_socket().unwrap();
    assert_eq!(modem.tcp_connect(&mut sock, remote()), Ok(()));
    assert_eq!(
        modem.tcp_connect(&mut sock, remote()),
        Err(NbError::Other(Error::SocketAlreadyOpen))
    );
}

#[test]
fn denied_registration_is_a_hard_error() {
    let mut modem = fresh_modem(vec![
        DriverReply::Done,
        DriverReply::Done,
        DriverReply::Done,
        DriverReply::Done,
        DriverReply::Done,
        cereg("+CEREG: 0,3"),
    ]);
    let mut sock = modem.tcp_socket().unwrap();
    assert_eq!(
        modem.tcp_connect(&mut sock, remote()),
        Err(NbError::Other(Error::LteRegistrationDenied))
    );
    // the count stays: the channel is still pending and must be closed
    assert_eq!(modem.state.active_lte_sockets, 1);
}

#[test]
fn stream_send_and_receive_delegate_to_the_raw_transport() {
    let mut modem = fresh_modem(vec![
        DriverReply::Done,
        DriverReply::Done,
        DriverReply::Done,
        DriverReply::Done,
        DriverReply::Done,
        cereg("+CEREG: 0,1"),
        DriverReply::Done,
    ]);
    let mut sock = modem.tcp_socket().unwrap();
    assert_eq!(modem.tcp_connect(&mut sock, remote()), Ok(()));

    modem.driver.push_reply(DriverReply::Accepted(3));
    assert_eq!(modem.tcp_send(&mut sock, b"abcde"), Ok(3));
    assert!(modem.driver.log.contains(&DriverCall::RawSend(b"abcde".to_vec())));

    modem.driver.push_reply(DriverReply::WouldBlock);
    assert_eq!(modem.tcp_send(&mut sock, b"abcde"), Err(NbError::WouldBlock));

    // a driver that claims more bytes than were offered is an error
    modem.driver.push_reply(DriverReply::Accepted(99));
    assert_eq!(
        modem.tcp_send(&mut sock, b"abcde"),
        Err(NbError::Other(Error::UnexpectedAtResponse))
    );

    modem.driver.push_reply(DriverReply::Bytes(b"hi".to_vec()));
    assert_eq!(modem.tcp_receive(&mut sock), Ok(b"hi".to_vec()));

    modem.driver.push_reply(DriverReply::WouldBlock);
    assert_eq!(modem.tcp_receive(&mut sock), Err(NbError::WouldBlock));
}

#[test]
fn stream_send_on_closed_socket_is_refused() {
    let mut modem = fresh_modem(vec![DriverReply::Done]);
    let mut sock = modem.tcp_socket().unwrap();
    assert_eq!(
        modem.tcp_send(&mut sock, b"x"),
        Err(NbError::Other(Error::SocketClosed))
    );
    assert_eq!(
        modem.tcp_receive(&mut sock),
        Err(NbError::Other(Error::SocketClosed))
    );
    // the refusal issued nothing
    assert_eq!(modem.driver.log.len(), 1);
    assert_eq!(modem.tcp_close(sock), Ok(()));
}

#[test]
fn raw_send_helper_reports_accepted_bytes() {
    let mut modem = fresh_modem(vec![DriverReply::Accepted(2)]);
    assert_eq!(send(&mut modem, b"xy"), Ok(Some(2)));
    let mut modem = fresh_modem(vec![DriverReply::WouldBlock]);
    assert_eq!(send(&mut modem, b"xy"), Ok(None));
    let mut modem = fresh_modem(vec![DriverReply::Failed(DriverError::Nordic(-1, 14))]);
    assert_eq!(send(&mut modem, b"xy"), Err(Error::NrfModem(DriverError::Nordic(-1, 14))));
}

#[test]
fn datagram_remembers_its_remote() {
    let mut modem = fresh_modem(vec![
        DriverReply::Done,
        DriverReply::Done,
        DriverReply::Done,
        DriverReply::Done,
        DriverReply::Done,
        cereg("+CEREG: 0,1"),
        DriverReply::Done,
    ]);
    let mut sock = modem.udp_socket().unwrap();
    assert_eq!(modem.udp_connect(&mut sock, remote()), Ok(()));
    assert_eq!(sock.remote_address, Some(remote()));

    modem.driver.push_reply(DriverReply::Accepted(1));
    assert_eq!(modem.udp_send(&mut sock, b"a"), Ok(()));

    modem.driver.push_reply(DriverReply::Bytes(b"pong".to_vec()));
    assert_eq!(modem.udp_receive(&mut sock), Ok((b"pong".to_vec(), remote())));

    modem.driver.push_reply(DriverReply::Done);
    modem.driver.push_reply(DriverReply::Done);
    assert_eq!(modem.udp_close(sock), Ok(()));
    assert_eq!(modem.state.active_lte_sockets, 0);
}

/// Channels of mixed kinds sharing the cellular subsystem: the count
/// always equals the number of opened-and-not-yet-closed channels, and
/// only the first open and the last close sequence power commands.
#[test]
fn mixed_channels_conserve_the_count() {
    let mut modem = fresh_modem(vec![
        DriverReply::Done, // open tcp
        DriverReply::Done,
        DriverReply::Done,
        DriverReply::Done,
        DriverReply::Done, // power on
        cereg("+CEREG: 0,1"),
        DriverReply::Done, // raw connect
    ]);
    let mut stream = modem.tcp_socket().unwrap();
    assert_eq!(modem.tcp_connect(&mut stream, remote()), Ok(()));
    assert_eq!(modem.state.active_lte_sockets, 1);

    modem.driver.push_reply(DriverReply::Done); // open udp
    modem.driver.push_reply(cereg("+CEREG: 0,1"));
    modem.driver.push_reply(DriverReply::Done); // raw connect
    let mut dgram = modem.udp_socket().unwrap();
    assert_eq!(modem.udp_connect(&mut dgram, remote()), Ok(()));
    assert_eq!(modem.state.active_lte_sockets, 2);

    // closing the stream keeps the subsystem on for the datagram channel
    assert_eq!(modem.tcp_close(stream), Ok(()));
    assert_eq!(modem.state.active_lte_sockets, 1);
    assert!(!modem.driver.log.contains(&at(AtCommand::LteOff)));

    // closing the last channel powers it off
    modem.driver.push_reply(DriverReply::Done);
    modem.driver.push_reply(DriverReply::Done);
    assert_eq!(modem.udp_close(dgram), Ok(()));
    assert_eq!(modem.state.active_lte_sockets, 0);
    assert!(modem.driver.log.contains(&at(AtCommand::LteOff)));
}

#[test]
fn diagnostic_channel_round_trip() {
    let mut modem = fresh_modem(vec![DriverReply::Done]);
    let mut sock: AtSocket = modem.at_socket().unwrap();
    assert_eq!(modem.at_send(&mut sock, "AT+CGMR"), Err(Error::SocketClosed));
    assert_eq!(modem.at_connect(&mut sock), Ok(()));
    assert_eq!(modem.at_connect(&mut sock), Err(Error::SocketAlreadyOpen));

    modem.driver.push_reply(DriverReply::Done);
    assert_eq!(modem.at_send(&mut sock, "AT+CGMR"), Ok(()));
    assert!(modem.driver.log.contains(&DriverCall::AtSendCommand("AT+CGMR".to_string())));

    modem.driver.push_reply(DriverReply::Line("mfw_1.3.2".to_string()));
    assert_eq!(modem.at_poll_response(&mut sock), Ok(Some("mfw_1.3.2".to_string())));

    modem.driver.push_reply(DriverReply::WouldBlock);
    assert_eq!(modem.at_receive(&mut sock), Err(NbError::WouldBlock));
    modem.driver.push_reply(DriverReply::Bytes(b"OK".to_vec()));
    assert_eq!(modem.at_receive(&mut sock), Ok(b"OK".to_vec()));

    assert_eq!(modem.at_close(sock), Ok(()));
    assert_eq!(*modem.driver.log.last().unwrap(), DriverCall::CloseChannel(ChannelKind::At));
}

#[test]
fn session_channel_reads_the_clock() {
    let mut modem = fresh_modem(vec![
        DriverReply::Done, // open
        DriverReply::Done,
        DriverReply::Done,
        DriverReply::Done,
        DriverReply::Done, // power on
        cereg("+CEREG: 0,1"),
    ]);
    let mut sock = modem.lte_socket().unwrap();
    assert_eq!(modem.lte_connect(&mut sock), Ok(()));
    assert!(modem.lte_is_connected(&mut sock));

    modem.driver.push_reply(DriverReply::Done); // clock query accepted
    modem.driver.push_reply(DriverReply::Line("+CCLK: \"18/12/06,22:10:00+08\"".to_string()));
    let clock = modem.lte_read_clock(&mut sock).unwrap();
    assert_eq!(clock.year, 2018);
    assert_eq!(clock.month, 12);
    assert_eq!(clock.day, 6);
    assert_eq!(clock.hour, 22);
    assert_eq!(clock.minute, 10);
    assert_eq!(clock.sec, 0);
    assert!(modem.driver.log.contains(&DriverCall::AtSendCommand("AT+CCLK?".to_string())));

    modem.driver.push_reply(DriverReply::Done);
    modem.driver.push_reply(DriverReply::Done);
    assert_eq!(modem.lte_close(sock), Ok(()));
    assert_eq!(modem.state.active_lte_sockets, 0);
}

#[test]
fn positioning_channel_lifecycle() {
    let mut modem = fresh_modem(vec![
        DriverReply::Done, // open
        DriverReply::Done, // power hook(true)
        DriverReply::Done, // activate gnss
        DriverReply::Done, // fix interval
        DriverReply::Done, // fix retry
        DriverReply::Done, // nmea mask
        DriverReply::Done, // start
    ]);
    let mut sock = modem.gnss_socket().unwrap();
    assert_eq!(modem.gnss_connect(&mut sock, GnssOptions::default()), Ok(()));
    assert_eq!(modem.state.active_gnss_sockets, 1);
    assert_eq!(
        modem.driver.log[1..7],
        [
            DriverCall::GnssPowerHook(true),
            at(AtCommand::GnssOn),
            DriverCall::GnssSetFixInterval(1),
            DriverCall::GnssSetFixRetry(60),
            DriverCall::GnssSetNmeaMask(0),
            DriverCall::GnssStart(0),
        ]
    );

    modem.driver.push_reply(DriverReply::WouldBlock);
    assert_eq!(modem.gnss_receive(&mut sock), Err(NbError::WouldBlock));
    modem.driver.push_reply(DriverReply::Fix(GnssData { raw: vec![1, 2, 3] }));
    assert_eq!(modem.gnss_receive(&mut sock), Ok(GnssData { raw: vec![1, 2, 3] }));

    modem.driver.push_reply(DriverReply::Done); // deactivate gnss
    modem.driver.push_reply(DriverReply::Done); // power hook(false)
    assert_eq!(modem.gnss_close(sock), Ok(()));
    assert_eq!(modem.state.active_gnss_sockets, 0);
}

/// A failure while configuring the receiver gives the count back and
/// reports the first error.
#[test]
fn positioning_connect_rolls_back_on_failure() {
    let mut modem = fresh_modem(vec![
        DriverReply::Done, // open
        DriverReply::Done, // power hook(true)
        DriverReply::Done, // activate gnss
        DriverReply::Done, // fix interval
        DriverReply::Failed(DriverError::Nordic(-1, 5)), // fix retry fails
        DriverReply::Done, // rollback: deactivate gnss
        DriverReply::Done, // rollback: power hook(false)
    ]);
    let mut sock = modem.gnss_socket().unwrap();
    assert_eq!(
        modem.gnss_connect(&mut sock, GnssOptions::default()),
        Err(Error::NrfModem(DriverError::Nordic(-1, 5)))
    );
    assert_eq!(modem.state.active_gnss_sockets, 0);
    assert!(modem.driver.log.contains(&at(AtCommand::GnssOff)));
}

/// A user function that fails inside a deferred-close helper: the close
/// path still runs, exactly once, and the user error is the one
/// propagated.
#[test]
fn deferred_close_runs_after_a_failing_user_function() {
    let modem = fresh_modem(vec![
        DriverReply::Done, // open
        DriverReply::Done,
        DriverReply::Done,
        DriverReply::Done,
        DriverReply::Done, // power on
        cereg("+CEREG: 0,1"),
        DriverReply::Done, // raw connect
        DriverReply::Done,
        DriverReply::Done, // power off during the close
    ]);
    let (modem, result): (Modem, Result<u8, Error>) = deferred_tcp_socket(
        modem,
        remote(),
        |m: Modem, s: TcpSocket| (m, s, Err(Error::UnexpectedAtResponse)),
    );
    assert_eq!(result, Err(Error::UnexpectedAtResponse));
    let closes = modem
        .driver
        .log
        .iter()
        .filter(|c| **c == DriverCall::CloseChannel(ChannelKind::Tcp))
        .count();
    assert_eq!(closes, 1);
    assert_eq!(modem.state.active_lte_sockets, 0);
}

/// The deferred wrapper re-polls a transient registration itself and
/// hands a connected channel to the user function.
#[test]
fn deferred_wrapper_retries_until_registered() {
    let modem = fresh_modem(vec![
        DriverReply::Done, // open
        DriverReply::Done,
        DriverReply::Done,
        DriverReply::Done,
        DriverReply::Done, // power on
        cereg("+CEREG: 0,0"),
        cereg("+CEREG: 0,2"),
        cereg("+CEREG: 0,1"),
        DriverReply::Done, // raw connect
        DriverReply::Accepted(2), // the user function sends
        DriverReply::Done,
        DriverReply::Done, // power off during the close
    ]);
    let (modem, result): (Modem, Result<usize, Error>) =
        deferred_tcp_socket(modem, remote(), |mut m: Modem, mut s: TcpSocket| {
            let sent = match m.tcp_send(&mut s, b"hi") {
                Ok(n) => Ok(n),
                Err(NbError::WouldBlock) => Err(Error::UnexpectedAtResponse),
                Err(NbError::Other(e)) => Err(e),
            };
            (m, s, sent)
        });
    assert_eq!(result, Ok(2));
    assert_eq!(modem.state.active_lte_sockets, 0);
    let polls = modem
        .driver
        .log
        .iter()
        .filter(|c| **c == at(AtCommand::RegistrationQuery))
        .count();
    assert_eq!(polls, 3);
}

/// When the connect phase fails hard, the wrapper reports exactly that
/// error, never runs the user function, and still closes the channel.
#[test]
fn deferred_wrapper_reports_the_connect_error() {
    let modem = fresh_modem(vec![
        DriverReply::Done, // open
        DriverReply::Done,
        DriverReply::Done,
        DriverReply::Done,
        DriverReply::Done, // power on
        cereg("+CEREG: 0,3"), // registration denied
    ]);
    let (modem, result): (Modem, Result<u8, Error>) = deferred_tcp_socket(
        modem,
        remote(),
        |m: Modem, s: TcpSocket| (m, s, Ok(9)),
    );
    assert_eq!(result, Err(Error::LteRegistrationDenied));
    // the user function never ran: no send, no raw connect
    assert!(!modem.driver.log.iter().any(|c| matches!(c, DriverCall::RawConnect(_))));
    let closes = modem
        .driver
        .log
        .iter()
        .filter(|c| **c == DriverCall::CloseChannel(ChannelKind::Tcp))
        .count();
    assert_eq!(closes, 1);
}

/// A failed channel allocation is reported as such; nothing is closed
/// because nothing was opened.
#[test]
fn deferred_wrapper_reports_allocation_failure() {
    let modem = fresh_modem(vec![DriverReply::Failed(DriverError::Nordic(-1, 23))]);
    let (modem, result): (Modem, Result<u8, Error>) = deferred_at_socket(
        modem,
        |m: Modem, s: AtSocket| (m, s, Ok(7)),
    );
    assert_eq!(result, Err(Error::NrfModem(DriverError::Nordic(-1, 23))));
    assert_eq!(modem.driver.log.len(), 1);
}

#[test]
fn deferred_at_wrapper_closes_after_the_user_function() {
    let modem = fresh_modem(vec![DriverReply::Done]);
    let (modem, result): (Modem, Result<u8, Error>) = deferred_at_socket(
        modem,
        |m: Modem, s: AtSocket| (m, s, Ok(7)),
    );
    assert_eq!(result, Ok(7));
    assert_eq!(
        *modem.driver.log.last().unwrap(),
        DriverCall::CloseChannel(ChannelKind::At)
    );
}
