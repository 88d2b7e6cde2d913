//! The LTE session channel: a command channel that additionally holds the
//! cellular subsystem active while it is open, and the clock query that
//! runs over it.

use vstd::prelude::*;
use vstd::string::StringSliceAdditionalSpecFns;

use crate::at::AtSocket;
use crate::driver::{AtCommand, ChannelKind, DriverCall, DriverReply};
use crate::error::{Error, NbError};
use crate::{
    power_steps, run_steps, script_head, script_tail, spec_registration_poll, step_outcome, Modem,
    ModemState, SocketState,
};

verus! {

/// The count state with one more cellular user.
pub open spec fn lte_up_state(s: ModemState) -> ModemState {
    ModemState {
        active_lte_sockets: (s.active_lte_sockets + 1) as u32,
        active_gnss_sockets: s.active_gnss_sockets,
    }
}

/// The count state with one cellular user fewer.
pub open spec fn lte_down_state(s: ModemState) -> ModemState {
    ModemState {
        active_lte_sockets: (s.active_lte_sockets - 1) as u32,
        active_gnss_sockets: s.active_gnss_sockets,
    }
}

/// How one close call relates the modem before (`pre`) and after
/// (`post`), given the state the socket was in and the result `r`: the
/// command channel is always released; a socket that was counted gives
/// its count back, with the power-off commands' failure leaving the
/// counts untouched.
pub open spec fn lte_close_rel(
    pre: Modem,
    sock_state: SocketState,
    post: Modem,
    r: Result<(), Error>,
) -> bool {
    let l1 = pre.driver.log@.push(DriverCall::CloseChannel(ChannelKind::At));
    if sock_state is Closed {
        &&& r == Ok::<(), Error>(())
        &&& post.state == pre.state
        &&& post.driver.log@ == l1
        &&& post.driver.script@ == pre.driver.script@
    } else {
        let steps = power_steps(pre.state, lte_down_state(pre.state));
        let run = run_steps(steps, pre.driver.script@);
        &&& r == run.0
        &&& post.driver.log@ == l1 + steps.take(run.1)
        &&& post.driver.script@ == run.2
        &&& (r is Ok ==> post.state == lte_down_state(pre.state))
        &&& (r is Err ==> post.state == pre.state)
    }
}

/// An AT socket that holds the cellular subsystem active while it is
/// open. Must be closed through [`Modem::lte_close`] before it is let go:
/// the close consumes the socket.
#[derive(Debug)]
pub struct LteSocket {
    pub inner: AtSocket,
    pub state: SocketState,
}

impl LteSocket {
    /// The underlying command channel.
    pub fn inner(&self) -> (r: &AtSocket)
        ensures
            r == &self.inner,
    {
        &self.inner
    }
}

impl Modem {
    /// Get an AT socket, but where the LTE is also active at the same time
    pub fn lte_socket(&mut self) -> (r: Result<LteSocket, Error>)
        ensures
            final(self).state == old(self).state,
            final(self).driver.log@ == old(self).driver.log@.push(
                DriverCall::OpenChannel(ChannelKind::At),
            ),
            final(self).driver.script@ == script_tail(old(self).driver.script@),
            ({
                match step_outcome(script_head(old(self).driver.script@)) {
                    Ok(_) => r matches Ok(s) && s.state is Closed && s.inner.state is Closed,
                    Err(e) => r == Err::<LteSocket, Error>(e),
                }
            }),
    {
        match self.at_socket() {
            Ok(inner) => Ok(LteSocket { inner, state: SocketState::Closed }),
            Err(e) => Err(e),
        }
    }

    /// One non-blocking connect step. A closed socket first counts itself
    /// as a cellular user (powering the subsystem on if it was the first)
    /// and becomes pending; that increment happens at most once, however
    /// often the call is retried. A pending socket polls registration:
    /// while the network is still registering the call returns
    /// `WouldBlock` and must be re-invoked; once registration is ready the
    /// session channel is connected.
    pub fn lte_connect(&mut self, socket: &mut LteSocket) -> (r: Result<(), NbError>)
        requires
            old(socket).state is Closed ==> old(self).state.active_lte_sockets < u32::MAX,
        ensures
            r == Err::<(), NbError>(NbError::WouldBlock) ==> final(self).driver.script@.len() < old(
                self,
            ).driver.script@.len(),
            old(socket).state is Connected ==> r == Err::<(), NbError>(
                NbError::Other(Error::SocketAlreadyOpen),
            ) && *final(self) == *old(self) && *final(socket) == *old(socket),
            old(socket).state is Closed ==> ({
                let steps = power_steps(old(self).state, lte_up_state(old(self).state));
                let run = run_steps(steps, old(self).driver.script@);
                match run.0 {
                    Err(e) => {
                        &&& r == Err::<(), NbError>(NbError::Other(e))
                        &&& final(self).state == old(self).state
                        &&& *final(socket) == *old(socket)
                        &&& final(self).driver.log@ == old(self).driver.log@ + steps.take(run.1)
                        &&& final(self).driver.script@ == run.2
                    },
                    Ok(_) => {
                        &&& final(self).state == lte_up_state(old(self).state)
                        &&& final(self).driver.log@ == old(self).driver.log@ + steps + seq![
                            DriverCall::AtCommand(AtCommand::RegistrationQuery),
                        ]
                        &&& final(self).driver.script@ == script_tail(run.2)
                        &&& lte_poll_outcome(run.2, r, *final(socket))
                    },
                }
            }),
            old(socket).state is WaitingForLte ==> {
                &&& final(self).state == old(self).state
                &&& final(self).driver.log@ == old(self).driver.log@.push(
                    DriverCall::AtCommand(AtCommand::RegistrationQuery),
                )
                &&& final(self).driver.script@ == script_tail(old(self).driver.script@)
                &&& lte_poll_outcome(old(self).driver.script@, r, *final(socket))
            },
    {
        if socket.state.is_connected() {
            return Err(NbError::Other(Error::SocketAlreadyOpen));
        }
        if socket.state.is_closed() {
            let new_state = ModemState {
                active_lte_sockets: self.state.active_lte_sockets + 1,
                active_gnss_sockets: self.state.active_gnss_sockets,
            };
            match self.change_state(new_state) {
                Ok(_) => {},
                Err(e) => {
                    return Err(NbError::Other(e));
                },
            }
            socket.state = SocketState::WaitingForLte;
            proof {
                let steps = power_steps(old(self).state, lte_up_state(old(self).state));
                crate::lemma_run_steps_ok_len(steps, old(self).driver.script@);
                assert(steps.take(steps.len() as int) =~= steps);
            }
        }
        let ghost mid_log = self.driver.log@;
        match self.wait_for_lte() {
            Ok(_) => {},
            Err(e) => {
                proof {
                    assert(self.driver.log@ =~= mid_log + seq![
                        DriverCall::AtCommand(AtCommand::RegistrationQuery),
                    ]);
                    crate::lemma_run_steps_ok_len(
                        power_steps(old(self).state, lte_up_state(old(self).state)),
                        old(self).driver.script@,
                    );
                }
                return Err(e);
            },
        }
        proof {
            assert(self.driver.log@ =~= mid_log + seq![
                DriverCall::AtCommand(AtCommand::RegistrationQuery),
            ]);
        }
        socket.state = SocketState::Connected;
        match self.at_connect(&mut socket.inner) {
            Ok(_) => {},
            Err(_e) => {},
        }
        Ok(())
    }

    /// Whether the session channel is connected.
    pub fn lte_is_connected(&mut self, socket: &mut LteSocket) -> (r: bool)
        ensures
            *final(self) == *old(self),
            *final(socket) == *old(socket),
            r == (old(socket).state is Connected),
    {
        socket.state.is_connected()
    }

    /// Queries the modem clock over a connected session channel: sends the
    /// clock query, polls for the response line and parses it as a
    /// [`ClockTime`].
    pub fn lte_read_clock(&mut self, socket: &mut LteSocket) -> (r: Result<ClockTime, Error>)
        ensures
            *final(socket) == *old(socket),
            final(self).state == old(self).state,
            !(old(socket).inner.state is Connected) ==> r == Err::<ClockTime, Error>(
                Error::SocketClosed,
            ) && *final(self) == *old(self),
            old(socket).inner.state is Connected ==> ({
                let s0 = old(self).driver.script@;
                match step_outcome(script_head(s0)) {
                    Err(e) => {
                        &&& r == Err::<ClockTime, Error>(e)
                        &&& final(self).driver.log@.len() == old(self).driver.log@.len() + 1
                        &&& final(self).driver.script@ == script_tail(s0)
                    },
                    Ok(_) => {
                        &&& final(self).driver.log@.len() == old(self).driver.log@.len() + 2
                        &&& (final(self).driver.log@[old(self).driver.log@.len() as int] matches
                            DriverCall::AtSendCommand(cmd) && cmd@ == AtCommand::ClockQuery.spec_text())
                        &&& final(self).driver.log@.last() == DriverCall::AtPollResponse
                        &&& final(self).driver.script@ == script_tail(script_tail(s0))
                        &&& ({
                            match script_head(script_tail(s0)) {
                                None => r == Err::<ClockTime, Error>(Error::NoAtResponse),
                                Some(DriverReply::Done) => r == Err::<ClockTime, Error>(
                                    Error::NoAtResponse,
                                ),
                                Some(DriverReply::Line(line)) => ({
                                    match clock_fields(vstd::utf8::encode_utf8(line@)) {
                                        Some(t) => r == Ok::<ClockTime, Error>(t),
                                        None => r == Err::<ClockTime, Error>(
                                            Error::UnexpectedAtResponse,
                                        ),
                                    }
                                }),
                                Some(DriverReply::Failed(e)) => r == Err::<ClockTime, Error>(
                                    Error::NrfModem(e),
                                ),
                                Some(_) => r == Err::<ClockTime, Error>(
                                    Error::UnexpectedAtResponse,
                                ),
                            }
                        })
                    },
                }
            }),
    {
        match self.at_send(&mut socket.inner, AtCommand::ClockQuery.text()) {
            Ok(_) => {},
            Err(e) => {
                return Err(e);
            },
        }
        match self.at_poll_response(&mut socket.inner) {
            Err(e) => Err(e),
            Ok(None) => Err(Error::NoAtResponse),
            Ok(Some(line)) => ClockTime::from_str(line.as_str()),
        }
    }

    /// Closes the session channel: releases the command channel and, if
    /// the socket was counted as a cellular user, gives that count back
    /// (powering the subsystem off when it was the last user). On a
    /// command failure the counts stay untouched.
    pub fn lte_close(&mut self, socket: LteSocket) -> (r: Result<(), Error>)
        requires
            !(socket.state is Closed) ==> old(self).state.active_lte_sockets > 0,
        ensures
            lte_close_rel(*old(self), socket.state, *final(self), r),
    {
        let socket_state = socket.state;
        match self.at_close(socket.inner) {
            Ok(_) => {},
            Err(e) => {
                return Err(e);
            },
        }
        if !socket_state.is_closed() {
            let ghost mid_state = self.state;
            let ghost mid_script = self.driver.script@;
            let new_state = ModemState {
                active_lte_sockets: self.state.active_lte_sockets - 1,
                active_gnss_sockets: self.state.active_gnss_sockets,
            };
            match self.change_state(new_state) {
                Ok(_) => {
                    proof {
                        assert(run_steps(power_steps(mid_state, new_state), mid_script).0->Ok_0
                            == ());
                    }
                },
                Err(e) => {
                    return Err(e);
                },
            }
        }
        Ok(())
    }
}

/// What one registration poll does to a pending session socket: ready
/// connects it, anything else leaves it pending and hands the poll's
/// outcome through.
pub open spec fn lte_poll_outcome(
    script: Seq<DriverReply>,
    r: Result<(), NbError>,
    sock: LteSocket,
) -> bool {
    match spec_registration_poll(script_head(script)) {
        Ok(_) => r == Ok::<(), NbError>(()) && sock.state is Connected
            && sock.inner.state is Connected,
        Err(e) => r == Err::<(), NbError>(e) && sock.state is WaitingForLte,
    }
}

/// A parsed wall-clock value decoded from the fixed-format clock response;
/// purely a value type.
#[derive(Debug, Clone, Copy, PartialEq, Eq, Structural)]
pub struct ClockTime {
    pub year: u16,
    pub month: u8,
    pub day: u8,
    pub hour: u8,
    pub minute: u8,
    pub sec: u8,
}

/// Whether a byte is an ASCII decimal digit.
pub open spec fn is_digit(b: u8) -> bool {
    48 <= b <= 57
}

/// Whether the two bytes at `i` are both decimal digits.
pub open spec fn digit_pair_ok(b: Seq<u8>, i: int) -> bool {
    is_digit(b[i]) && is_digit(b[i + 1])
}

/// The value of the two-digit decimal number at `i`.
pub open spec fn digit_pair(b: Seq<u8>, i: int) -> int {
    10 * (b[i] - 48) + (b[i + 1] - 48)
}

/// What the clock parser extracts from a response: the response is the
/// 29-byte fixed layout `+CCLK: "yy/MM/dd,hh:mm:ss±zz"`, read by position:
/// the six two-digit fields must be decimal digits, and the two-digit year
/// is normalized by adding 2000. The separators and the zone offset are
/// not inspected.
pub open spec fn clock_fields(b: Seq<u8>) -> Option<ClockTime> {
    if b.len() == 29 && digit_pair_ok(b, 8) && digit_pair_ok(b, 11) && digit_pair_ok(b, 14)
        && digit_pair_ok(b, 17) && digit_pair_ok(b, 20) && digit_pair_ok(b, 23) {
        Some(
            ClockTime {
                year: (2000 + digit_pair(b, 8)) as u16,
                month: digit_pair(b, 11) as u8,
                day: digit_pair(b, 14) as u8,
                hour: digit_pair(b, 17) as u8,
                minute: digit_pair(b, 20) as u8,
                sec: digit_pair(b, 23) as u8,
            },
        )
    } else {
        None
    }
}

/// Reads the two-digit decimal number at byte offset `i`, or nothing when
/// either byte is not a digit.
fn two_digits(b: &[u8], i: usize) -> (r: Option<u8>)
    requires
        i + 2 <= b@.len(),
    ensures
        digit_pair_ok(b@, i as int) ==> r == Some(digit_pair(b@, i as int) as u8),
        !digit_pair_ok(b@, i as int) ==> r is None,
{
    let hi = b[i];
    let lo = b[i + 1];
    if 48 <= hi && hi <= 57 && 48 <= lo && lo <= 57 {
        Some((hi - 48) * 10 + (lo - 48))
    } else {
        None
    }
}

impl ClockTime {
    /// Parses the 29-byte fixed-layout clock response. Exactly the inputs
    /// accepted by [`clock_fields`] parse; everything else is an
    /// unexpected response.
    pub fn from_str(s: &str) -> (r: Result<ClockTime, Error>)
        ensures
            ({
                match clock_fields(s.spec_bytes()) {
                    Some(t) => r == Ok::<ClockTime, Error>(t),
                    None => r == Err::<ClockTime, Error>(Error::UnexpectedAtResponse),
                }
            }),
    {
        let b = s.as_bytes();
        if b.len() != 29 {
            return Err(Error::UnexpectedAtResponse);
        }
        let year = two_digits(b, 8);
        let month = two_digits(b, 11);
        let day = two_digits(b, 14);
        let hour = two_digits(b, 17);
        let minute = two_digits(b, 20);
        let sec = two_digits(b, 23);
        match (year, month, day, hour, minute, sec) {
            (Some(year), Some(month), Some(day), Some(hour), Some(minute), Some(sec)) => Ok(
                ClockTime {
                    year: 2000 + (year as u16),
                    month,
                    day,
                    hour,
                    minute,
                    sec,
                },
            ),
            _ => Err(Error::UnexpectedAtResponse),
        }
    }
}

} // verus!
