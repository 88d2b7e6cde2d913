//! The positioning channel: a receiver that counts as a positioning user
//! while it is open. Opening it powers the positioning subsystem on (the
//! external power hook runs first), configures the receiver and starts
//! it; closing gives the count back.

use vstd::prelude::*;

use crate::driver::{ChannelKind, DriverCall, DriverReply, GnssData};
use crate::error::{Error, NbError};
use crate::{
    power_steps, run_steps, script_head, script_tail, step_outcome, Modem, ModemState, SocketState,
};

verus! {

/// The count state with one more positioning user.
pub open spec fn gnss_up_state(s: ModemState) -> ModemState {
    ModemState {
        active_lte_sockets: s.active_lte_sockets,
        active_gnss_sockets: (s.active_gnss_sockets + 1) as u32,
    }
}

/// The count state with one positioning user fewer.
pub open spec fn gnss_down_state(s: ModemState) -> ModemState {
    ModemState {
        active_lte_sockets: s.active_lte_sockets,
        active_gnss_sockets: (s.active_gnss_sockets - 1) as u32,
    }
}

/// Which positioning history to erase when the receiver starts.
#[derive(Debug, Clone, Copy, PartialEq, Eq, Structural)]
pub struct DeleteMask(pub u32);

impl Default for DeleteMask {
    /// Erase nothing.
    fn default() -> (r: Self)
        ensures
            r.0 == 0,
    {
        DeleteMask(0)
    }
}

/// Which NMEA sentence kinds the receiver produces.
#[derive(Debug, Clone, Copy, PartialEq, Eq, Structural)]
pub struct NmeaMask(pub u32);

impl Default for NmeaMask {
    /// Produce no NMEA sentences.
    fn default() -> (r: Self)
        ensures
            r.0 == 0,
    {
        NmeaMask(0)
    }
}

/// Receiver configuration applied when the channel connects.
#[derive(Debug, Clone, Copy, PartialEq, Eq, Structural)]
pub struct GnssOptions {
    pub delete_mask: DeleteMask,
    pub fix_interval: u16,
    pub fix_retry: u16,
    pub nmea_mask: NmeaMask,
}

impl Default for GnssOptions {
    /// One fix per second, a one-minute retry window, no history erase
    /// and no NMEA output.
    fn default() -> (r: Self)
        ensures
            r.delete_mask.0 == 0,
            r.fix_interval == 1,
            r.fix_retry == 60,
            r.nmea_mask.0 == 0,
    {
        GnssOptions {
            delete_mask: DeleteMask(0),
            fix_interval: 1,
            fix_retry: 60,
            nmea_mask: NmeaMask(0),
        }
    }
}

/// The configure-and-start sequence a connect issues on the receiver,
/// in order.
pub open spec fn gnss_config_steps(options: GnssOptions) -> Seq<DriverCall> {
    seq![
        DriverCall::GnssSetFixInterval(options.fix_interval),
        DriverCall::GnssSetFixRetry(options.fix_retry),
        DriverCall::GnssSetNmeaMask(options.nmea_mask.0),
        DriverCall::GnssStart(options.delete_mask.0),
    ]
}

/// A positioning channel. Must be closed through [`Modem::gnss_close`]
/// before it is let go: the close consumes the socket.
#[derive(Debug)]
pub struct GnssSocket {
    pub state: SocketState,
}

/// How one close call relates the modem before (`pre`) and after
/// (`post`), given the state the socket was in and the result `r`: the
/// channel is always released; a socket that was counted gives its count
/// back, with the power-off commands' failure leaving the counts
/// untouched.
pub open spec fn gnss_close_rel(
    pre: Modem,
    sock_state: SocketState,
    post: Modem,
    r: Result<(), Error>,
) -> bool {
    let l1 = pre.driver.log@.push(DriverCall::CloseChannel(ChannelKind::Gnss));
    if sock_state is Closed {
        &&& r == Ok::<(), Error>(())
        &&& post.state == pre.state
        &&& post.driver.log@ == l1
        &&& post.driver.script@ == pre.driver.script@
    } else {
        let steps = power_steps(pre.state, gnss_down_state(pre.state));
        let run = run_steps(steps, pre.driver.script@);
        &&& r == run.0
        &&& post.driver.log@ == l1 + steps.take(run.1)
        &&& post.driver.script@ == run.2
        &&& (r is Ok ==> post.state == gnss_down_state(pre.state))
        &&& (r is Err ==> post.state == pre.state)
    }
}

impl Modem {
    /// Allocates the positioning channel; the socket starts out closed.
    pub fn gnss_socket(&mut self) -> (r: Result<GnssSocket, Error>)
        ensures
            final(self).state == old(self).state,
            final(self).driver.log@ == old(self).driver.log@.push(
                DriverCall::OpenChannel(ChannelKind::Gnss),
            ),
            final(self).driver.script@ == script_tail(old(self).driver.script@),
            ({
                match step_outcome(script_head(old(self).driver.script@)) {
                    Ok(_) => r matches Ok(s) && s.state is Closed,
                    Err(e) => r == Err::<GnssSocket, Error>(e),
                }
            }),
    {
        let reply = self.driver.call(DriverCall::OpenChannel(ChannelKind::Gnss));
        match reply {
            None => Err(Error::NoAtResponse),
            Some(DriverReply::Done) => Ok(GnssSocket { state: SocketState::Closed }),
            Some(DriverReply::Line(_)) => Ok(GnssSocket { state: SocketState::Closed }),
            Some(DriverReply::Failed(e)) => Err(Error::NrfModem(e)),
            Some(_) => Err(Error::UnexpectedAtResponse),
        }
    }

    /// Connects the positioning channel: counts it as a positioning user
    /// (powering the subsystem on if it was the first), then configures
    /// and starts the receiver. If configuring or starting fails, the
    /// count is given back — a power-down is attempted — and the first
    /// error is reported; only when every step succeeded is the socket
    /// connected.
    pub fn gnss_connect(&mut self, socket: &mut GnssSocket, options: GnssOptions) -> (r: Result<
        (),
        Error,
    >)
        requires
            !(old(socket).state is Connected) ==> old(self).state.active_gnss_sockets < u32::MAX,
        ensures
            old(socket).state is Connected ==> r == Err::<(), Error>(Error::SocketAlreadyOpen)
                && *final(self) == *old(self) && *final(socket) == *old(socket),
            !(old(socket).state is Connected) ==> ({
                let up = gnss_up_state(old(self).state);
                let steps = power_steps(old(self).state, up);
                let run = run_steps(steps, old(self).driver.script@);
                match run.0 {
                    Err(e) => {
                        &&& r == Err::<(), Error>(e)
                        &&& final(self).state == old(self).state
                        &&& *final(socket) == *old(socket)
                        &&& final(self).driver.log@ == old(self).driver.log@ + steps.take(run.1)
                        &&& final(self).driver.script@ == run.2
                    },
                    Ok(_) => {
                        let cfg = gnss_config_steps(options);
                        let crun = run_steps(cfg, run.2);
                        match crun.0 {
                            Ok(_) => {
                                &&& r == Ok::<(), Error>(())
                                &&& final(socket).state is Connected
                                &&& final(self).state == up
                                &&& final(self).driver.log@ == old(self).driver.log@ + steps + cfg
                                &&& final(self).driver.script@ == crun.2
                            },
                            Err(e) => {
                                let back = power_steps(up, old(self).state);
                                let rrun = run_steps(back, crun.2);
                                &&& r == Err::<(), Error>(e)
                                &&& *final(socket) == *old(socket)
                                &&& final(self).driver.log@ == old(self).driver.log@ + steps
                                    + cfg.take(crun.1) + back.take(rrun.1)
                                &&& final(self).driver.script@ == rrun.2
                                &&& (rrun.0 is Ok ==> final(self).state == old(self).state)
                                &&& (rrun.0 is Err ==> final(self).state == up)
                            },
                        }
                    },
                }
            }),
    {
        if socket.state.is_connected() {
            return Err(Error::SocketAlreadyOpen);
        }
        let ghost pre_state = self.state;
        let new_state = ModemState {
            active_lte_sockets: self.state.active_lte_sockets,
            active_gnss_sockets: self.state.active_gnss_sockets + 1,
        };
        match self.change_state(new_state) {
            Ok(_) => {
                proof {
                    assert(run_steps(
                        power_steps(pre_state, new_state),
                        old(self).driver.script@,
                    ).0->Ok_0 == ());
                    let steps = power_steps(pre_state, new_state);
                    crate::lemma_run_steps_ok_len(steps, old(self).driver.script@);
                    assert(steps.take(steps.len() as int) =~= steps);
                }
            },
            Err(e) => {
                return Err(e);
            },
        }
        let ghost mid_log = self.driver.log@;
        let ghost mid_script = self.driver.script@;
        let mut cfg: Vec<DriverCall> = Vec::new();
        cfg.push(DriverCall::GnssSetFixInterval(options.fix_interval));
        cfg.push(DriverCall::GnssSetFixRetry(options.fix_retry));
        cfg.push(DriverCall::GnssSetNmeaMask(options.nmea_mask.0));
        cfg.push(DriverCall::GnssStart(options.delete_mask.0));
        proof {
            assert(cfg@ =~= gnss_config_steps(options));
        }
        match self.issue_steps(cfg) {
            Ok(_) => {
                proof {
                    assert(run_steps(gnss_config_steps(options), mid_script).0->Ok_0 == ());
                    let c = gnss_config_steps(options);
                    crate::lemma_run_steps_ok_len(c, mid_script);
                    assert(c.take(c.len() as int) =~= c);
                    assert(mid_log + c.take(c.len() as int) =~= old(self).driver.log@
                        + power_steps(pre_state, new_state) + c);
                }
                socket.state = SocketState::Connected;
                Ok(())
            },
            Err(e) => {
                let ghost fail_log = self.driver.log@;
                let ghost fail_script = self.driver.script@;
                let down_state = ModemState {
                    active_lte_sockets: self.state.active_lte_sockets,
                    active_gnss_sockets: self.state.active_gnss_sockets - 1,
                };
                let rollback = self.change_state(down_state);
                proof {
                    assert(down_state == pre_state);
                    let back = power_steps(new_state, pre_state);
                    let rrun = run_steps(back, fail_script);
                    assert(fail_log + back.take(rrun.1) =~= old(self).driver.log@ + power_steps(
                        pre_state,
                        new_state,
                    ) + gnss_config_steps(options).take(
                        run_steps(gnss_config_steps(options), mid_script).1,
                    ) + back.take(rrun.1));
                }
                let _ = rollback;
                Err(e)
            },
        }
    }

    /// Polls the receiver for a fix: the fix data when one is available,
    /// or `WouldBlock` while the receiver is still searching.
    pub fn gnss_receive(&mut self, socket: &mut GnssSocket) -> (r: Result<GnssData, NbError>)
        ensures
            *final(socket) == *old(socket),
            final(self).state == old(self).state,
            !(old(socket).state is Connected) ==> r == Err::<GnssData, NbError>(
                NbError::Other(Error::SocketClosed),
            ) && *final(self) == *old(self),
            old(socket).state is Connected ==> {
                &&& final(self).driver.log@ == old(self).driver.log@.push(DriverCall::GnssReadFix)
                &&& final(self).driver.script@ == script_tail(old(self).driver.script@)
                &&& ({
                    match script_head(old(self).driver.script@) {
                        None => r == Err::<GnssData, NbError>(NbError::Other(Error::NoAtResponse)),
                        Some(DriverReply::Fix(d)) => r == Ok::<GnssData, NbError>(d),
                        Some(DriverReply::WouldBlock) => r == Err::<GnssData, NbError>(
                            NbError::WouldBlock,
                        ),
                        Some(DriverReply::Failed(e)) => r == Err::<GnssData, NbError>(
                            NbError::Other(Error::NrfModem(e)),
                        ),
                        Some(_) => r == Err::<GnssData, NbError>(
                            NbError::Other(Error::UnexpectedAtResponse),
                        ),
                    }
                })
            },
    {
        if !socket.state.is_connected() {
            return Err(NbError::Other(Error::SocketClosed));
        }
        let reply = self.driver.call(DriverCall::GnssReadFix);
        match reply {
            None => Err(NbError::Other(Error::NoAtResponse)),
            Some(DriverReply::Fix(d)) => Ok(d),
            Some(DriverReply::WouldBlock) => Err(NbError::WouldBlock),
            Some(DriverReply::Failed(e)) => Err(NbError::Other(Error::NrfModem(e))),
            Some(_) => Err(NbError::Other(Error::UnexpectedAtResponse)),
        }
    }

    /// Closes the positioning channel: releases it and, if the socket was
    /// counted as a positioning user, gives that count back (powering the
    /// subsystem off when it was the last user, with the power hook run
    /// after the deactivate command is decided). On a command failure the
    /// counts stay untouched.
    pub fn gnss_close(&mut self, socket: GnssSocket) -> (r: Result<(), Error>)
        requires
            !(socket.state is Closed) ==> old(self).state.active_gnss_sockets > 0,
        ensures
            gnss_close_rel(*old(self), socket.state, *final(self), r),
    {
        let socket_state = socket.state;
        let _ = socket;
        self.driver.notify(DriverCall::CloseChannel(ChannelKind::Gnss));
        if !socket_state.is_closed() {
            let ghost mid_state = self.state;
            let ghost mid_script = self.driver.script@;
            let new_state = ModemState {
                active_lte_sockets: self.state.active_lte_sockets,
                active_gnss_sockets: self.state.active_gnss_sockets - 1,
            };
            match self.change_state(new_state) {
                Ok(_) => {
                    proof {
                        assert(run_steps(power_steps(mid_state, new_state), mid_script).0->Ok_0
                            == ());
                    }
                },
                Err(e) => {
                    return Err(e);
                },
            }
        }
        Ok(())
    }
}

} // verus!
