//! The cellular-bound datagram channel: a raw datagram transport that
//! counts as a cellular user while it is open and remembers the remote
//! endpoint it was connected to.

use vstd::prelude::*;

use crate::driver::{AtCommand, ChannelKind, DriverCall, DriverReply, SocketAddr};
use crate::error::{Error, NbError};
use crate::helpers::send_outcome;
use crate::lte::{lte_down_state, lte_up_state};
use crate::tcp::tcp_attach_rel;
use crate::{
    power_steps, run_steps, script_head, script_tail, step_outcome, Modem, ModemState, SocketState,
};

verus! {

/// How one close call relates the modem before (`pre`) and after
/// (`post`), given the state the socket was in and the result `r`: the
/// raw transport is always released; a socket that was counted gives its
/// count back, with the power-off commands' failure leaving the counts
/// untouched.
pub open spec fn udp_close_rel(
    pre: Modem,
    sock_state: SocketState,
    post: Modem,
    r: Result<(), Error>,
) -> bool {
    let l1 = pre.driver.log@.push(DriverCall::CloseChannel(ChannelKind::Udp));
    if sock_state is Closed {
        &&& r == Ok::<(), Error>(())
        &&& post.state == pre.state
        &&& post.driver.log@ == l1
        &&& post.driver.script@ == pre.driver.script@
    } else {
        let steps = power_steps(pre.state, lte_down_state(pre.state));
        let run = run_steps(steps, pre.driver.script@);
        &&& r == run.0
        &&& post.driver.log@ == l1 + steps.take(run.1)
        &&& post.driver.script@ == run.2
        &&& (r is Ok ==> post.state == lte_down_state(pre.state))
        &&& (r is Err ==> post.state == pre.state)
    }
}

/// A datagram channel over the cellular link. Must be closed through
/// [`Modem::udp_close`] before it is let go: the close consumes the
/// socket.
#[derive(Debug)]
pub struct UdpSocket {
    pub state: SocketState,
    /// The remote endpoint, cached at connect time and required at
    /// receive time.
    pub remote_address: Option<SocketAddr>,
}

impl UdpSocket {
    /// Well-formedness: a connected datagram socket always knows its
    /// remote endpoint.
    pub open spec fn wf(&self) -> bool {
        self.state is Connected ==> self.remote_address is Some
    }
}

impl Modem {
    /// Allocates a datagram channel; the socket starts out closed.
    pub fn udp_socket(&mut self) -> (r: Result<UdpSocket, Error>)
        ensures
            final(self).state == old(self).state,
            final(self).driver.log@ == old(self).driver.log@.push(
                DriverCall::OpenChannel(ChannelKind::Udp),
            ),
            final(self).driver.script@ == script_tail(old(self).driver.script@),
            ({
                match step_outcome(script_head(old(self).driver.script@)) {
                    Ok(_) => r matches Ok(s) && s.state is Closed && s.remote_address is None,
                    Err(e) => r == Err::<UdpSocket, Error>(e),
                }
            }),
    {
        let reply = self.driver.call(DriverCall::OpenChannel(ChannelKind::Udp));
        match reply {
            None => Err(Error::NoAtResponse),
            Some(DriverReply::Done) => Ok(
                UdpSocket { state: SocketState::Closed, remote_address: None },
            ),
            Some(DriverReply::Line(_)) => Ok(
                UdpSocket { state: SocketState::Closed, remote_address: None },
            ),
            Some(DriverReply::Failed(e)) => Err(Error::NrfModem(e)),
            Some(_) => Err(Error::UnexpectedAtResponse),
        }
    }

    /// One non-blocking connect step towards `remote`, exactly as for the
    /// stream channel; on success the remote endpoint is cached for
    /// receives.
    pub fn udp_connect(&mut self, socket: &mut UdpSocket, remote: SocketAddr) -> (r: Result<
        (),
        NbError,
    >)
        requires
            old(socket).state is Closed ==> old(self).state.active_lte_sockets < u32::MAX,
        ensures
            r == Err::<(), NbError>(NbError::WouldBlock) ==> final(self).driver.script@.len() < old(
                self,
            ).driver.script@.len(),
            final(socket).wf() || !old(socket).wf(),
            r == Ok::<(), NbError>(()) ==> final(socket).remote_address == Some(remote),
            !(r == Ok::<(), NbError>(())) ==> final(socket).remote_address == old(
                socket,
            ).remote_address,
            old(socket).state is Connected ==> r == Err::<(), NbError>(
                NbError::Other(Error::SocketAlreadyOpen),
            ) && *final(self) == *old(self) && *final(socket) == *old(socket),
            old(socket).state is Closed ==> ({
                let steps = power_steps(old(self).state, lte_up_state(old(self).state));
                let run = run_steps(steps, old(self).driver.script@);
                match run.0 {
                    Err(e) => {
                        &&& r == Err::<(), NbError>(NbError::Other(e))
                        &&& final(self).state == old(self).state
                        &&& *final(socket) == *old(socket)
                        &&& final(self).driver.log@ == old(self).driver.log@ + steps.take(run.1)
                        &&& final(self).driver.script@ == run.2
                    },
                    Ok(_) => tcp_attach_rel(
                        old(self).driver.log@ + steps,
                        run.2,
                        remote,
                        lte_up_state(old(self).state),
                        *final(self),
                        final(socket).state,
                        r,
                    ),
                }
            }),
            old(socket).state is WaitingForLte ==> tcp_attach_rel(
                old(self).driver.log@,
                old(self).driver.script@,
                remote,
                old(self).state,
                *final(self),
                final(socket).state,
                r,
            ),
    {
        if socket.state.is_connected() {
            return Err(NbError::Other(Error::SocketAlreadyOpen));
        }
        if socket.state.is_closed() {
            let new_state = ModemState {
                active_lte_sockets: self.state.active_lte_sockets + 1,
                active_gnss_sockets: self.state.active_gnss_sockets,
            };
            match self.change_state(new_state) {
                Ok(_) => {},
                Err(e) => {
                    return Err(NbError::Other(e));
                },
            }
            socket.state = SocketState::WaitingForLte;
            proof {
                let steps = power_steps(old(self).state, lte_up_state(old(self).state));
                crate::lemma_run_steps_ok_len(steps, old(self).driver.script@);
                assert(steps.take(steps.len() as int) =~= steps);
            }
        }
        let ghost mid_log = self.driver.log@;
        match self.wait_for_lte() {
            Ok(_) => {},
            Err(e) => {
                proof {
                    assert(self.driver.log@ =~= mid_log + seq![
                        DriverCall::AtCommand(AtCommand::RegistrationQuery),
                    ]);
                    crate::lemma_run_steps_ok_len(
                        power_steps(old(self).state, lte_up_state(old(self).state)),
                        old(self).driver.script@,
                    );
                }
                return Err(e);
            },
        }
        let reply = self.driver.call(DriverCall::RawConnect(remote));
        proof {
            assert(self.driver.log@ =~= mid_log + seq![
                DriverCall::AtCommand(AtCommand::RegistrationQuery),
                DriverCall::RawConnect(remote),
            ]);
        }
        match reply {
            None => Err(NbError::Other(Error::NoAtResponse)),
            Some(DriverReply::Done) => {
                socket.state = SocketState::Connected;
                socket.remote_address = Some(remote);
                Ok(())
            },
            Some(DriverReply::Line(_)) => {
                socket.state = SocketState::Connected;
                socket.remote_address = Some(remote);
                Ok(())
            },
            Some(DriverReply::Failed(e)) => Err(NbError::Other(Error::NrfModem(e))),
            Some(_) => Err(NbError::Other(Error::UnexpectedAtResponse)),
        }
    }

    /// Non-blocking send on a connected datagram channel; `WouldBlock`
    /// when there is no buffer space yet.
    pub fn udp_send(&mut self, socket: &mut UdpSocket, buffer: &[u8]) -> (r: Result<(), NbError>)
        ensures
            *final(socket) == *old(socket),
            final(self).state == old(self).state,
            !(old(socket).state is Connected) ==> r == Err::<(), NbError>(
                NbError::Other(Error::SocketClosed),
            ) && *final(self) == *old(self),
            old(socket).state is Connected ==> {
                &&& final(self).driver.log@.len() == old(self).driver.log@.len() + 1
                &&& final(self).driver.log@.take(old(self).driver.log@.len() as int) == old(
                    self,
                ).driver.log@
                &&& (final(self).driver.log@.last() matches DriverCall::RawSend(v) && v@ == buffer@)
                &&& final(self).driver.script@ == script_tail(old(self).driver.script@)
                &&& ({
                    match send_outcome(script_head(old(self).driver.script@), buffer@.len()) {
                        Ok(Some(_)) => r == Ok::<(), NbError>(()),
                        Ok(None) => r == Err::<(), NbError>(NbError::WouldBlock),
                        Err(e) => r == Err::<(), NbError>(NbError::Other(e)),
                    }
                })
            },
    {
        if !socket.state.is_connected() {
            return Err(NbError::Other(Error::SocketClosed));
        }
        match crate::helpers::send(self, buffer) {
            Ok(Some(_amount)) => Ok(()),
            Ok(None) => Err(NbError::WouldBlock),
            Err(e) => Err(NbError::Other(e)),
        }
    }

    /// Non-blocking receive on a connected datagram channel: the bytes
    /// the driver handed over together with the cached remote endpoint,
    /// or `WouldBlock` when nothing has arrived yet.
    pub fn udp_receive(&mut self, socket: &mut UdpSocket) -> (r: Result<
        (Vec<u8>, SocketAddr),
        NbError,
    >)
        requires
            old(socket).wf(),
        ensures
            *final(socket) == *old(socket),
            final(self).state == old(self).state,
            !(old(socket).state is Connected) ==> r == Err::<(Vec<u8>, SocketAddr), NbError>(
                NbError::Other(Error::SocketClosed),
            ) && *final(self) == *old(self),
            old(socket).state is Connected ==> {
                &&& final(self).driver.log@ == old(self).driver.log@.push(DriverCall::RawReceive)
                &&& final(self).driver.script@ == script_tail(old(self).driver.script@)
                &&& ({
                    match script_head(old(self).driver.script@) {
                        None => r == Err::<(Vec<u8>, SocketAddr), NbError>(
                            NbError::Other(Error::NoAtResponse),
                        ),
                        Some(DriverReply::Bytes(bytes)) => r matches Ok(v) && v.0@ == bytes@ && Some(
                            v.1,
                        ) == old(socket).remote_address,
                        Some(DriverReply::WouldBlock) => r == Err::<
                            (Vec<u8>, SocketAddr),
                            NbError,
                        >(NbError::WouldBlock),
                        Some(DriverReply::Failed(e)) => r == Err::<(Vec<u8>, SocketAddr), NbError>(
                            NbError::Other(Error::NrfModem(e)),
                        ),
                        Some(_) => r == Err::<(Vec<u8>, SocketAddr), NbError>(
                            NbError::Other(Error::UnexpectedAtResponse),
                        ),
                    }
                })
            },
    {
        if !socket.state.is_connected() {
            return Err(NbError::Other(Error::SocketClosed));
        }
        let reply = self.driver.call(DriverCall::RawReceive);
        match reply {
            None => Err(NbError::Other(Error::NoAtResponse)),
            Some(DriverReply::Bytes(bytes)) => {
                match socket.remote_address {
                    Some(addr) => Ok((bytes, addr)),
                    None => {
                        proof {
                            assert(false);
                        }
                        Err(NbError::Other(Error::SocketClosed))
                    },
                }
            },
            Some(DriverReply::WouldBlock) => Err(NbError::WouldBlock),
            Some(DriverReply::Failed(e)) => Err(NbError::Other(Error::NrfModem(e))),
            Some(_) => Err(NbError::Other(Error::UnexpectedAtResponse)),
        }
    }

    /// Closes the datagram channel: releases the raw transport and, if
    /// the socket was counted as a cellular user, gives that count back
    /// (powering the subsystem off when it was the last user). On a
    /// command failure the counts stay untouched.
    pub fn udp_close(&mut self, socket: UdpSocket) -> (r: Result<(), Error>)
        requires
            !(socket.state is Closed) ==> old(self).state.active_lte_sockets > 0,
        ensures
            udp_close_rel(*old(self), socket.state, *final(self), r),
    {
        let socket_state = socket.state;
        let _ = socket;
        self.driver.notify(DriverCall::CloseChannel(ChannelKind::Udp));
        if !socket_state.is_closed() {
            let ghost mid_state = self.state;
            let ghost mid_script = self.driver.script@;
            let new_state = ModemState {
                active_lte_sockets: self.state.active_lte_sockets - 1,
                active_gnss_sockets: self.state.active_gnss_sockets,
            };
            match self.change_state(new_state) {
                Ok(_) => {
                    proof {
                        assert(run_steps(power_steps(mid_state, new_state), mid_script).0->Ok_0
                            == ());
                    }
                },
                Err(e) => {
                    return Err(e);
                },
            }
        }
        Ok(())
    }
}

} // verus!
