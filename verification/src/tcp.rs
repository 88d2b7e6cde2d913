//! The cellular-bound stream channel: a raw stream transport that counts
//! as a cellular user while it is open.

use vstd::prelude::*;

use crate::driver::{AtCommand, ChannelKind, DriverCall, DriverReply, SocketAddr};
use crate::error::{Error, NbError};
use crate::helpers::send_outcome;
use crate::lte::{lte_down_state, lte_up_state};
use crate::{
    power_steps, run_steps, script_head, script_tail, spec_registration_poll, step_outcome, Modem,
    ModemState, SocketState,
};

verus! {

/// A stream channel over the cellular link. Must be closed through
/// [`Modem::tcp_close`] before it is let go: the close consumes the
/// socket.
#[derive(Debug)]
pub struct TcpSocket {
    pub state: SocketState,
}

/// How one close call relates the modem before (`pre`) and after
/// (`post`), given the state the socket was in and the result `r`: the
/// raw transport is always released; a socket that was counted gives its
/// count back, with the power-off commands' failure leaving the counts
/// untouched.
pub open spec fn tcp_close_rel(
    pre: Modem,
    sock_state: SocketState,
    post: Modem,
    r: Result<(), Error>,
) -> bool {
    let l1 = pre.driver.log@.push(DriverCall::CloseChannel(ChannelKind::Tcp));
    if sock_state is Closed {
        &&& r == Ok::<(), Error>(())
        &&& post.state == pre.state
        &&& post.driver.log@ == l1
        &&& post.driver.script@ == pre.driver.script@
    } else {
        let steps = power_steps(pre.state, lte_down_state(pre.state));
        let run = run_steps(steps, pre.driver.script@);
        &&& r == run.0
        &&& post.driver.log@ == l1 + steps.take(run.1)
        &&& post.driver.script@ == run.2
        &&& (r is Ok ==> post.state == lte_down_state(pre.state))
        &&& (r is Err ==> post.state == pre.state)
    }
}

/// What happens once a stream socket is pending: one registration poll
/// and, when registration is ready, the raw connect to `remote`. `base`
/// is the transcript before the poll, `script` the replies it faces,
/// `counts` the (unchanged) count state.
pub open spec fn tcp_attach_rel(
    base: Seq<DriverCall>,
    script: Seq<DriverReply>,
    remote: SocketAddr,
    counts: ModemState,
    post: Modem,
    sock_state: SocketState,
    r: Result<(), NbError>,
) -> bool {
    match spec_registration_poll(script_head(script)) {
        Err(e) => {
            &&& r == Err::<(), NbError>(e)
            &&& sock_state is WaitingForLte
            &&& post.driver.log@ == base + seq![DriverCall::AtCommand(AtCommand::RegistrationQuery)]
            &&& post.driver.script@ == script_tail(script)
            &&& post.state == counts
        },
        Ok(_) => {
            &&& post.driver.log@ == base + seq![
                DriverCall::AtCommand(AtCommand::RegistrationQuery),
                DriverCall::RawConnect(remote),
            ]
            &&& post.driver.script@ == script_tail(script_tail(script))
            &&& post.state == counts
            &&& ({
                match step_outcome(script_head(script_tail(script))) {
                    Ok(_) => r == Ok::<(), NbError>(()) && sock_state is Connected,
                    Err(e) => r == Err::<(), NbError>(NbError::Other(e))
                        && sock_state is WaitingForLte,
                }
            })
        },
    }
}

impl Modem {
    /// Allocates a stream channel; the socket starts out closed.
    pub fn tcp_socket(&mut self) -> (r: Result<TcpSocket, Error>)
        ensures
            final(self).state == old(self).state,
            final(self).driver.log@ == old(self).driver.log@.push(
                DriverCall::OpenChannel(ChannelKind::Tcp),
            ),
            final(self).driver.script@ == script_tail(old(self).driver.script@),
            ({
                match step_outcome(script_head(old(self).driver.script@)) {
                    Ok(_) => r matches Ok(s) && s.state is Closed,
                    Err(e) => r == Err::<TcpSocket, Error>(e),
                }
            }),
    {
        let reply = self.driver.call(DriverCall::OpenChannel(ChannelKind::Tcp));
        match reply {
            None => Err(Error::NoAtResponse),
            Some(DriverReply::Done) => Ok(TcpSocket { state: SocketState::Closed }),
            Some(DriverReply::Line(_)) => Ok(TcpSocket { state: SocketState::Closed }),
            Some(DriverReply::Failed(e)) => Err(Error::NrfModem(e)),
            Some(_) => Err(Error::UnexpectedAtResponse),
        }
    }

    /// One non-blocking connect step towards `remote`. A closed socket
    /// first counts itself as a cellular user (powering the subsystem on
    /// if it was the first) and becomes pending; the increment happens at
    /// most once however often the call is retried. A pending socket
    /// polls registration: while the network is still registering the
    /// call returns `WouldBlock` and must be re-invoked; once ready, the
    /// raw stream is connected to the remote endpoint.
    pub fn tcp_connect(&mut self, socket: &mut TcpSocket, remote: SocketAddr) -> (r: Result<
        (),
        NbError,
    >)
        requires
            old(socket).state is Closed ==> old(self).state.active_lte_sockets < u32::MAX,
        ensures
            r == Err::<(), NbError>(NbError::WouldBlock) ==> final(self).driver.script@.len() < old(
                self,
            ).driver.script@.len(),
            old(socket).state is Connected ==> r == Err::<(), NbError>(
                NbError::Other(Error::SocketAlreadyOpen),
            ) && *final(self) == *old(self) && *final(socket) == *old(socket),
            old(socket).state is Closed ==> ({
                let steps = power_steps(old(self).state, lte_up_state(old(self).state));
                let run = run_steps(steps, old(self).driver.script@);
                match run.0 {
                    Err(e) => {
                        &&& r == Err::<(), NbError>(NbError::Other(e))
                        &&& final(self).state == old(self).state
                        &&& *final(socket) == *old(socket)
                        &&& final(self).driver.log@ == old(self).driver.log@ + steps.take(run.1)
                        &&& final(self).driver.script@ == run.2
                    },
                    Ok(_) => tcp_attach_rel(
                        old(self).driver.log@ + steps,
                        run.2,
                        remote,
                        lte_up_state(old(self).state),
                        *final(self),
                        final(socket).state,
                        r,
                    ),
                }
            }),
            old(socket).state is WaitingForLte ==> tcp_attach_rel(
                old(self).driver.log@,
                old(self).driver.script@,
                remote,
                old(self).state,
                *final(self),
                final(socket).state,
                r,
            ),
    {
        if socket.state.is_connected() {
            return Err(NbError::Other(Error::SocketAlreadyOpen));
        }
        if socket.state.is_closed() {
            let new_state = ModemState {
                active_lte_sockets: self.state.active_lte_sockets + 1,
                active_gnss_sockets: self.state.active_gnss_sockets,
            };
            match self.change_state(new_state) {
                Ok(_) => {},
                Err(e) => {
                    return Err(NbError::Other(e));
                },
            }
            socket.state = SocketState::WaitingForLte;
            proof {
                let steps = power_steps(old(self).state, lte_up_state(old(self).state));
                crate::lemma_run_steps_ok_len(steps, old(self).driver.script@);
                assert(steps.take(steps.len() as int) =~= steps);
            }
        }
        let ghost mid_log = self.driver.log@;
        match self.wait_for_lte() {
            Ok(_) => {},
            Err(e) => {
                proof {
                    assert(self.driver.log@ =~= mid_log + seq![
                        DriverCall::AtCommand(AtCommand::RegistrationQuery),
                    ]);
                    crate::lemma_run_steps_ok_len(
                        power_steps(old(self).state, lte_up_state(old(self).state)),
                        old(self).driver.script@,
                    );
                }
                return Err(e);
            },
        }
        let reply = self.driver.call(DriverCall::RawConnect(remote));
        proof {
            assert(self.driver.log@ =~= mid_log + seq![
                DriverCall::AtCommand(AtCommand::RegistrationQuery),
                DriverCall::RawConnect(remote),
            ]);
        }
        match reply {
            None => Err(NbError::Other(Error::NoAtResponse)),
            Some(DriverReply::Done) => {
                socket.state = SocketState::Connected;
                Ok(())
            },
            Some(DriverReply::Line(_)) => {
                socket.state = SocketState::Connected;
                Ok(())
            },
            Some(DriverReply::Failed(e)) => Err(NbError::Other(Error::NrfModem(e))),
            Some(_) => Err(NbError::Other(Error::UnexpectedAtResponse)),
        }
    }

    /// Whether the stream channel is connected.
    pub fn tcp_is_connected(&mut self, socket: &TcpSocket) -> (r: Result<bool, Error>)
        ensures
            *final(self) == *old(self),
            r == Ok::<bool, Error>(socket.state is Connected),
    {
        Ok(socket.state.is_connected())
    }

    /// Non-blocking send on a connected stream channel: the number of
    /// bytes the driver accepted (never more than were offered), or
    /// `WouldBlock` when there is no buffer space yet.
    pub fn tcp_send(&mut self, socket: &mut TcpSocket, buffer: &[u8]) -> (r: Result<usize, NbError>)
        ensures
            *final(socket) == *old(socket),
            final(self).state == old(self).state,
            !(old(socket).state is Connected) ==> r == Err::<usize, NbError>(
                NbError::Other(Error::SocketClosed),
            ) && *final(self) == *old(self),
            old(socket).state is Connected ==> {
                &&& final(self).driver.log@.len() == old(self).driver.log@.len() + 1
                &&& final(self).driver.log@.take(old(self).driver.log@.len() as int) == old(
                    self,
                ).driver.log@
                &&& (final(self).driver.log@.last() matches DriverCall::RawSend(v) && v@ == buffer@)
                &&& final(self).driver.script@ == script_tail(old(self).driver.script@)
                &&& ({
                    match send_outcome(script_head(old(self).driver.script@), buffer@.len()) {
                        Ok(Some(n)) => r == Ok::<usize, NbError>(n) && n <= buffer@.len(),
                        Ok(None) => r == Err::<usize, NbError>(NbError::WouldBlock),
                        Err(e) => r == Err::<usize, NbError>(NbError::Other(e)),
                    }
                })
            },
    {
        if !socket.state.is_connected() {
            return Err(NbError::Other(Error::SocketClosed));
        }
        match crate::helpers::send(self, buffer) {
            Ok(Some(amount)) => Ok(amount),
            Ok(None) => Err(NbError::WouldBlock),
            Err(e) => Err(NbError::Other(e)),
        }
    }

    /// Non-blocking receive on a connected stream channel: the bytes the
    /// driver handed over, or `WouldBlock` when nothing has arrived yet.
    pub fn tcp_receive(&mut self, socket: &mut TcpSocket) -> (r: Result<Vec<u8>, NbError>)
        ensures
            *final(socket) == *old(socket),
            final(self).state == old(self).state,
            !(old(socket).state is Connected) ==> r == Err::<Vec<u8>, NbError>(
                NbError::Other(Error::SocketClosed),
            ) && *final(self) == *old(self),
            old(socket).state is Connected ==> {
                &&& final(self).driver.log@ == old(self).driver.log@.push(DriverCall::RawReceive)
                &&& final(self).driver.script@ == script_tail(old(self).driver.script@)
                &&& ({
                    match script_head(old(self).driver.script@) {
                        None => r == Err::<Vec<u8>, NbError>(NbError::Other(Error::NoAtResponse)),
                        Some(DriverReply::Bytes(bytes)) => r matches Ok(v) && v@ == bytes@,
                        Some(DriverReply::WouldBlock) => r == Err::<Vec<u8>, NbError>(
                            NbError::WouldBlock,
                        ),
                        Some(DriverReply::Failed(e)) => r == Err::<Vec<u8>, NbError>(
                            NbError::Other(Error::NrfModem(e)),
                        ),
                        Some(_) => r == Err::<Vec<u8>, NbError>(
                            NbError::Other(Error::UnexpectedAtResponse),
                        ),
                    }
                })
            },
    {
        if !socket.state.is_connected() {
            return Err(NbError::Other(Error::SocketClosed));
        }
        let reply = self.driver.call(DriverCall::RawReceive);
        match reply {
            None => Err(NbError::Other(Error::NoAtResponse)),
            Some(DriverReply::Bytes(bytes)) => Ok(bytes),
            Some(DriverReply::WouldBlock) => Err(NbError::WouldBlock),
            Some(DriverReply::Failed(e)) => Err(NbError::Other(Error::NrfModem(e))),
            Some(_) => Err(NbError::Other(Error::UnexpectedAtResponse)),
        }
    }

    /// Closes the stream channel: releases the raw transport and, if the
    /// socket was counted as a cellular user, gives that count back
    /// (powering the subsystem off when it was the last user). On a
    /// command failure the counts stay untouched.
    pub fn tcp_close(&mut self, socket: TcpSocket) -> (r: Result<(), Error>)
        requires
            !(socket.state is Closed) ==> old(self).state.active_lte_sockets > 0,
        ensures
            tcp_close_rel(*old(self), socket.state, *final(self), r),
    {
        let socket_state = socket.state;
        let _ = socket;
        self.driver.notify(DriverCall::CloseChannel(ChannelKind::Tcp));
        if !socket_state.is_closed() {
            let ghost mid_state = self.state;
            let ghost mid_script = self.driver.script@;
            let new_state = ModemState {
                active_lte_sockets: self.state.active_lte_sockets - 1,
                active_gnss_sockets: self.state.active_gnss_sockets,
            };
            match self.change_state(new_state) {
                Ok(_) => {
                    proof {
                        assert(run_steps(power_steps(mid_state, new_state), mid_script).0->Ok_0
                            == ());
                    }
                },
                Err(e) => {
                    return Err(e);
                },
            }
        }
        Ok(())
    }
}

} // verus!
