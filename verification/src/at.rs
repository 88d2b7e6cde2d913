//! The diagnostic command channel: a raw bidirectional channel to the
//! modem's command interface. It keeps one open/closed flag and does no
//! resource accounting of its own.

use vstd::prelude::*;

use crate::driver::{ChannelKind, DriverCall, DriverReply};
use crate::error::{Error, NbError};
use crate::{script_head, script_tail, step_outcome, Modem, SocketState};

verus! {

/// A direct command channel to the modem. Must be closed through
/// [`Modem::at_close`] before it is let go: the close consumes the socket.
#[derive(Debug)]
pub struct AtSocket {
    pub state: SocketState,
}

impl Modem {
    /// Create an AT socket with which you can communicate with the modem
    /// directly. Allocates the raw channel through the driver; the socket
    /// starts out closed.
    pub fn at_socket(&mut self) -> (r: Result<AtSocket, Error>)
        ensures
            final(self).state == old(self).state,
            final(self).driver.log@ == old(self).driver.log@.push(
                DriverCall::OpenChannel(ChannelKind::At),
            ),
            final(self).driver.script@ == script_tail(old(self).driver.script@),
            ({
                match step_outcome(script_head(old(self).driver.script@)) {
                    Ok(_) => r matches Ok(s) && s.state is Closed,
                    Err(e) => r == Err::<AtSocket, Error>(e),
                }
            }),
    {
        let reply = self.driver.call(DriverCall::OpenChannel(ChannelKind::At));
        match reply {
            None => Err(Error::NoAtResponse),
            Some(DriverReply::Done) => Ok(AtSocket { state: SocketState::Closed }),
            Some(DriverReply::Line(_)) => Ok(AtSocket { state: SocketState::Closed }),
            Some(DriverReply::Failed(e)) => Err(Error::NrfModem(e)),
            Some(_) => Err(Error::UnexpectedAtResponse),
        }
    }

    /// Marks the channel as connected. Purely local: the raw channel was
    /// already allocated by [`Modem::at_socket`], so nothing is issued to
    /// the driver. Fails if the socket is already connected.
    pub fn at_connect(&mut self, socket: &mut AtSocket) -> (r: Result<(), Error>)
        ensures
            *final(self) == *old(self),
            old(socket).state is Connected ==> r == Err::<(), Error>(Error::SocketAlreadyOpen)
                && *final(socket) == *old(socket),
            !(old(socket).state is Connected) ==> r == Ok::<(), Error>(())
                && final(socket).state is Connected,
    {
        if socket.state.is_connected() {
            return Err(Error::SocketAlreadyOpen);
        }
        socket.state = SocketState::Connected;
        Ok(())
    }

    /// Sends one command line on a connected channel; fails with
    /// `SocketClosed` (issuing nothing) when the channel is not connected.
    pub fn at_send(&mut self, socket: &mut AtSocket, data: &str) -> (r: Result<(), Error>)
        ensures
            *final(socket) == *old(socket),
            final(self).state == old(self).state,
            !(old(socket).state is Connected) ==> r == Err::<(), Error>(Error::SocketClosed)
                && *final(self) == *old(self),
            old(socket).state is Connected ==> {
                &&& final(self).driver.log@.len() == old(self).driver.log@.len() + 1
                &&& final(self).driver.log@.take(old(self).driver.log@.len() as int) == old(
                    self,
                ).driver.log@
                &&& (final(self).driver.log@.last() matches DriverCall::AtSendCommand(s)
                    && s@ == data@)
                &&& final(self).driver.script@ == script_tail(old(self).driver.script@)
                &&& r == step_outcome(script_head(old(self).driver.script@))
            },
    {
        if !socket.state.is_connected() {
            return Err(Error::SocketClosed);
        }
        let reply = self.driver.call(DriverCall::AtSendCommand(data.to_owned()));
        proof {
            assert(self.driver.log@.take(old(self).driver.log@.len() as int) =~= old(
                self,
            ).driver.log@);
        }
        match reply {
            None => Err(Error::NoAtResponse),
            Some(DriverReply::Done) => Ok(()),
            Some(DriverReply::Line(_)) => Ok(()),
            Some(DriverReply::Failed(e)) => Err(Error::NrfModem(e)),
            Some(_) => Err(Error::UnexpectedAtResponse),
        }
    }

    /// Writes raw bytes on a connected channel; fails with `SocketClosed`
    /// (issuing nothing) when the channel is not connected.
    pub fn at_send_raw(&mut self, socket: &mut AtSocket, data: &[u8]) -> (r: Result<(), Error>)
        ensures
            *final(socket) == *old(socket),
            final(self).state == old(self).state,
            !(old(socket).state is Connected) ==> r == Err::<(), Error>(Error::SocketClosed)
                && *final(self) == *old(self),
            old(socket).state is Connected ==> {
                &&& final(self).driver.log@.len() == old(self).driver.log@.len() + 1
                &&& final(self).driver.log@.take(old(self).driver.log@.len() as int) == old(
                    self,
                ).driver.log@
                &&& (final(self).driver.log@.last() matches DriverCall::AtWriteRaw(v) && v@
                    == data@)
                &&& final(self).driver.script@ == script_tail(old(self).driver.script@)
                &&& r == step_outcome(script_head(old(self).driver.script@))
            },
    {
        if !socket.state.is_connected() {
            return Err(Error::SocketClosed);
        }
        let reply = self.driver.call(DriverCall::AtWriteRaw(vstd::slice::slice_to_vec(data)));
        proof {
            assert(self.driver.log@.take(old(self).driver.log@.len() as int) =~= old(
                self,
            ).driver.log@);
        }
        match reply {
            None => Err(Error::NoAtResponse),
            Some(DriverReply::Done) => Ok(()),
            Some(DriverReply::Line(_)) => Ok(()),
            Some(DriverReply::Failed(e)) => Err(Error::NrfModem(e)),
            Some(_) => Err(Error::UnexpectedAtResponse),
        }
    }

    /// Polls the channel for one response line: `Ok(Some(line))` when a
    /// line arrived, `Ok(None)` when the poll completed without data.
    pub fn at_poll_response(&mut self, socket: &mut AtSocket) -> (r: Result<Option<String>, Error>)
        ensures
            *final(socket) == *old(socket),
            final(self).state == old(self).state,
            final(self).driver.log@ == old(self).driver.log@.push(DriverCall::AtPollResponse),
            final(self).driver.script@ == script_tail(old(self).driver.script@),
            ({
                match script_head(old(self).driver.script@) {
                    None => r == Err::<Option<String>, Error>(Error::NoAtResponse),
                    Some(DriverReply::Done) => r matches Ok(l) && l is None,
                    Some(DriverReply::Line(s)) => r matches Ok(l) && (l matches Some(line) && line@
                        == s@),
                    Some(DriverReply::Failed(e)) => r == Err::<Option<String>, Error>(
                        Error::NrfModem(e),
                    ),
                    Some(_) => r == Err::<Option<String>, Error>(Error::UnexpectedAtResponse),
                }
            }),
    {
        let reply = self.driver.call(DriverCall::AtPollResponse);
        match reply {
            None => Err(Error::NoAtResponse),
            Some(DriverReply::Done) => Ok(None),
            Some(DriverReply::Line(s)) => Ok(Some(s)),
            Some(DriverReply::Failed(e)) => Err(Error::NrfModem(e)),
            Some(_) => Err(Error::UnexpectedAtResponse),
        }
    }

    /// Non-blocking read on a connected channel: the received bytes, or
    /// `WouldBlock` when nothing is available yet.
    pub fn at_receive(&mut self, socket: &mut AtSocket) -> (r: Result<Vec<u8>, NbError>)
        ensures
            *final(socket) == *old(socket),
            final(self).state == old(self).state,
            !(old(socket).state is Connected) ==> r == Err::<Vec<u8>, NbError>(
                NbError::Other(Error::SocketClosed),
            ) && *final(self) == *old(self),
            old(socket).state is Connected ==> {
                &&& final(self).driver.log@ == old(self).driver.log@.push(DriverCall::AtReceive)
                &&& final(self).driver.script@ == script_tail(old(self).driver.script@)
                &&& ({
                    match script_head(old(self).driver.script@) {
                        None => r == Err::<Vec<u8>, NbError>(NbError::Other(Error::NoAtResponse)),
                        Some(DriverReply::Bytes(bytes)) => r matches Ok(v) && v@ == bytes@,
                        Some(DriverReply::WouldBlock) => r == Err::<Vec<u8>, NbError>(
                            NbError::WouldBlock,
                        ),
                        Some(DriverReply::Failed(e)) => r == Err::<Vec<u8>, NbError>(
                            NbError::Other(Error::NrfModem(e)),
                        ),
                        Some(_) => r == Err::<Vec<u8>, NbError>(
                            NbError::Other(Error::UnexpectedAtResponse),
                        ),
                    }
                })
            },
    {
        if !socket.state.is_connected() {
            return Err(NbError::Other(Error::SocketClosed));
        }
        let reply = self.driver.call(DriverCall::AtReceive);
        match reply {
            None => Err(NbError::Other(Error::NoAtResponse)),
            Some(DriverReply::Bytes(bytes)) => Ok(bytes),
            Some(DriverReply::WouldBlock) => Err(NbError::WouldBlock),
            Some(DriverReply::Failed(e)) => Err(NbError::Other(Error::NrfModem(e))),
            Some(_) => Err(NbError::Other(Error::UnexpectedAtResponse)),
        }
    }

    /// Closes the channel and releases its raw handle. Consumes the socket,
    /// so a closed channel cannot be used again; the release itself cannot
    /// fail.
    pub fn at_close(&mut self, socket: AtSocket) -> (r: Result<(), Error>)
        ensures
            final(self).state == old(self).state,
            final(self).driver.log@ == old(self).driver.log@.push(
                DriverCall::CloseChannel(ChannelKind::At),
            ),
            final(self).driver.script@ == old(self).driver.script@,
            r == Ok::<(), Error>(()),
    {
        let _ = socket;
        self.driver.notify(DriverCall::CloseChannel(ChannelKind::At));
        Ok(())
    }
}

} // verus!
