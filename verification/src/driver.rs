//! The boundary to the native modem driver, modeled as an explicit port.
//!
//! The core never performs radio I/O itself. Every interaction with the
//! native driver — command round trips, raw channel operations, the
//! positioning power hook, name resolution — is issued as a [`DriverCall`]
//! on a [`Driver`] value. The port records each call in `log` (the
//! transcript the contracts and the tests speak about) and answers it with
//! the next queued [`DriverReply`]. The embedding application or a test
//! harness decides the replies; the core is verified against every possible
//! reply sequence.

use vstd::prelude::*;

use crate::error::DriverError;

verus! {

/// An IP address as plain values: four octets, or eight 16-bit groups.
#[derive(Debug, Clone, Copy, PartialEq, Eq)]
pub enum IpAddr {
    V4([u8; 4]),
    V6([u16; 8]),
}

/// A remote endpoint: address and port.
#[derive(Debug, Clone, Copy, PartialEq, Eq)]
pub struct SocketAddr {
    pub ip: IpAddr,
    pub port: u16,
}

/// Address-family preference for name resolution.
#[derive(Debug, Clone, Copy, PartialEq, Eq, Structural)]
pub enum AddrType {
    IPv4,
    IPv6,
    Either,
}

/// The four raw channel kinds the driver can open.
#[derive(Debug, Clone, Copy, PartialEq, Eq, Structural)]
pub enum ChannelKind {
    At,
    Tcp,
    Udp,
    Gnss,
}

/// The fixed command vocabulary the core sends over the one-shot command
/// round trip; [`AtCommand::text`] gives each command's wire text.
#[derive(Debug, Clone, Copy, PartialEq, Eq, Structural)]
pub enum AtCommand {
    /// `AT%XDATAPRFL=0` — select the ultra-low-power profile.
    DataProfile,
    /// `AT+CEPPI=1` — put the UICC (SIM) into low power mode.
    UiccLowPower,
    /// `AT+CPSMS=1` — enable power saving mode.
    PowerSaving,
    /// `AT+CFUN=21` — activate the cellular link without touching GNSS.
    LteOn,
    /// `AT+CFUN=20` — deactivate the cellular link without touching GNSS.
    LteOff,
    /// `AT+CFUN=40` — deactivate the UICC.
    UiccOff,
    /// `AT+CFUN=31` — activate GNSS without touching the cellular link.
    GnssOn,
    /// `AT+CFUN=30` — deactivate GNSS without touching the cellular link.
    GnssOff,
    /// `AT+CEREG?` — query the network registration status.
    RegistrationQuery,
    /// `AT+CCLK?` — query the modem clock.
    ClockQuery,
}

impl AtCommand {
    /// The line sent over the command channel for this command.
    pub fn text(&self) -> (r: &'static str)
        ensures
            r@ == self.spec_text(),
    {
        proof {
            reveal_strlit("AT%XDATAPRFL=0");
            reveal_strlit("AT+CEPPI=1");
            reveal_strlit("AT+CPSMS=1");
            reveal_strlit("AT+CFUN=21");
            reveal_strlit("AT+CFUN=20");
            reveal_strlit("AT+CFUN=40");
            reveal_strlit("AT+CFUN=31");
            reveal_strlit("AT+CFUN=30");
            reveal_strlit("AT+CEREG?");
            reveal_strlit("AT+CCLK?");
        }
        match self {
            AtCommand::DataProfile => "AT%XDATAPRFL=0",
            AtCommand::UiccLowPower => "AT+CEPPI=1",
            AtCommand::PowerSaving => "AT+CPSMS=1",
            AtCommand::LteOn => "AT+CFUN=21",
            AtCommand::LteOff => "AT+CFUN=20",
            AtCommand::UiccOff => "AT+CFUN=40",
            AtCommand::GnssOn => "AT+CFUN=31",
            AtCommand::GnssOff => "AT+CFUN=30",
            AtCommand::RegistrationQuery => "AT+CEREG?",
            AtCommand::ClockQuery => "AT+CCLK?",
        }
    }

    /// The wire text of each command, as a sequence of characters.
    pub open spec fn spec_text(&self) -> Seq<char> {
        match self {
            AtCommand::DataProfile => "AT%XDATAPRFL=0"@,
            AtCommand::UiccLowPower => "AT+CEPPI=1"@,
            AtCommand::PowerSaving => "AT+CPSMS=1"@,
            AtCommand::LteOn => "AT+CFUN=21"@,
            AtCommand::LteOff => "AT+CFUN=20"@,
            AtCommand::UiccOff => "AT+CFUN=40"@,
            AtCommand::GnssOn => "AT+CFUN=31"@,
            AtCommand::GnssOff => "AT+CFUN=30"@,
            AtCommand::RegistrationQuery => "AT+CEREG?"@,
            AtCommand::ClockQuery => "AT+CCLK?"@,
        }
    }
}

/// A raw positioning fix as handed over by the driver; decoding fix payloads
/// is outside this design.
#[derive(Debug, Clone, PartialEq, Eq)]
pub struct GnssData {
    pub raw: Vec<u8>,
}

/// One call the core issues on the driver boundary.
#[derive(Debug, Clone, PartialEq, Eq)]
pub enum DriverCall {
    /// Allocate the raw transport handle of a channel.
    OpenChannel(ChannelKind),
    /// Release the raw transport handle of a channel.
    CloseChannel(ChannelKind),
    /// One blocking command/response round trip on the command interface.
    AtCommand(AtCommand),
    /// The caller-supplied positioning power hook; `true` when enabling.
    GnssPowerHook(bool),
    /// Send one command line on an open command channel.
    AtSendCommand(String),
    /// Write raw bytes on an open command channel.
    AtWriteRaw(Vec<u8>),
    /// Poll an open command channel for one response line.
    AtPollResponse,
    /// Non-blocking read on an open command channel.
    AtReceive,
    /// Connect a raw stream or datagram channel to a remote endpoint.
    RawConnect(SocketAddr),
    /// Non-blocking send on a connected raw channel.
    RawSend(Vec<u8>),
    /// Non-blocking receive on a connected raw channel.
    RawReceive,
    /// Configure the positioning fix interval, in seconds.
    GnssSetFixInterval(u16),
    /// Configure the positioning fix retry time, in seconds.
    GnssSetFixRetry(u16),
    /// Configure which NMEA sentences the receiver produces.
    GnssSetNmeaMask(u32),
    /// Start the positioning receiver with the given delete mask.
    GnssStart(u32),
    /// Poll the positioning receiver for a fix.
    GnssReadFix,
    /// Resolve a hostname with an address-family hint.
    Resolve(String, AddrType),
}

/// One answer from the driver boundary. Which variants are meaningful
/// depends on the call; the core maps a reply of the wrong shape to
/// [`crate::error::Error::UnexpectedAtResponse`].
#[derive(Debug, Clone, PartialEq, Eq)]
pub enum DriverReply {
    /// The call completed without payload.
    Done,
    /// The call completed and produced one response line.
    Line(String),
    /// A read completed with these bytes.
    Bytes(Vec<u8>),
    /// A send accepted this many bytes.
    Accepted(usize),
    /// The positioning receiver produced a fix.
    Fix(GnssData),
    /// The resolver produced these candidate addresses.
    Records(Vec<IpAddr>),
    /// The operation would block; try again later.
    WouldBlock,
    /// The driver reported a fault.
    Failed(DriverError),
}

/// The driver port. `log` is the transcript of every call issued so far;
/// `script` holds the replies still to be given, consumed front to back.
/// An exhausted script answers `None`, which the core reports as the
/// "no response" error.
#[derive(Debug)]
pub struct Driver {
    pub script: Vec<DriverReply>,
    pub log: Vec<DriverCall>,
}

impl Driver {
    /// A port with no queued replies and an empty transcript.
    pub fn new() -> (r: Driver)
        ensures
            r.script@ == Seq::<DriverReply>::empty(),
            r.log@ == Seq::<DriverCall>::empty(),
    {
        Driver { script: Vec::new(), log: Vec::new() }
    }

    /// A port that will answer with `script`, front first.
    pub fn with_script(script: Vec<DriverReply>) -> (r: Driver)
        ensures
            r.script == script,
            r.log@ == Seq::<DriverCall>::empty(),
    {
        Driver { script, log: Vec::new() }
    }

    /// Queue one more reply at the back of the script.
    pub fn push_reply(&mut self, reply: DriverReply)
        ensures
            final(self).script@ == old(self).script@.push(reply),
            final(self).log == old(self).log,
    {
        self.script.push(reply);
    }

    /// Record a call that reports no outcome (releasing a handle): it goes
    /// into the transcript but consumes no reply.
    pub fn notify(&mut self, c: DriverCall)
        ensures
            final(self).log@ == old(self).log@.push(c),
            final(self).script == old(self).script,
    {
        self.log.push(c);
    }

    /// Issue one call: record it in the transcript and take the front
    /// reply off the script, or `None` when the script is exhausted.
    pub fn call(&mut self, c: DriverCall) -> (r: Option<DriverReply>)
        ensures
            final(self).log@ == old(self).log@.push(c),
            old(self).script@.len() > 0 ==> {
                &&& r == Some(old(self).script@[0])
                &&& final(self).script@ == old(self).script@.drop_first()
            },
            old(self).script@.len() == 0 ==> {
                &&& r is None
                &&& final(self).script@ == old(self).script@
            },
    {
        self.log.push(c);
        if self.script.len() > 0 {
            Some(self.script.remove(0))
        } else {
            None
        }
    }
}

} // verus!
