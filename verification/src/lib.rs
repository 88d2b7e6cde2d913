//! Arbitrates access to a single shared radio resource (a cellular/satellite
//! modem) on behalf of several independent logical communication channels:
//! diagnostic command sessions, cellular-bound stream and datagram sockets,
//! name resolution and a positioning receiver.
//!
//! The native modem driver that performs the actual radio I/O is an external
//! collaborator: the library models it as an explicit port (`driver::Driver`)
//! that records every call the core issues and answers each one from a queue
//! of replies supplied by the embedding application or by a test harness.
//! Everything above that boundary — the reference-counted power controller,
//! the per-channel connection state machines, the registration poll and the
//! response parsing — is verified against every possible reply sequence.

use vstd::prelude::*;

pub mod at;
pub mod codec;
pub mod driver;
pub mod dns;
pub mod error;
pub mod gnss;
pub mod helpers;
pub mod laws;
pub mod lte;
pub mod tcp;
pub mod udp;

use crate::driver::{AtCommand, Driver, DriverCall, DriverReply};
use crate::error::{DriverError, Error, NbError};

verus! {

/// Lifecycle of one logical channel.
///
/// Resource-backed kinds pass through `WaitingForLte` while the cellular
/// subsystem registers; the others go straight from `Closed` to `Connected`.
#[derive(Debug, Clone, Copy, PartialEq, Eq, Structural)]
pub enum SocketState {
    Closed,
    WaitingForLte,
    Connected,
}

impl SocketState {
    /// Returns `true` if the socket state is [`Connected`].
    ///
    /// [`Connected`]: SocketState::Connected
    pub fn is_connected(&self) -> (r: bool)
        ensures
            r == (*self is Connected),
    {
        matches!(self, SocketState::Connected)
    }

    /// Returns `true` if the socket state is [`Closed`].
    ///
    /// [`Closed`]: SocketState::Closed
    pub fn is_closed(&self) -> (r: bool)
        ensures
            r == (*self is Closed),
    {
        matches!(self, SocketState::Closed)
    }
}

/// The two subsystem reference counts: how many currently open channels
/// require the cellular link, and how many require the positioning
/// receiver. A subsystem is powered exactly while its count is positive;
/// the counts are mutated only by [`Modem::change_state`].
#[derive(Debug, Clone, PartialEq, Eq, Structural)]
pub struct ModemState {
    pub active_lte_sockets: u32,
    pub active_gnss_sockets: u32,
}

impl Default for ModemState {
    /// Both subsystems start with no users.
    fn default() -> (r: Self)
        ensures
            r.active_lte_sockets == 0,
            r.active_gnss_sockets == 0,
    {
        ModemState { active_lte_sockets: 0, active_gnss_sockets: 0 }
    }
}

/// The top-level modem handle: the owner of the resource counts and of the
/// driver port every channel operation goes through.
#[derive(Debug)]
pub struct Modem {
    pub state: ModemState,
    pub driver: Driver,
}

/// The front reply of a script, if any.
pub open spec fn script_head(script: Seq<DriverReply>) -> Option<DriverReply> {
    if script.len() > 0 {
        Some(script[0])
    } else {
        None
    }
}

/// The script after its front reply was consumed; an exhausted script
/// stays exhausted.
pub open spec fn script_tail(script: Seq<DriverReply>) -> Seq<DriverReply> {
    if script.len() > 0 {
        script.drop_first()
    } else {
        script
    }
}

/// How the core reads the reply to a call that is only acknowledged:
/// completion (with or without a response line) succeeds, a driver fault
/// or a reply of the wrong shape fails, and an exhausted script counts as
/// the absence of any response.
pub open spec fn step_outcome(reply: Option<DriverReply>) -> Result<(), Error> {
    match reply {
        None => Err(Error::NoAtResponse),
        Some(DriverReply::Done) => Ok(()),
        Some(DriverReply::Line(_)) => Ok(()),
        Some(DriverReply::Failed(e)) => Err(Error::NrfModem(e)),
        Some(_) => Err(Error::UnexpectedAtResponse),
    }
}

/// The ordered command sequence that realizes a cellular-count transition:
/// powering on configures the low-power profile, the UICC low power mode
/// and power saving mode, then activates the cellular link; powering off
/// deactivates the link and then the UICC; staying on or off issues
/// nothing.
pub open spec fn lte_power_steps(old_count: u32, new_count: u32) -> Seq<DriverCall> {
    if old_count == 0 && new_count == 0 {
        Seq::empty()
    } else if old_count == 0 {
        seq![
            DriverCall::AtCommand(AtCommand::DataProfile),
            DriverCall::AtCommand(AtCommand::UiccLowPower),
            DriverCall::AtCommand(AtCommand::PowerSaving),
            DriverCall::AtCommand(AtCommand::LteOn),
        ]
    } else if new_count == 0 {
        seq![DriverCall::AtCommand(AtCommand::LteOff), DriverCall::AtCommand(AtCommand::UiccOff)]
    } else {
        Seq::empty()
    }
}

/// The ordered step sequence that realizes a positioning-count transition:
/// powering on invokes the external power hook before the activate
/// command, so the embedding application can prepare peripheral power
/// rails; powering off issues the deactivate command first and invokes
/// the hook with `false` after it; staying on or off issues nothing.
pub open spec fn gnss_power_steps(old_count: u32, new_count: u32) -> Seq<DriverCall> {
    if old_count == 0 && new_count == 0 {
        Seq::empty()
    } else if old_count == 0 {
        seq![DriverCall::GnssPowerHook(true), DriverCall::AtCommand(AtCommand::GnssOn)]
    } else if new_count == 0 {
        seq![DriverCall::AtCommand(AtCommand::GnssOff), DriverCall::GnssPowerHook(false)]
    } else {
        Seq::empty()
    }
}

/// Every step a transition between two count states issues, cellular
/// first, positioning second.
pub open spec fn power_steps(old_state: ModemState, new_state: ModemState) -> Seq<DriverCall> {
    lte_power_steps(old_state.active_lte_sockets, new_state.active_lte_sockets)
        + gnss_power_steps(old_state.active_gnss_sockets, new_state.active_gnss_sockets)
}

/// The outcome of issuing `steps` in order against `script`, stopping at
/// the first failure: the overall result, how many steps were issued, and
/// the script that remains.
pub open spec fn run_steps(steps: Seq<DriverCall>, script: Seq<DriverReply>) -> (Result<
    (),
    Error,
>, int, Seq<DriverReply>)
    decreases steps.len(),
{
    if steps.len() == 0 {
        (Ok(()), 0, script)
    } else {
        match step_outcome(script_head(script)) {
            Ok(_) => {
                let rest = run_steps(steps.drop_first(), script_tail(script));
                (rest.0, 1 + rest.1, rest.2)
            },
            Err(e) => (Err(e), 1, script_tail(script)),
        }
    }
}

/// A run that succeeded has issued every step; one that failed stopped at
/// the failing step, which consumed at most one reply.
pub proof fn lemma_run_steps_ok_len(steps: Seq<DriverCall>, script: Seq<DriverReply>)
    ensures
        run_steps(steps, script).0 is Ok ==> run_steps(steps, script).1 == steps.len(),
        0 <= run_steps(steps, script).1 <= steps.len(),
        run_steps(steps, script).2.len() <= script.len(),
    decreases steps.len(),
{
    if steps.len() > 0 {
        match step_outcome(script_head(script)) {
            Ok(_) => lemma_run_steps_ok_len(steps.drop_first(), script_tail(script)),
            Err(_) => {},
        }
    }
}

/// How the system mode command's outcome is reported: the modem's refusal
/// codes 518 and 522 are mapped to their named error kinds, everything
/// else is passed through.
pub open spec fn mode_change_result(outcome: Result<(), Error>) -> Result<(), Error> {
    match outcome {
        Ok(_) => Ok(()),
        Err(Error::NrfModem(DriverError::AtCmeError(code))) => if code == 518 {
            Err(Error::NotAllowedInActiveState)
        } else if code == 522 {
            Err(Error::InvalidBandConfiguration)
        } else {
            Err(Error::NrfModem(DriverError::AtCmeError(code)))
        },
        Err(e) => Err(e),
    }
}

/// How one `set_system_mode` call relates the modem before (`pre`) and
/// after (`post`), and its result `r`: an invalid mode is rejected without
/// driver interaction; otherwise a command channel is opened, the mode
/// command written, and the channel closed again whatever the write's
/// outcome. The resource counts are never touched.
pub open spec fn set_system_mode_rel(
    mode: SystemMode,
    pre: Modem,
    post: Modem,
    r: Result<(), Error>,
) -> bool {
    &&& post.state == pre.state
    &&& (!mode.spec_is_valid() ==> r == Err::<(), Error>(Error::InvalidConfiguration) && post
        == pre)
    &&& (mode.spec_is_valid() ==> ({
        let s0 = pre.driver.script@;
        let l0 = pre.driver.log@;
        match step_outcome(script_head(s0)) {
            Err(e) => {
                &&& r == Err::<(), Error>(e)
                &&& post.driver.log@ == l0.push(DriverCall::OpenChannel(
                    crate::driver::ChannelKind::At,
                ))
                &&& post.driver.script@ == script_tail(s0)
            },
            Ok(_) => {
                &&& post.driver.log@.len() == l0.len() + 3
                &&& post.driver.log@.take(l0.len() as int) == l0
                &&& post.driver.log@[l0.len() as int] == DriverCall::OpenChannel(
                    crate::driver::ChannelKind::At,
                )
                &&& (post.driver.log@[l0.len() as int + 1] matches DriverCall::AtWriteRaw(v) && v@
                    == mode.spec_command_bytes())
                &&& post.driver.log@[l0.len() as int + 2] == DriverCall::CloseChannel(
                    crate::driver::ChannelKind::At,
                )
                &&& post.driver.script@ == script_tail(script_tail(s0))
                &&& r == mode_change_result(step_outcome(script_head(script_tail(s0))))
            },
        }
    }))
}

/// Classification of a network registration status code.
pub open spec fn spec_registration_result(stat: int) -> Result<(), NbError> {
    if stat == 1 || stat == 5 {
        Ok(())
    } else if stat == 0 || stat == 2 || stat == 4 {
        Err(NbError::WouldBlock)
    } else if stat == 3 {
        Err(NbError::Other(Error::LteRegistrationDenied))
    } else if stat == 90 {
        Err(NbError::Other(Error::SimFailure))
    } else {
        Err(NbError::Other(Error::UnexpectedAtResponse))
    }
}

/// Classifies a registration status code: registered at home (1) or
/// roaming (5) is ready; not registered, idle (0), searching (2) or
/// unknown (4) is transient and must be re-polled; denied (3) and a SIM
/// failure (90) are distinct hard errors, as is any other code.
pub fn registration_result(stat: i32) -> (r: Result<(), NbError>)
    ensures
        r == spec_registration_result(stat as int),
{
    match stat {
        1 | 5 => Ok(()),
        0 | 2 | 4 => Err(NbError::WouldBlock),
        3 => Err(NbError::Other(Error::LteRegistrationDenied)),
        90 => Err(NbError::Other(Error::SimFailure)),
        _ => Err(NbError::Other(Error::UnexpectedAtResponse)),
    }
}

/// What one registration poll returns, given the reply the script holds
/// for the status query. A line whose integer runs are longer than the
/// response parser can safely accumulate is reported as a parse error
/// without consulting the parser.
pub open spec fn spec_registration_poll(head: Option<DriverReply>) -> Result<(), NbError> {
    match head {
        None => Err(NbError::Other(Error::NoAtResponse)),
        Some(DriverReply::Line(s)) => if !crate::codec::int_runs_short(
            vstd::utf8::encode_utf8(s@),
        ) {
            Err(NbError::Other(Error::AtParsing))
        } else {
            match crate::codec::cereg_fields(s@) {
                Some(f) => spec_registration_result(f.1),
                None => Err(NbError::Other(Error::AtParsing)),
            }
        },
        Some(DriverReply::Done) => Err(NbError::Other(Error::NoAtResponse)),
        Some(DriverReply::Failed(e)) => Err(NbError::Other(Error::NrfModem(e))),
        Some(_) => Err(NbError::Other(Error::UnexpectedAtResponse)),
    }
}

impl Modem {
    /// Issues `steps` in order over the driver port, stopping at the
    /// first failure; the resource counts are untouched.
    #[verifier::loop_isolation(false)]
    pub(crate) fn issue_steps(&mut self, steps: Vec<DriverCall>) -> (r: Result<(), Error>)
        ensures
            final(self).state == old(self).state,
            ({
                let run = run_steps(steps@, old(self).driver.script@);
                &&& r == run.0
                &&& final(self).driver.log@ == old(self).driver.log@ + steps@.take(run.1)
                &&& final(self).driver.script@ == run.2
            }),
    {
        let ghost steps0 = steps@;
        let mut steps = steps;
        let ghost script0 = self.driver.script@;
        let ghost log0 = self.driver.log@;
        let ghost state0 = self.state;
        proof {
            assert(steps0.skip(0) =~= steps0);
            assert(script0.skip(0) =~= script0);
            assert(log0 + steps0.take(0) =~= log0);
        }
        let ghost mut i: int = 0;
        while steps.len() > 0
            invariant
                state0 == old(self).state,
                log0 == old(self).driver.log@,
                script0 == old(self).driver.script@,
                0 <= i <= steps0.len(),
                steps@ == steps0.skip(i),
                self.state == state0,
                self.driver.log@ == log0 + steps0.take(i),
                i <= script0.len(),
                self.driver.script@ == script0.skip(i),
                run_steps(steps0, script0).0 == run_steps(steps0.skip(i), script0.skip(i)).0,
                run_steps(steps0, script0).1 == i + run_steps(steps0.skip(i), script0.skip(i)).1,
                run_steps(steps0, script0).2 == run_steps(steps0.skip(i), script0.skip(i)).2,
            decreases steps.len(),
        {
            let step = steps.remove(0);
            let reply = self.driver.call(step);
            proof {
                assert(steps0.skip(i)[0] == steps0[i]);
                assert(steps0.skip(i).drop_first() =~= steps0.skip(i + 1));
                if script0.len() > i {
                    assert(script0.skip(i).drop_first() =~= script0.skip(i + 1));
                }
                assert((log0 + steps0.take(i)).push(steps0[i]) =~= log0 + steps0.take(i + 1));
                assert(script_head(script0.skip(i)) == (if script0.len() > i {
                    Some(script0[i])
                } else {
                    None::<DriverReply>
                }));
            }
            match reply {
                None => {
                    proof {
                        assert(run_steps(steps0.skip(i), script0.skip(i)) == (Err::<
                            (),
                            Error,
                        >(Error::NoAtResponse), 1int, script_tail(script0.skip(i))));
                        assert(self.driver.script@ == script_tail(script0.skip(i)));
                        assert(run_steps(steps0, script0).1 == i + 1);
                        assert(self.driver.log@ == log0 + steps0.take(i + 1));
                    }
                    return Err(Error::NoAtResponse);
                },
                Some(DriverReply::Done) => {},
                Some(DriverReply::Line(_)) => {},
                Some(DriverReply::Failed(e)) => {
                    proof {
                        assert(run_steps(steps0.skip(i), script0.skip(i)) == (Err::<
                            (),
                            Error,
                        >(Error::NrfModem(e)), 1int, script_tail(script0.skip(i))));
                        assert(self.driver.script@ == script_tail(script0.skip(i)));
                        assert(run_steps(steps0, script0).1 == i + 1);
                        assert(self.driver.log@ == log0 + steps0.take(i + 1));
                    }
                    return Err(Error::NrfModem(e));
                },
                Some(_) => {
                    proof {
                        assert(run_steps(steps0.skip(i), script0.skip(i)) == (Err::<
                            (),
                            Error,
                        >(Error::UnexpectedAtResponse), 1int, script_tail(script0.skip(i))));
                        assert(self.driver.script@ == script_tail(script0.skip(i)));
                        assert(run_steps(steps0, script0).1 == i + 1);
                        assert(self.driver.log@ == log0 + steps0.take(i + 1));
                    }
                    return Err(Error::UnexpectedAtResponse);
                },
            }
            proof {
                i = i + 1;
            }
        }
        proof {
            assert(i == steps0.len());
            assert(run_steps(steps0.skip(i), script0.skip(i)).0 == Ok::<(), Error>(()));
            assert(steps0.take(i) =~= steps0);
        }
        Ok(())
    }

    /// Applies the minimal power transition that takes the subsystem
    /// reference counts from their current values to `new_state`'s,
    /// issuing the step sequence of [`power_steps`] over the command
    /// channel. All or nothing: the counts are committed only after every
    /// step succeeded; any failure aborts the request, leaves the counts
    /// unchanged, and surfaces the step's error. A request that changes
    /// neither count's power class issues no command at all.
    pub fn change_state(&mut self, new_state: ModemState) -> (r: Result<(), Error>)
        ensures
            ({
                let steps = power_steps(old(self).state, new_state);
                let run = run_steps(steps, old(self).driver.script@);
                &&& r == run.0
                &&& final(self).driver.log@ == old(self).driver.log@ + steps.take(run.1)
                &&& final(self).driver.script@ == run.2
                &&& (r is Ok ==> final(self).state == new_state)
                &&& (r is Err ==> final(self).state == old(self).state)
            }),
    {
        let mut steps: Vec<DriverCall> = Vec::new();
        match (self.state.active_lte_sockets, new_state.active_lte_sockets) {
            (0, 0) => {},
            (0, _) => {
                steps.push(DriverCall::AtCommand(AtCommand::DataProfile));
                steps.push(DriverCall::AtCommand(AtCommand::UiccLowPower));
                steps.push(DriverCall::AtCommand(AtCommand::PowerSaving));
                steps.push(DriverCall::AtCommand(AtCommand::LteOn));
            },
            (_, 0) => {
                steps.push(DriverCall::AtCommand(AtCommand::LteOff));
                steps.push(DriverCall::AtCommand(AtCommand::UiccOff));
            },
            (_, _) => {},
        }
        match (self.state.active_gnss_sockets, new_state.active_gnss_sockets) {
            (0, 0) => {},
            (0, _) => {
                steps.push(DriverCall::GnssPowerHook(true));
                steps.push(DriverCall::AtCommand(AtCommand::GnssOn));
            },
            (_, 0) => {
                steps.push(DriverCall::AtCommand(AtCommand::GnssOff));
                steps.push(DriverCall::GnssPowerHook(false));
            },
            (_, _) => {},
        }
        let ghost gsteps = steps@;
        proof {
            assert(gsteps =~= power_steps(self.state, new_state));
        }
        match self.issue_steps(steps) {
            Ok(_) => {
                proof {
                    assert(run_steps(gsteps, old(self).driver.script@).0->Ok_0 == ());
                }
                self.state = new_state;
                Ok(())
            },
            Err(e) => Err(e),
        }
    }

    /// Creates the modem handle over the given driver port and applies
    /// `mode` as the initial system mode; both subsystem counts start at
    /// zero. The positioning power hook of the embedding application
    /// surfaces as `GnssPowerHook` calls in the driver transcript.
    pub fn new(mode: SystemMode, driver: Driver) -> (r: Result<Modem, Error>)
        ensures
            ({
                let start = (Modem {
                    state: (ModemState { active_lte_sockets: 0, active_gnss_sockets: 0 }),
                    driver,
                });
                match r {
                    Ok(m) => set_system_mode_rel(mode, start, m, Ok(())),
                    Err(e) => exists|mf: Modem|
                        set_system_mode_rel(mode, start, mf, Err(e)),
                }
            }),
    {
        let mut modem = Modem {
            state: ModemState { active_lte_sockets: 0, active_gnss_sockets: 0 },
            driver,
        };
        match modem.set_system_mode(mode) {
            Ok(_) => Ok(modem),
            Err(e) => {
                proof {
                    assert(set_system_mode_rel(
                        mode,
                        (Modem {
                            state: (ModemState { active_lte_sockets: 0, active_gnss_sockets: 0 }),
                            driver,
                        }),
                        modem,
                        Err(e),
                    ));
                }
                Err(e)
            },
        }
    }

    /// A snapshot of the subsystem reference counts, for diagnostics.
    pub fn debug(&self) -> (r: ModemState)
        ensures
            r == self.state,
    {
        ModemState {
            active_lte_sockets: self.state.active_lte_sockets,
            active_gnss_sockets: self.state.active_gnss_sockets,
        }
    }

    /// Applies the requested system mode: validates it, opens a command
    /// channel, writes the mode command and closes the channel again
    /// whatever the outcome. The modem refuses the command with code 518
    /// while a subsystem is active and with 522 for an illegal band
    /// configuration; those come back as their named error kinds.
    pub fn set_system_mode(&mut self, mode: SystemMode) -> (r: Result<(), Error>)
        ensures
            set_system_mode_rel(mode, *old(self), *final(self), r),
    {
        if !mode.is_valid_config() {
            return Err(Error::InvalidConfiguration);
        }
        let ghost l0 = self.driver.log@;
        let mut at = match self.at_socket() {
            Ok(s) => s,
            Err(e) => {
                return Err(e);
            },
        };
        let ghost l1 = self.driver.log@;
        let execute_result = match self.at_connect(&mut at) {
            Err(e) => Err(e),
            Ok(_) => {
                let data = mode.create_at_command();
                self.at_send_raw(&mut at, data.as_slice())
            },
        };
        let ghost l2 = self.driver.log@;
        match self.at_close(at) {
            Ok(_) => {},
            Err(e) => {
                return Err(e);
            },
        }
        proof {
            assert(l1 == l0.push(DriverCall::OpenChannel(crate::driver::ChannelKind::At)));
            assert(l2.take(l1.len() as int) == l1);
            assert(self.driver.log@.len() == l0.len() + 3);
            assert forall|j: int| 0 <= j < l0.len() implies self.driver.log@[j] == l0[j] by {
                assert(l2.take(l1.len() as int)[j] == l2[j]);
                assert(l1[j] == l0[j]);
            }
            assert(self.driver.log@.take(l0.len() as int) =~= l0);
            assert(self.driver.log@[l0.len() as int] == l1[l0.len() as int]);
            assert(self.driver.log@[l0.len() as int + 1] == l2[l0.len() as int + 1]);
        }
        match execute_result {
            Err(Error::NrfModem(DriverError::AtCmeError(518))) => Err(
                Error::NotAllowedInActiveState,
            ),
            Err(Error::NrfModem(DriverError::AtCmeError(522))) => Err(
                Error::InvalidBandConfiguration,
            ),
            result => result,
        }
    }

    /// One non-blocking registration poll: issues the status query, parses
    /// the `+CEREG` response and classifies the status code. Transient
    /// states come back as `WouldBlock` — re-invoke later; the resource
    /// counts are never touched.
    pub fn wait_for_lte(&mut self) -> (r: Result<(), NbError>)
        ensures
            final(self).state == old(self).state,
            final(self).driver.log@ == old(self).driver.log@.push(
                DriverCall::AtCommand(AtCommand::RegistrationQuery),
            ),
            final(self).driver.script@ == script_tail(old(self).driver.script@),
            r == spec_registration_poll(script_head(old(self).driver.script@)),
    {
        let reply = self.driver.call(DriverCall::AtCommand(AtCommand::RegistrationQuery));
        match reply {
            None => Err(NbError::Other(Error::NoAtResponse)),
            Some(DriverReply::Line(line)) => {
                if !crate::codec::check_int_runs(line.as_str().as_bytes()) {
                    crate::error::to_nb_result(Err(Error::AtParsing))
                } else {
                    match crate::codec::parse_cereg(line.as_str()) {
                        Ok((_n, stat)) => registration_result(stat),
                        Err(e) => crate::error::to_nb_result(Err(e)),
                    }
                }
            },
            Some(DriverReply::Done) => Err(NbError::Other(Error::NoAtResponse)),
            Some(DriverReply::Failed(e)) => Err(NbError::Other(Error::NrfModem(e))),
            Some(_) => Err(NbError::Other(Error::UnexpectedAtResponse)),
        }
    }
}

/// Identifies which radios in the modem should be active, and the network
/// preference order between the cellular flavors.
#[derive(Debug, Copy, Clone, PartialEq, Eq, Structural)]
pub struct SystemMode {
    /// Enables the modem to connect to the LTE network
    pub lte_support: bool,
    /// Enables the modem to connect to the NBiot network
    pub nbiot_support: bool,
    /// Enables the modem to receive gnss signals
    pub gnss_support: bool,
    /// Sets up the preference the modem will have for connecting to the mobile network
    pub preference: ConnectionPreference,
}

/// The preference the modem will have for connecting to the mobile network
#[derive(Debug, Copy, Clone, PartialEq, Eq, Structural)]
pub enum ConnectionPreference {
    /// No preference. Initial system selection is based on history data and
    /// Universal Subscriber Identity Module (USIM)
    NoPreference,
    /// LTE-M preferred
    Lte,
    /// NB-IoT preferred
    Nbiot,
    /// Network selection priorities override system priority, but if the
    /// same network or equal priority networks are found, LTE-M is preferred
    NetworkPreferenceWithLteFallback,
    /// Network selection priorities override system priority, but if the
    /// same network or equal priority networks are found, NB-IoT is preferred
    NetworkPreferenceWithNbiotFallback,
}

impl ConnectionPreference {
    /// The numeric code this preference has in the system mode command.
    pub open spec fn spec_code(&self) -> u8 {
        match self {
            ConnectionPreference::NoPreference => 0,
            ConnectionPreference::Lte => 1,
            ConnectionPreference::Nbiot => 2,
            ConnectionPreference::NetworkPreferenceWithLteFallback => 3,
            ConnectionPreference::NetworkPreferenceWithNbiotFallback => 4,
        }
    }

    /// The numeric code this preference has in the system mode command.
    pub fn code(&self) -> (r: u8)
        ensures
            r == self.spec_code(),
    {
        match self {
            ConnectionPreference::NoPreference => 0,
            ConnectionPreference::Lte => 1,
            ConnectionPreference::Nbiot => 2,
            ConnectionPreference::NetworkPreferenceWithLteFallback => 3,
            ConnectionPreference::NetworkPreferenceWithNbiotFallback => 4,
        }
    }
}

impl SystemMode {
    /// A mode is legal when every preferred flavor is also enabled: either
    /// fallback preference needs both cellular flavors.
    pub open spec fn spec_is_valid(&self) -> bool {
        match self.preference {
            ConnectionPreference::NoPreference => true,
            ConnectionPreference::Lte => self.lte_support,
            ConnectionPreference::Nbiot => self.nbiot_support,
            ConnectionPreference::NetworkPreferenceWithLteFallback => self.lte_support
                && self.nbiot_support,
            ConnectionPreference::NetworkPreferenceWithNbiotFallback => self.lte_support
                && self.nbiot_support,
        }
    }

    /// Whether this mode is a legal combination of radios and preference.
    pub fn is_valid_config(&self) -> (r: bool)
        ensures
            r == self.spec_is_valid(),
    {
        match self.preference {
            ConnectionPreference::NoPreference => true,
            ConnectionPreference::Lte => self.lte_support,
            ConnectionPreference::Nbiot => self.nbiot_support,
            ConnectionPreference::NetworkPreferenceWithLteFallback => self.lte_support
                && self.nbiot_support,
            ConnectionPreference::NetworkPreferenceWithNbiotFallback => self.lte_support
                && self.nbiot_support,
        }
    }

    /// The wire bytes of the system mode command for this mode: a `1` for
    /// each enabled radio, a `0` for each disabled one, and the preference
    /// code.
    pub open spec fn spec_command_bytes(&self) -> Seq<u8> {
        crate::codec::system_mode_command_bytes(
            if self.lte_support { 1 } else { 0 },
            if self.nbiot_support { 1 } else { 0 },
            if self.gnss_support { 1 } else { 0 },
            self.preference.spec_code(),
        )
    }

    /// Builds the system mode command through the command codec.
    pub fn create_at_command(&self) -> (r: Vec<u8>)
        ensures
            r@ == self.spec_command_bytes(),
    {
        let lte: u8 = if self.lte_support { 1 } else { 0 };
        let nbiot: u8 = if self.nbiot_support { 1 } else { 0 };
        let gnss: u8 = if self.gnss_support { 1 } else { 0 };
        crate::codec::build_system_mode_command(lte, nbiot, gnss, self.preference.code())
    }
}

} // verus!
