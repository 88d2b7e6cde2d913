//! Tests of the resource controller: power sequencing, atomicity, and the
//! system mode command.

use modem_mux::driver::{AtCommand, Driver, DriverCall, DriverReply};
use modem_mux::error::{DriverError, Error, NbError};
use modem_mux::registration_result;
use modem_mux::{ConnectionPreference, Modem, ModemState, SystemMode};

fn fresh_modem(script: Vec<DriverReply>) -> Modem {
    Modem {
        state: ModemState { active_lte_sockets: 0, active_gnss_sockets: 0 },
        driver: Driver::with_script(script),
    }
}

fn at(c: AtCommand) -> DriverCall {
    DriverCall::AtCommand(c)
}

#[test]
fn power_on_issues_the_fixed_sequence() {
    let mut modem = fresh_modem(vec![
        DriverReply::Done,
        DriverReply::Done,
        DriverReply::Done,
        DriverReply::Done,
    ]);
    let r = modem.change_state(ModemState { active_lte_sockets: 1, active_gnss_sockets: 0 });
    assert!(r.is_ok());
    assert_eq!(
        modem.driver.log,
        vec![
            at(AtCommand::DataProfile),
            at(AtCommand::UiccLowPower),
            at(AtCommand::PowerSaving),
            at(AtCommand::LteOn),
        ]
    );
    assert_eq!(modem.state.active_lte_sockets, 1);
}

#[test]
fn power_off_issues_deactivate_then_uicc_off() {
    let mut modem = Modem {
        state: ModemState { active_lte_sockets: 2, active_gnss_sockets: 0 },
        driver: Driver::with_script(vec![DriverReply::Done, DriverReply::Done]),
    };
    let r = modem.change_state(ModemState { active_lte_sockets: 0, active_gnss_sockets: 0 });
    assert!(r.is_ok());
    assert_eq!(modem.driver.log, vec![at(AtCommand::LteOff), at(AtCommand::UiccOff)]);
    assert_eq!(modem.state.active_lte_sockets, 0);
}

#[test]
fn unchanged_counts_emit_no_command() {
    let mut modem = Modem {
        state: ModemState { active_lte_sockets: 1, active_gnss_sockets: 1 },
        driver: Driver::with_script(vec![]),
    };
    let r = modem.change_state(ModemState { active_lte_sockets: 1, active_gnss_sockets: 1 });
    assert!(r.is_ok());
    assert!(modem.driver.log.is_empty());
}

#[test]
fn count_change_within_active_emits_no_command() {
    let mut modem = Modem {
        state: ModemState { active_lte_sockets: 1, active_gnss_sockets: 0 },
        driver: Driver::with_script(vec![]),
    };
    let r = modem.change_state(ModemState { active_lte_sockets: 3, active_gnss_sockets: 0 });
    assert!(r.is_ok());
    assert!(modem.driver.log.is_empty());
    assert_eq!(modem.state.active_lte_sockets, 3);
}

#[test]
fn power_on_failure_leaves_counts_unchanged() {
    let mut modem = fresh_modem(vec![
        DriverReply::Done,
        DriverReply::Done,
        DriverReply::Failed(DriverError::Nordic(-1, 60)),
    ]);
    let r = modem.change_state(ModemState { active_lte_sockets: 1, active_gnss_sockets: 0 });
    assert_eq!(r, Err(Error::NrfModem(DriverError::Nordic(-1, 60))));
    assert_eq!(modem.state.active_lte_sockets, 0);
    assert_eq!(modem.state.active_gnss_sockets, 0);
    // the sequence stopped at the failing command
    assert_eq!(
        modem.driver.log,
        vec![at(AtCommand::DataProfile), at(AtCommand::UiccLowPower), at(AtCommand::PowerSaving)]
    );
}

#[test]
fn exhausted_channel_counts_as_no_response() {
    let mut modem = fresh_modem(vec![DriverReply::Done]);
    let r = modem.change_state(ModemState { active_lte_sockets: 1, active_gnss_sockets: 0 });
    assert_eq!(r, Err(Error::NoAtResponse));
    assert_eq!(modem.state.active_lte_sockets, 0);
}

#[test]
fn gnss_power_hook_wraps_the_commands() {
    let mut modem = fresh_modem(vec![DriverReply::Done, DriverReply::Done]);
    let r = modem.change_state(ModemState { active_lte_sockets: 0, active_gnss_sockets: 1 });
    assert!(r.is_ok());
    // hook with `true` before the activate command
    assert_eq!(modem.driver.log, vec![DriverCall::GnssPowerHook(true), at(AtCommand::GnssOn)]);

    modem.driver.push_reply(DriverReply::Done);
    modem.driver.push_reply(DriverReply::Done);
    let r = modem.change_state(ModemState { active_lte_sockets: 0, active_gnss_sockets: 0 });
    assert!(r.is_ok());
    // deactivate first, hook with `false` after it
    assert_eq!(
        modem.driver.log[2..],
        [at(AtCommand::GnssOff), DriverCall::GnssPowerHook(false)]
    );
}

#[test]
fn registration_codes_classify() {
    assert_eq!(registration_result(1), Ok(()));
    assert_eq!(registration_result(5), Ok(()));
    assert_eq!(registration_result(0), Err(NbError::WouldBlock));
    assert_eq!(registration_result(2), Err(NbError::WouldBlock));
    assert_eq!(registration_result(4), Err(NbError::WouldBlock));
    assert_eq!(registration_result(3), Err(NbError::Other(Error::LteRegistrationDenied)));
    assert_eq!(registration_result(90), Err(NbError::Other(Error::SimFailure)));
    assert_eq!(registration_result(7), Err(NbError::Other(Error::UnexpectedAtResponse)));
}

#[test]
fn wait_for_lte_parses_the_status_line() {
    let mut modem = fresh_modem(vec![DriverReply::Line("+CEREG: 0,1".to_string())]);
    assert_eq!(modem.wait_for_lte(), Ok(()));
    assert_eq!(modem.driver.log, vec![at(AtCommand::RegistrationQuery)]);

    modem.driver.push_reply(DriverReply::Line("+CEREG: 2,3".to_string()));
    assert_eq!(modem.wait_for_lte(), Err(NbError::Other(Error::LteRegistrationDenied)));

    modem.driver.push_reply(DriverReply::Line("+CEREG: 0,90".to_string()));
    assert_eq!(modem.wait_for_lte(), Err(NbError::Other(Error::SimFailure)));

    modem.driver.push_reply(DriverReply::Line("nonsense".to_string()));
    assert_eq!(modem.wait_for_lte(), Err(NbError::Other(Error::AtParsing)));

    // exhausted script: no response at all
    assert_eq!(modem.wait_for_lte(), Err(NbError::Other(Error::NoAtResponse)));

    // a completed round trip without any line is no response either
    modem.driver.push_reply(DriverReply::Done);
    assert_eq!(modem.wait_for_lte(), Err(NbError::Other(Error::NoAtResponse)));
}

/// Status lines with over-long integer runs are rejected before they
/// reach the response parser, whose accumulation they could overflow.
#[test]
fn overlong_integer_runs_are_rejected_without_parsing() {
    let mut modem = fresh_modem(vec![DriverReply::Line("+CEREG: 9999999999,1".to_string())]);
    assert_eq!(modem.wait_for_lte(), Err(NbError::Other(Error::AtParsing)));

    modem.driver.push_reply(DriverReply::Line("+CEREG: 2147483648,1".to_string()));
    assert_eq!(modem.wait_for_lte(), Err(NbError::Other(Error::AtParsing)));

    // nine digits are within the safe range and parse normally
    modem.driver.push_reply(DriverReply::Line("+CEREG: 999999999,1".to_string()));
    assert_eq!(modem.wait_for_lte(), Ok(()));
}

#[test]
fn system_mode_command_has_the_exact_wire_bytes() {
    let mode = SystemMode {
        lte_support: true,
        nbiot_support: false,
        gnss_support: true,
        preference: ConnectionPreference::NoPreference,
    };
    assert_eq!(mode.create_at_command(), b"AT%XSYSTEMMODE=1,0,1,0\r\n".to_vec());

    let mode = SystemMode {
        lte_support: true,
        nbiot_support: true,
        gnss_support: false,
        preference: ConnectionPreference::NetworkPreferenceWithNbiotFallback,
    };
    assert_eq!(mode.create_at_command(), b"AT%XSYSTEMMODE=1,1,0,4\r\n".to_vec());
}

#[test]
fn system_mode_validity() {
    let base = SystemMode {
        lte_support: false,
        nbiot_support: false,
        gnss_support: true,
        preference: ConnectionPreference::NoPreference,
    };
    assert!(base.is_valid_config());
    let lte_pref = SystemMode { preference: ConnectionPreference::Lte, ..base };
    assert!(!lte_pref.is_valid_config());
    let lte_pref_ok = SystemMode { lte_support: true, ..lte_pref };
    assert!(lte_pref_ok.is_valid_config());
    let nb_pref = SystemMode { preference: ConnectionPreference::Nbiot, ..base };
    assert!(!nb_pref.is_valid_config());
    let fallback = SystemMode {
        lte_support: true,
        preference: ConnectionPreference::NetworkPreferenceWithLteFallback,
        ..base
    };
    assert!(!fallback.is_valid_config());
    let fallback_ok = SystemMode { nbiot_support: true, ..fallback };
    assert!(fallback_ok.is_valid_config());
}

#[test]
fn set_system_mode_writes_then_closes() {
    let mut modem = fresh_modem(vec![DriverReply::Done, DriverReply::Done]);
    let mode = SystemMode {
        lte_support: true,
        nbiot_support: false,
        gnss_support: false,
        preference: ConnectionPreference::Lte,
    };
    assert_eq!(modem.set_system_mode(mode), Ok(()));
    assert_eq!(modem.driver.log.len(), 3);
    assert!(matches!(modem.driver.log[0], DriverCall::OpenChannel(_)));
    match &modem.driver.log[1] {
        DriverCall::AtWriteRaw(bytes) => {
            assert_eq!(bytes, &b"AT%XSYSTEMMODE=1,0,0,1\r\n".to_vec());
        },
        other => panic!("unexpected call {:?}", other),
    }
    assert!(matches!(modem.driver.log[2], DriverCall::CloseChannel(_)));
}

#[test]
fn set_system_mode_rejects_invalid_modes_without_commands() {
    let mut modem = fresh_modem(vec![]);
    let mode = SystemMode {
        lte_support: false,
        nbiot_support: false,
        gnss_support: false,
        preference: ConnectionPreference::Lte,
    };
    assert_eq!(modem.set_system_mode(mode), Err(Error::InvalidConfiguration));
    assert!(modem.driver.log.is_empty());
}

#[test]
fn set_system_mode_maps_the_vendor_refusal_codes() {
    let mode = SystemMode {
        lte_support: true,
        nbiot_support: false,
        gnss_support: false,
        preference: ConnectionPreference::NoPreference,
    };
    let mut modem = fresh_modem(vec![
        DriverReply::Done,
        DriverReply::Failed(DriverError::AtCmeError(518)),
    ]);
    assert_eq!(modem.set_system_mode(mode), Err(Error::NotAllowedInActiveState));

    let mut modem = fresh_modem(vec![
        DriverReply::Done,
        DriverReply::Failed(DriverError::AtCmeError(522)),
    ]);
    assert_eq!(modem.set_system_mode(mode), Err(Error::InvalidBandConfiguration));

    let mut modem = fresh_modem(vec![
        DriverReply::Done,
        DriverReply::Failed(DriverError::AtCmeError(1)),
    ]);
    assert_eq!(
        modem.set_system_mode(mode),
        Err(Error::NrfModem(DriverError::AtCmeError(1)))
    );
}

#[test]
fn new_applies_the_mode_and_starts_with_zero_counts() {
    let driver = Driver::with_script(vec![DriverReply::Done, DriverReply::Done]);
    let mode = SystemMode {
        lte_support: true,
        nbiot_support: false,
        gnss_support: true,
        preference: ConnectionPreference::NoPreference,
    };
    let modem = Modem::new(mode, driver).unwrap();
    assert_eq!(modem.debug(), ModemState { active_lte_sockets: 0, active_gnss_sockets: 0 });
    assert_eq!(modem.driver.log.len(), 3);
}

#[test]
fn command_texts_match_the_protocol() {
    assert_eq!(AtCommand::DataProfile.text(), "AT%XDATAPRFL=0");
    assert_eq!(AtCommand::UiccLowPower.text(), "AT+CEPPI=1");
    assert_eq!(AtCommand::PowerSaving.text(), "AT+CPSMS=1");
    assert_eq!(AtCommand::LteOn.text(), "AT+CFUN=21");
    assert_eq!(AtCommand::LteOff.text(), "AT+CFUN=20");
    assert_eq!(AtCommand::UiccOff.text(), "AT+CFUN=40");
    assert_eq!(AtCommand::GnssOn.text(), "AT+CFUN=31");
    assert_eq!(AtCommand::GnssOff.text(), "AT+CFUN=30");
    assert_eq!(AtCommand::RegistrationQuery.text(), "AT+CEREG?");
    assert_eq!(AtCommand::ClockQuery.text(), "AT+CCLK?");
}
