use uac2::error::{Result, Uac2Error, UsbError};
use uac2::error_recovery::{
    ErrorRecovery, ReconnectionManager, Recoverable, RecoveryAction, RecoveryStrategy,
};

#[test]
fn fresh_recovery() {
    let r = ErrorRecovery::new();
    assert_eq!(r.reconnect_attempts(), 0);
    assert_eq!(r.backoff_ms(), 100);
    assert!(r.can_reconnect());
    let d = ErrorRecovery::default();
    assert_eq!(d.reconnect_attempts(), 0);
}

#[test]
fn backoff_doubles_up_to_cap() {
    let mut r = ErrorRecovery::new();
    let mut seen = Vec::new();
    for _ in 0..8 {
        r.record_reconnect_attempt();
        seen.push(r.backoff_ms());
    }
    assert_eq!(seen, vec![200, 400, 800, 1600, 3200, 5000, 5000, 5000]);
    assert_eq!(r.reconnect_attempts(), 8);
    assert!(!r.can_reconnect());
    r.record_error();
    r.reset();
    assert_eq!(r.reconnect_attempts(), 0);
    assert_eq!(r.backoff_ms(), 100);
}

#[test]
fn strategies() {
    let mut r = ErrorRecovery::new();
    assert_eq!(r.determine_strategy(&Uac2Error::DeviceDisconnected), RecoveryStrategy::Reconnect);
    assert_eq!(r.determine_strategy(&Uac2Error::Usb(UsbError::NoDevice)), RecoveryStrategy::Reconnect);
    assert_eq!(r.determine_strategy(&Uac2Error::BufferUnderflow), RecoveryStrategy::Retry);
    assert_eq!(r.determine_strategy(&Uac2Error::DeviceNotFound), RecoveryStrategy::Abort);
    for _ in 0..5 {
        r.record_reconnect_attempt();
    }
    assert!(!r.can_reconnect());
    assert_eq!(r.determine_strategy(&Uac2Error::DeviceDisconnected), RecoveryStrategy::Fallback);
    assert_eq!(r.determine_strategy(&Uac2Error::BufferOverflow), RecoveryStrategy::Retry);
}

#[test]
fn recovery_actions() {
    let mut r = ErrorRecovery::new();
    r.record_reconnect_attempt();
    let ok: Result<u32> = Ok(7);
    match ok.with_recovery(&mut r) {
        RecoveryAction::Return(Ok(v)) => assert_eq!(v, 7),
        _ => panic!("a success is handed back"),
    }
    assert_eq!(r.reconnect_attempts(), 0);

    let retry: Result<u32> = Err(Uac2Error::BufferUnderflow);
    assert!(matches!(retry.with_recovery(&mut r), RecoveryAction::RunOperation));
    assert_eq!(r.reconnect_attempts(), 0);

    for expected in [200u64, 400, 800, 1600, 3200] {
        let lost: Result<u32> = Err(Uac2Error::DeviceDisconnected);
        match lost.with_recovery(&mut r) {
            RecoveryAction::WaitThenRunOperation(ms) => assert_eq!(ms, expected),
            _ => panic!("a lost device is reconnected"),
        }
    }
    assert_eq!(r.reconnect_attempts(), 5);
    let lost: Result<u32> = Err(Uac2Error::DeviceDisconnected);
    match lost.with_recovery(&mut r) {
        RecoveryAction::Return(Err(Uac2Error::ReconnectionFailed(n))) => assert_eq!(n, 5),
        _ => panic!("reconnection gives up"),
    }

    let fatal: Result<u32> = Err(Uac2Error::NoSupportedFormat);
    assert!(matches!(
        fatal.with_recovery(&mut r),
        RecoveryAction::Return(Err(Uac2Error::NoSupportedFormat))
    ));
}

#[test]
fn reconnection_manager_budget() {
    let mut m = ReconnectionManager::new();
    assert!(m.time_since_last_connection().is_none());
    for expected in [200u64, 400, 800, 1600, 3200] {
        assert_eq!(m.attempt_reconnect().unwrap(), expected);
        assert!(m.complete_reconnect(Err(Uac2Error::DeviceNotFound)).is_err());
    }
    assert_eq!(m.reconnect_attempts(), 5);
    match m.attempt_reconnect() {
        Err(Uac2Error::ReconnectionFailed(n)) => assert_eq!(n, 5),
        _ => panic!("the budget is used up"),
    }
    assert_eq!(m.reconnect_attempts(), 5);
    m.reset();
    assert_eq!(m.reconnect_attempts(), 0);
    assert!(m.time_since_last_connection().is_some());
}

#[test]
fn reconnection_success_resets() {
    let mut m = ReconnectionManager::default();
    assert_eq!(m.attempt_reconnect().unwrap(), 200);
    assert_eq!(m.attempt_reconnect().unwrap(), 400);
    assert!(m.complete_reconnect(Ok(())).is_ok());
    assert_eq!(m.reconnect_attempts(), 0);
    assert!(m.time_since_last_connection().is_some());
    assert_eq!(m.attempt_reconnect().unwrap(), 200);
}
