use uac2::error::{Uac2Error, UsbError};
use uac2::text::decimal_string;

#[test]
fn decimal_rendering() {
    assert_eq!(decimal_string(0), "0");
    assert_eq!(decimal_string(7), "7");
    assert_eq!(decimal_string(10), "10");
    assert_eq!(decimal_string(1234), "1234");
    assert_eq!(decimal_string(usize::MAX), usize::MAX.to_string());
}

#[test]
fn usb_message_uses_rusb_text() {
    let e = Uac2Error::Usb(UsbError::NoDevice);
    assert_eq!(
        e.user_message(),
        "USB communication failed: No such device (it may have been disconnected)"
    );
    let e = Uac2Error::Usb(UsbError::Timeout);
    assert_eq!(e.user_message(), "USB communication failed: Operation timed out");
}

#[test]
fn plain_messages() {
    assert_eq!(Uac2Error::DeviceNotFound.user_message(), "USB Audio device not found");
    assert_eq!(
        Uac2Error::PermissionDenied("udev".to_string()).user_message(),
        "Access denied: udev"
    );
    assert_eq!(Uac2Error::BufferUnderflow.user_message(), "Buffer underflow");
    assert_eq!(Uac2Error::ThreadJoin.user_message(), "Thread join failed");
    assert_eq!(
        Uac2Error::ReconnectionFailed(5).user_message(),
        "Failed to reconnect after 5 attempts"
    );
    assert_eq!(
        Uac2Error::InvalidConfiguration("x".to_string()).user_message(),
        "Invalid configuration: x"
    );
}

#[test]
fn context_message_nests() {
    let e = Uac2Error::DeviceDisconnected
        .with_context("opening stream".to_string())
        .with_context("starting playback".to_string());
    assert_eq!(
        e.user_message(),
        "starting playback: opening stream: Device disconnected"
    );
    match e {
        Uac2Error::WithContext { context, source } => {
            assert_eq!(context, "starting playback");
            assert!(matches!(*source, Uac2Error::WithContext { .. }));
        }
        _ => panic!("expected a context"),
    }
}

#[test]
fn classification() {
    assert!(Uac2Error::BufferOverflow.is_recoverable());
    assert!(Uac2Error::BufferUnderflow.is_recoverable());
    assert!(Uac2Error::TransferFailed("t".to_string()).is_recoverable());
    assert!(Uac2Error::DeviceBusy("b".to_string()).is_recoverable());
    assert!(!Uac2Error::DeviceDisconnected.is_recoverable());

    assert!(Uac2Error::DeviceNotFound.is_device_error());
    assert!(Uac2Error::NoHandle.is_device_error());
    assert!(!Uac2Error::Usb(UsbError::NoDevice).is_device_error());

    assert!(Uac2Error::DeviceDisconnected.requires_reconnection());
    assert!(Uac2Error::Usb(UsbError::NoDevice).requires_reconnection());
    assert!(!Uac2Error::Usb(UsbError::Busy).requires_reconnection());
    assert!(!Uac2Error::DeviceNotFound.requires_reconnection());
}

#[test]
fn every_usb_text_matches_rusb() {
    for (e, text) in [
        (UsbError::Io, "Input/Output Error"),
        (UsbError::Access, "Access denied (insufficient permissions)"),
        (UsbError::Pipe, "Pipe error"),
        (UsbError::Other, "Other error"),
    ] {
        assert_eq!(Uac2Error::Usb(e).user_message(), format!("USB communication failed: {}", text));
    }
}
