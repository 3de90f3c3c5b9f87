//! Error types for UAC 2.0 operations.
use vstd::prelude::*;

use crate::text::{decimal, decimal_string};

verus! {

/// The failures that libusb reports, one variant for each variant of `rusb::Error`.
#[derive(Debug, Clone, Copy, PartialEq, Eq, Structural)]
pub enum UsbError {
    Io,
    InvalidParam,
    Access,
    NoDevice,
    NotFound,
    Busy,
    Timeout,
    Overflow,
    Pipe,
    Interrupted,
    NoMem,
    NotSupported,
    BadDescriptor,
    Other,
}

/// The text that `rusb::Error`'s `Display` writes for the error of the same variant.
pub open spec fn usb_error_display(e: UsbError) -> Seq<char> {
    match e {
        UsbError::Io => "Input/Output Error"@,
        UsbError::InvalidParam => "Invalid parameter"@,
        UsbError::Access => "Access denied (insufficient permissions)"@,
        UsbError::NoDevice => "No such device (it may have been disconnected)"@,
        UsbError::NotFound => "Entity not found"@,
        UsbError::Busy => "Resource busy"@,
        UsbError::Timeout => "Operation timed out"@,
        UsbError::Overflow => "Overflow"@,
        UsbError::Pipe => "Pipe error"@,
        UsbError::Interrupted => "System call interrupted (perhaps due to signal)"@,
        UsbError::NoMem => "Insufficient memory"@,
        UsbError::NotSupported => "Operation not supported or unimplemented on this platform"@,
        UsbError::BadDescriptor => "Malformed descriptor"@,
        UsbError::Other => "Other error"@,
    }
}

/// Renders a USB error with `rusb::Error`'s `Display`.
/// Trusted: the contract claims that the text is the fixed one that `rusb::Error`'s
/// `Display` writes for the variant of the same name.
#[verifier::external_body]
fn usb_error_text(e: UsbError) -> (s: String)
    ensures
        s@ == usb_error_display(e),
{
    let e = match e {
        UsbError::Io => rusb::Error::Io, UsbError::InvalidParam => rusb::Error::InvalidParam,
        UsbError::Access => rusb::Error::Access, UsbError::NoDevice => rusb::Error::NoDevice,
        UsbError::NotFound => rusb::Error::NotFound, UsbError::Busy => rusb::Error::Busy,
        UsbError::Timeout => rusb::Error::Timeout, UsbError::Overflow => rusb::Error::Overflow,
        UsbError::Pipe => rusb::Error::Pipe, UsbError::Interrupted => rusb::Error::Interrupted,
        UsbError::NoMem => rusb::Error::NoMem, UsbError::NotSupported => rusb::Error::NotSupported,
        UsbError::BadDescriptor => rusb::Error::BadDescriptor, UsbError::Other => rusb::Error::Other,
    };
    e.to_string()
}

/// Errors of UAC 2.0 operations.
#[derive(Debug)]
pub enum Uac2Error {
    Usb(UsbError),
    DeviceNotFound,
    PermissionDenied(String),
    DeviceBusy(String),
    DeviceDisconnected,
    NoHandle,
    InvalidDescriptor(String),
    NotSupported(String),
    NoSupportedFormats,
    InvalidConfiguration(String),
    EndpointNotFound,
    InvalidEndpoint(String),
    BufferOverflow,
    BufferUnderflow,
    TransferFailed(String),
    ThreadSpawn(String),
    ThreadJoin,
    NoSupportedFormat,
    StreamNotActive,
    ReconnectionFailed(usize),
    WithContext { context: String, source: Box<Uac2Error> },
}

/// A result whose error is a [`Uac2Error`].
pub type Result<T> = std::result::Result<T, Uac2Error>;

/// The message shown to a user for an error.
pub open spec fn user_message_of(e: Uac2Error) -> Seq<char>
    decreases e,
{
    match e {
        Uac2Error::Usb(u) => "USB communication failed: "@ + usb_error_display(u),
        Uac2Error::DeviceNotFound => "USB Audio device not found"@,
        Uac2Error::PermissionDenied(msg) => "Access denied: "@ + msg@,
        Uac2Error::DeviceBusy(msg) => "Device unavailable: "@ + msg@,
        Uac2Error::DeviceDisconnected => "Device disconnected"@,
        Uac2Error::NoHandle => "Failed to open USB device"@,
        Uac2Error::InvalidDescriptor(msg) => "Invalid device: "@ + msg@,
        Uac2Error::NotSupported(msg) => "Not supported: "@ + msg@,
        Uac2Error::NoSupportedFormats => "No compatible audio formats found"@,
        Uac2Error::InvalidConfiguration(msg) => "Invalid configuration: "@ + msg@,
        Uac2Error::EndpointNotFound => "Audio endpoint not found"@,
        Uac2Error::InvalidEndpoint(msg) => "Invalid endpoint: "@ + msg@,
        Uac2Error::BufferOverflow => "Buffer overflow"@,
        Uac2Error::BufferUnderflow => "Buffer underflow"@,
        Uac2Error::TransferFailed(msg) => "Transfer failed: "@ + msg@,
        Uac2Error::ThreadSpawn(msg) => "Thread spawn failed: "@ + msg@,
        Uac2Error::ThreadJoin => "Thread join failed"@,
        Uac2Error::NoSupportedFormat => "No supported format found"@,
        Uac2Error::StreamNotActive => "Audio stream not active"@,
        Uac2Error::ReconnectionFailed(attempts) => "Failed to reconnect after "@ + decimal(
            attempts as nat,
        ) + " attempts"@,
        Uac2Error::WithContext { context, source } => context@ + ": "@ + user_message_of(*source),
    }
}

/// Transient errors: retrying the operation may succeed.
pub open spec fn recoverable(e: Uac2Error) -> bool {
    ||| e is BufferUnderflow
    ||| e is BufferOverflow
    ||| e is TransferFailed
    ||| e is DeviceBusy
}

/// Errors that say the device itself is missing or unusable.
pub open spec fn device_error(e: Uac2Error) -> bool {
    ||| e is DeviceNotFound
    ||| e is DeviceDisconnected
    ||| e is NoHandle
}

/// Errors after which the device must be opened again.
pub open spec fn needs_reconnection(e: Uac2Error) -> bool {
    ||| e is DeviceDisconnected
    ||| e == Uac2Error::Usb(UsbError::NoDevice)
}

fn prefixed(prefix: &str, msg: &String) -> (s: String)
    ensures
        s@ == prefix@ + msg@,
{
    let s = String::from_str(prefix);
    s.concat(msg.as_str())
}

impl Uac2Error {
    /// Wraps the error with a description of what was being done.
    pub fn with_context(self, context: String) -> (r: Self)
        ensures
            r == (Uac2Error::WithContext { context, source: Box::new(self) }),
    {
        Uac2Error::WithContext { context, source: Box::new(self) }
    }

    /// A message for the user, which names the cause and the context it came in.
    pub fn user_message(&self) -> (s: String)
        ensures
            s@ == user_message_of(*self),
        decreases self,
    {
        match self {
            Uac2Error::Usb(e) => {
                let t = usb_error_text(*e);
                prefixed("USB communication failed: ", &t)
            },
            Uac2Error::DeviceNotFound => String::from_str("USB Audio device not found"),
            Uac2Error::PermissionDenied(msg) => prefixed("Access denied: ", msg),
            Uac2Error::DeviceBusy(msg) => prefixed("Device unavailable: ", msg),
            Uac2Error::DeviceDisconnected => String::from_str("Device disconnected"),
            Uac2Error::NoHandle => String::from_str("Failed to open USB device"),
            Uac2Error::InvalidDescriptor(msg) => prefixed("Invalid device: ", msg),
            Uac2Error::NotSupported(msg) => prefixed("Not supported: ", msg),
            Uac2Error::NoSupportedFormats => String::from_str("No compatible audio formats found"),
            Uac2Error::InvalidConfiguration(msg) => prefixed("Invalid configuration: ", msg),
            Uac2Error::EndpointNotFound => String::from_str("Audio endpoint not found"),
            Uac2Error::InvalidEndpoint(msg) => prefixed("Invalid endpoint: ", msg),
            Uac2Error::BufferOverflow => String::from_str("Buffer overflow"),
            Uac2Error::BufferUnderflow => String::from_str("Buffer underflow"),
            Uac2Error::TransferFailed(msg) => prefixed("Transfer failed: ", msg),
            Uac2Error::ThreadSpawn(msg) => prefixed("Thread spawn failed: ", msg),
            Uac2Error::ThreadJoin => String::from_str("Thread join failed"),
            Uac2Error::NoSupportedFormat => String::from_str("No supported format found"),
            Uac2Error::StreamNotActive => String::from_str("Audio stream not active"),
            Uac2Error::ReconnectionFailed(attempts) => {
                let n = decimal_string(*attempts);
                let s = prefixed("Failed to reconnect after ", &n);
                s.concat(" attempts")
            },
            Uac2Error::WithContext { context, source } => {
                let inner = source.user_message();
                let s = context.clone().concat(": ");
                s.concat(inner.as_str())
            },
        }
    }

    /// Whether retrying the failed operation may succeed.
    pub fn is_recoverable(&self) -> (r: bool)
        ensures
            r == recoverable(*self),
    {
        matches!(
            self,
            Uac2Error::BufferUnderflow | Uac2Error::BufferOverflow | Uac2Error::TransferFailed(_)
                | Uac2Error::DeviceBusy(_)
        )
    }

    /// Whether the error says the device is missing or unusable.
    pub fn is_device_error(&self) -> (r: bool)
        ensures
            r == device_error(*self),
    {
        matches!(self, Uac2Error::DeviceNotFound | Uac2Error::DeviceDisconnected | Uac2Error::NoHandle)
    }

    /// Whether the device has to be opened again after this error.
    pub fn requires_reconnection(&self) -> (r: bool)
        ensures
            r == needs_reconnection(*self),
    {
        matches!(self, Uac2Error::DeviceDisconnected | Uac2Error::Usb(UsbError::NoDevice))
    }
}

/// No error is both transient and in need of a reconnection, nor both transient and a
/// device error: retrying, reconnecting and giving up are told apart unambiguously.
pub proof fn law_error_classes_disjoint(e: Uac2Error)
    ensures
        !(recoverable(e) && needs_reconnection(e)),
        !(recoverable(e) && device_error(e)),
{
}

/// The message of an error with context is the context, a colon, and the message of the
/// error it wraps.
pub proof fn law_context_message(e: Uac2Error, context: String)
    ensures
        user_message_of(Uac2Error::WithContext { context, source: Box::new(e) }) == context@
            + ": "@ + user_message_of(e),
{
}

/// The classes of errors: buffer underflows and overflows, failed transfers and busy
/// devices are transient; a disconnected device and a USB `NoDevice` need a reconnection;
/// a missing or disconnected device and a missing handle are device errors.
pub proof fn law_error_classes(e: Uac2Error)
    ensures
        recoverable(e) <==> (e is BufferUnderflow || e is BufferOverflow || e is TransferFailed
            || e is DeviceBusy),
        needs_reconnection(e) <==> (e is DeviceDisconnected || e == Uac2Error::Usb(
            UsbError::NoDevice,
        )),
        device_error(e) <==> (e is DeviceNotFound || e is DeviceDisconnected || e is NoHandle),
{
}

} // verus!
