//! What can go wrong while an object is loaded for a device.

use vstd::prelude::*;
use vstd::string::StringExecFns;

verus! {

/// A rough class of an error of the loading library.
#[derive(Clone, Copy, Debug, PartialEq, Eq, Structural)]
pub enum ErrorKind {
    NotFound,
    PermissionDenied,
    AlreadyExists,
    WouldBlock,
    InvalidInput,
    InvalidData,
    TimedOut,
    WriteZero,
    Interrupted,
    Unsupported,
    UnexpectedEof,
    OutOfMemory,
    Other,
}

/// An error that the loading library reported: its class and its text.
#[derive(Debug, PartialEq, Eq)]
pub struct LoaderError {
    pub kind: ErrorKind,
    pub message: String,
}

/// Why a load failed.
#[derive(Debug, PartialEq, Eq)]
pub enum BpfError {
    /// The loading library refused the object or one of its parts.
    LibBPFError { error: LoaderError },
    /// A kernel call failed with this error number.
    OsError { errno: u32 },
    /// The kernel has no struct-ops support for HID.
    Unsupported,
}

/// The error numbers that the library reports of its own accord.
#[derive(Clone, Copy, Debug, PartialEq, Eq, Structural)]
pub struct ErrnoCodes {
    /// The number for an invalid argument.
    pub invalid: u32,
    /// The number for an operation that is not supported.
    pub unsupported: u32,
}

/// `libc::EINVAL`, the target's number for an invalid argument. Its value is the
/// target's own, so nothing is claimed of it.
#[verifier::external_body]
fn invalid_argument_code() -> (errno: u32) {
    libc::EINVAL as u32
}

/// `libc::ENOTSUP`, the target's number for an unsupported operation. Its value is
/// the target's own, so nothing is claimed of it.
#[verifier::external_body]
fn not_supported_code() -> (errno: u32) {
    libc::ENOTSUP as u32
}

/// `std::io::Error::from_raw_os_error`, shown as text: what the target calls
/// the error number. The text is the target's own, so nothing is claimed of it.
#[verifier::external_body]
fn os_error_text(errno: u32) -> (text: String) {
    format!("{}", std::io::Error::from_raw_os_error(errno as i32))
}

impl ErrnoCodes {
    /// The error numbers of the target that the library is built for, as libc
    /// gives them. They differ from target to target, so nothing is claimed of
    /// their values; what a load does with them is stated for every value.
    pub fn platform() -> (codes: ErrnoCodes) {
        ErrnoCodes { invalid: invalid_argument_code(), unsupported: not_supported_code() }
    }
}

/// The error number that a kernel status stands for: the status negated, modulo
/// 2^32.
pub open spec fn negated(status: i32) -> u32 {
    if status <= 0 {
        (-status) as u32
    } else {
        (0x1_0000_0000 - status) as u32
    }
}

/// Negates a kernel status into an error number.
pub fn errno_of_status(status: i32) -> (errno: u32)
    ensures
        errno == negated(status),
{
    if status == i32::MIN {
        0x8000_0000u32
    } else if status <= 0 {
        (-status) as u32
    } else {
        (u32::MAX - (status as u32)) + 1
    }
}

impl BpfError {
    /// The error for a kernel call that answered `status`.
    pub fn from_status(status: i32) -> (error: BpfError)
        ensures
            error == (BpfError::OsError { errno: negated(status) }),
    {
        BpfError::OsError { errno: errno_of_status(status) }
    }

    /// The error as text: the text of the loading library for one of its errors,
    /// the target's description of an error number, or that struct-ops are not
    /// supported.
    pub fn to_string(&self) -> (text: String)
        ensures
            self matches BpfError::LibBPFError { error } ==> text@ == error.message@,
            self is Unsupported ==> text@ == "unsupported on this kernel"@,
    {
        match self {
            BpfError::LibBPFError { error } => error.message.clone(),
            BpfError::OsError { errno } => os_error_text(*errno),
            BpfError::Unsupported => String::from_str("unsupported on this kernel"),
        }
    }

    /// The error for a failure of the loading library, as every strategy reports
    /// it but for the load of a struct-ops object.
    pub fn from(error: LoaderError) -> (out: BpfError)
        ensures
            out == (BpfError::LibBPFError { error }),
    {
        BpfError::LibBPFError { error }
    }
}

} // verus!
