//! The values that cross into the kernel when a program is run on behalf of a
//! device, and what the kernel's answer means.

use crate::error::{negated, BpfError};
use vstd::prelude::*;

verus! {

/// How many bytes of a report descriptor the kernel takes.
pub const RDESC_CAPACITY: usize = 4096;

/// The status that the arguments carry into the kernel; a program that runs
/// overwrites it.
pub const UNSET_RETVAL: i32 = -1;

/// What a `probe` program is run with.
#[allow(non_camel_case_types)]
#[derive(Debug, Copy, Clone)]
pub struct hid_bpf_probe_args {
    pub hid: u32,
    pub rdesc_size: u32,
    pub rdesc: [u8; 4096],
    pub retval: i32,
}

/// What the attach program of the tracing skeleton is run with.
#[derive(Debug, Copy, Clone, PartialEq, Eq, Structural)]
pub struct AttachProgArgs {
    pub prog_fd: i32,
    pub hid: u32,
    pub retval: i32,
}

/// `bytes` cut or padded with zeroes to `RDESC_CAPACITY` bytes.
pub open spec fn padded(bytes: Seq<u8>) -> Seq<u8> {
    Seq::new(
        RDESC_CAPACITY as nat,
        |i: int|
            if i < bytes.len() {
                bytes[i]
            } else {
                0u8
            },
    )
}

impl hid_bpf_probe_args {
    /// The arguments of a probe of the device `hid` whose report descriptor is
    /// `report_descriptor`: the descriptor's own length, its bytes cut or padded
    /// to the capacity, and a status that no program has set.
    pub fn from(hid: u32, report_descriptor: &[u8]) -> (args: Self)
        ensures
            args.hid == hid,
            args.rdesc_size == report_descriptor.len() as u32,
            args.rdesc@ == padded(report_descriptor@),
            args.retval == UNSET_RETVAL,
    {
        let mut rdesc: [u8; 4096] = [0u8; 4096];
        let mut i: usize = 0;
        while i < RDESC_CAPACITY && i < report_descriptor.len()
            invariant
                i <= RDESC_CAPACITY,
                i <= report_descriptor.len(),
                forall|j: int| 0 <= j < i ==> rdesc@[j] == report_descriptor@[j],
                forall|j: int| i <= j < RDESC_CAPACITY ==> rdesc@[j] == 0u8,
            decreases RDESC_CAPACITY - i,
        {
            rdesc[i] = report_descriptor[i];
            i += 1;
        }
        assert(rdesc@ =~= padded(report_descriptor@));
        hid_bpf_probe_args {
            hid,
            rdesc_size: #[verifier::truncate]
            (report_descriptor.len() as u32),
            rdesc,
            retval: UNSET_RETVAL,
        }
    }
}

impl AttachProgArgs {
    /// The arguments that attach the program behind `prog_fd` to the device `hid`.
    pub fn new(prog_fd: i32, hid: u32) -> (args: Self)
        ensures
            args == (AttachProgArgs { prog_fd, hid, retval: UNSET_RETVAL }),
    {
        AttachProgArgs { prog_fd, hid, retval: UNSET_RETVAL }
    }
}

/// What a test run that ended with `status` gives: the value that went through
/// the kernel where the status is zero, else the error that the status stands
/// for.
pub fn run_syscall_prog_generic<T>(status: i32, data: T) -> (out: Result<T, BpfError>)
    ensures
        status == 0 ==> out == Ok::<T, BpfError>(data),
        status != 0 ==> out == Err::<T, BpfError>(BpfError::OsError { errno: negated(status) }),
{
    if status == 0 {
        Ok(data)
    } else {
        Err(BpfError::from_status(status))
    }
}

/// What an attach run means.
pub open spec fn attach_outcome(status: i32, retval: i32) -> Result<i32, BpfError> {
    if status != 0 {
        Err(BpfError::OsError { errno: negated(status) })
    } else if retval < 0 {
        Err(BpfError::OsError { errno: negated(retval) })
    } else {
        Ok(retval)
    }
}

/// What an attach run that ended with `status` means, `attach_args` being the
/// arguments as the kernel left them: the link that the program returned, or the
/// error of the run, or the error that a negative return value stands for.
pub fn run_syscall_prog_attach(status: i32, attach_args: AttachProgArgs) -> (out: Result<
    i32,
    BpfError,
>)
    ensures
        out == attach_outcome(status, attach_args.retval),
{
    match run_syscall_prog_generic(status, attach_args) {
        Err(e) => Err(e),
        Ok(args) => if args.retval < 0 {
            Err(BpfError::from_status(args.retval))
        } else {
            Ok(args.retval)
        },
    }
}

/// What a probe run means.
pub open spec fn probe_outcome(status: i32, retval: i32) -> Result<i32, BpfError> {
    if status != 0 {
        Err(BpfError::OsError { errno: negated(status) })
    } else if retval != 0 {
        Err(BpfError::OsError { errno: negated(retval) })
    } else {
        Ok(retval)
    }
}

/// What a probe run that ended with `status` means, `probe_args` being the
/// arguments as the kernel left them: zero where the program accepted the device,
/// else the error of the run or the one that the program's return value stands
/// for.
pub fn run_syscall_prog_probe(status: i32, probe_args: hid_bpf_probe_args) -> (out: Result<
    i32,
    BpfError,
>)
    ensures
        out == probe_outcome(status, probe_args.retval),
{
    match run_syscall_prog_generic(status, probe_args) {
        Err(e) => Err(e),
        Ok(args) => if args.retval != 0 {
            Err(BpfError::from_status(args.retval))
        } else {
            Ok(args.retval)
        },
    }
}

/// What pinning a link means.
pub open spec fn pin_outcome(status: i32) -> Result<(), BpfError> {
    if status == 0 {
        Ok(())
    } else {
        Err(BpfError::OsError { errno: negated(status) })
    }
}

/// What the kernel's answer `status` to pinning a link means.
pub fn pin_hid_bpf_prog(status: i32) -> (out: Result<(), BpfError>)
    ensures
        out == pin_outcome(status),
{
    if status == 0 {
        Ok(())
    } else {
        Err(BpfError::from_status(status))
    }
}

} // verus!
