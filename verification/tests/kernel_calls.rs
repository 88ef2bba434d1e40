use hid_bpf::error::{errno_of_status, ErrnoCodes, ErrorKind, LoaderError};
use hid_bpf::syscall::{
    pin_hid_bpf_prog, run_syscall_prog_attach, run_syscall_prog_generic, run_syscall_prog_probe,
    RDESC_CAPACITY, UNSET_RETVAL,
};
use hid_bpf::{hid_bpf_probe_args, AttachProgArgs, BpfError};

#[test]
fn status_is_negated_into_an_error_number() {
    assert_eq!(errno_of_status(-22), 22);
    assert_eq!(errno_of_status(-1), 1);
    assert_eq!(errno_of_status(0), 0);
    assert_eq!(errno_of_status(-2147483647), 2147483647);
}

#[test]
fn positive_and_lowest_status_wrap() {
    assert_eq!(errno_of_status(1), 4294967295);
    assert_eq!(errno_of_status(5), 4294967291);
    assert_eq!(errno_of_status(i32::MAX), 2147483649);
    assert_eq!(errno_of_status(i32::MIN), 2147483648);
    for status in [-95, -1, 0, 1, 7, i32::MAX, i32::MIN] {
        assert_eq!(errno_of_status(status), status.wrapping_neg() as u32);
    }
}

#[test]
fn platform_codes_are_those_of_libc() {
    let codes = ErrnoCodes::platform();
    assert_eq!(codes.invalid, libc::EINVAL as u32);
    assert_eq!(codes.unsupported, libc::ENOTSUP as u32);
}

#[test]
fn error_from_status_and_from_library() {
    assert_eq!(BpfError::from_status(-13), BpfError::OsError { errno: 13 });
    let error = LoaderError { kind: ErrorKind::Other, message: "bad".to_string() };
    assert_eq!(
        BpfError::from(error),
        BpfError::LibBPFError {
            error: LoaderError { kind: ErrorKind::Other, message: "bad".to_string() }
        }
    );
}

#[test]
fn error_text_of_each_kind() {
    assert_eq!(BpfError::Unsupported.to_string(), "unsupported on this kernel");
    let error = LoaderError { kind: ErrorKind::NotFound, message: "no such map".to_string() };
    assert_eq!(BpfError::LibBPFError { error }.to_string(), "no such map");
    let text = BpfError::OsError { errno: libc::EINVAL as u32 }.to_string();
    assert_eq!(text, format!("{}", std::io::Error::from_raw_os_error(libc::EINVAL)));
    assert_ne!(text, BpfError::OsError { errno: libc::ENOENT as u32 }.to_string());
}

#[test]
fn probe_args_pad_a_short_descriptor() {
    let args = hid_bpf_probe_args::from(42, &[5, 1, 9, 2]);
    assert_eq!(args.hid, 42);
    assert_eq!(args.rdesc_size, 4);
    assert_eq!(args.retval, -1);
    assert_eq!(args.retval, UNSET_RETVAL);
    assert_eq!(&args.rdesc[..4], &[5, 1, 9, 2]);
    assert!(args.rdesc[4..].iter().all(|b| *b == 0));
    assert_eq!(args.rdesc.len(), RDESC_CAPACITY);
    assert_eq!(RDESC_CAPACITY, 4096);
}

#[test]
fn probe_args_of_an_empty_descriptor() {
    let args = hid_bpf_probe_args::from(0, &[]);
    assert_eq!(args.rdesc_size, 0);
    assert!(args.rdesc.iter().all(|b| *b == 0));
}

#[test]
fn probe_args_take_a_full_descriptor() {
    let bytes: Vec<u8> = (0..4096u32).map(|i| (i % 251) as u8).collect();
    let args = hid_bpf_probe_args::from(1, &bytes);
    assert_eq!(args.rdesc_size, 4096);
    assert_eq!(&args.rdesc[..], &bytes[..]);
}

#[test]
fn probe_args_cut_a_long_descriptor_and_keep_its_length() {
    let bytes: Vec<u8> = (0..5000u32).map(|i| (i % 251) as u8 + 1).collect();
    let args = hid_bpf_probe_args::from(1, &bytes);
    assert_eq!(args.rdesc_size, 5000);
    assert_eq!(&args.rdesc[..], &bytes[..4096]);
}

#[test]
fn attach_args_start_with_an_unset_return_value() {
    assert_eq!(
        AttachProgArgs::new(9, 3),
        AttachProgArgs { prog_fd: 9, hid: 3, retval: -1 }
    );
}

#[test]
fn generic_run_hands_the_value_back_on_zero() {
    assert_eq!(run_syscall_prog_generic(0, 17u64), Ok(17u64));
    assert_eq!(
        run_syscall_prog_generic(0, AttachProgArgs { prog_fd: 1, hid: 2, retval: 3 }),
        Ok(AttachProgArgs { prog_fd: 1, hid: 2, retval: 3 })
    );
}

#[test]
fn generic_run_fails_with_the_negated_status() {
    assert_eq!(run_syscall_prog_generic(-22, 17u64), Err(BpfError::OsError { errno: 22 }));
    assert_eq!(
        run_syscall_prog_generic(3, ()),
        Err(BpfError::OsError { errno: 4294967293 })
    );
}

#[test]
fn attach_run_gives_the_link() {
    let args = AttachProgArgs { prog_fd: 4, hid: 2, retval: 11 };
    assert_eq!(run_syscall_prog_attach(0, args), Ok(11));
    let zero = AttachProgArgs { prog_fd: 4, hid: 2, retval: 0 };
    assert_eq!(run_syscall_prog_attach(0, zero), Ok(0));
}

#[test]
fn attach_run_fails_on_status_or_negative_return() {
    let args = AttachProgArgs { prog_fd: 4, hid: 2, retval: 11 };
    assert_eq!(run_syscall_prog_attach(-1, args), Err(BpfError::OsError { errno: 1 }));
    let refused = AttachProgArgs { prog_fd: 4, hid: 2, retval: -22 };
    assert_eq!(run_syscall_prog_attach(0, refused), Err(BpfError::OsError { errno: 22 }));
    let unset = AttachProgArgs::new(4, 2);
    assert_eq!(run_syscall_prog_attach(0, unset), Err(BpfError::OsError { errno: 1 }));
    assert_eq!(run_syscall_prog_attach(-9, refused), Err(BpfError::OsError { errno: 9 }));
}

#[test]
fn probe_run_accepts_only_zero() {
    let mut args = hid_bpf_probe_args::from(1, &[1, 2, 3]);
    args.retval = 0;
    assert_eq!(run_syscall_prog_probe(0, args), Ok(0));
    args.retval = -22;
    assert_eq!(run_syscall_prog_probe(0, args), Err(BpfError::OsError { errno: 22 }));
    args.retval = 1;
    assert_eq!(run_syscall_prog_probe(0, args), Err(BpfError::OsError { errno: 4294967295 }));
    args.retval = 0;
    assert_eq!(run_syscall_prog_probe(-14, args), Err(BpfError::OsError { errno: 14 }));
    let unset = hid_bpf_probe_args::from(1, &[]);
    assert_eq!(run_syscall_prog_probe(0, unset), Err(BpfError::OsError { errno: 1 }));
}

#[test]
fn pin_of_a_link_follows_the_status() {
    assert_eq!(pin_hid_bpf_prog(0), Ok(()));
    assert_eq!(pin_hid_bpf_prog(-17), Err(BpfError::OsError { errno: 17 }));
    assert_eq!(pin_hid_bpf_prog(2), Err(BpfError::OsError { errno: 4294967294 }));
}
