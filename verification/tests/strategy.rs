use hid_bpf::error::{ErrnoCodes, ErrorKind, LoaderError};
use hid_bpf::loader::{bytes_of_device_id, can_take_device_id, hid_struct_ops};
use hid_bpf::object::{
    MapDescriptor, MapType, Object, OpenMapDescriptor, OpenObject, ProgramDescriptor, ProgramType,
};
use hid_bpf::{get_bpf_loader, BpfError, HidBPFLoader, HidBPFStructOps, HidBPFTrace, HidUdev};

fn program(name: &str, section: &str, prog_type: ProgramType) -> ProgramDescriptor {
    ProgramDescriptor { name: name.to_string(), section: section.to_string(), prog_type, fd: -1 }
}

fn open_map(name: &str, map_type: MapType, initial_value: Option<Vec<u8>>) -> OpenMapDescriptor {
    OpenMapDescriptor { name: name.to_string(), map_type, initial_value }
}

fn open_object(programs: Vec<ProgramDescriptor>, maps: Vec<OpenMapDescriptor>) -> OpenObject {
    OpenObject { programs, maps }
}

fn device(id: u32) -> HidUdev {
    HidUdev {
        id,
        syspath: "/sys/devices/x".to_string(),
        sysname: "0003:046D:C52B.0001".to_string(),
        properties: vec![],
    }
}

#[test]
fn object_without_struct_ops_is_traced() {
    let object = open_object(
        vec![
            program("probe", "syscall", ProgramType::Other),
            program("fix_rdesc", "fmod_ret/hid_bpf_rdesc_fixup", ProgramType::Tracing),
        ],
        vec![],
    );
    assert_eq!(get_bpf_loader(&object), HidBPFLoader::Trace);
    assert_eq!(get_bpf_loader(&open_object(vec![], vec![])), HidBPFLoader::Trace);
}

#[test]
fn object_with_a_hid_struct_ops_program_is_struct_ops() {
    let object = open_object(
        vec![
            program("probe", "syscall", ProgramType::Other),
            program("fix_rdesc", "struct_ops/hid_rdesc_fixup", ProgramType::StructOps),
        ],
        vec![],
    );
    assert_eq!(get_bpf_loader(&object), HidBPFLoader::StructOps);
}

#[test]
fn struct_ops_of_another_subsystem_do_not_count() {
    let object = open_object(
        vec![
            program("a", "struct_ops/tcp_init", ProgramType::StructOps),
            program("b", "struct_ops/hid_rdesc_fixup", ProgramType::Tracing),
            program("c", "struct_ops.s/hid_hw_request", ProgramType::StructOps),
        ],
        vec![],
    );
    assert_eq!(get_bpf_loader(&object), HidBPFLoader::Trace);
    assert!(!hid_struct_ops(&object.programs[0]));
    assert!(!hid_struct_ops(&object.programs[1]));
    assert!(!hid_struct_ops(&object.programs[2]));
    assert!(hid_struct_ops(&program("d", "struct_ops/hid_", ProgramType::StructOps)));
}

#[test]
fn device_id_bytes_are_little_endian() {
    assert_eq!(bytes_of_device_id(0x0403_0201), [1, 2, 3, 4]);
    assert_eq!(bytes_of_device_id(0), [0, 0, 0, 0]);
    assert_eq!(bytes_of_device_id(u32::MAX), [255, 255, 255, 255]);
    for id in [1u32, 255, 256, 65535, 65536, 0xdead_beef] {
        assert_eq!(bytes_of_device_id(id), id.to_le_bytes());
    }
}

#[test]
fn struct_ops_load_writes_the_device_id_into_struct_ops_maps() {
    let mut object = open_object(
        vec![program("f", "struct_ops/hid_rdesc_fixup", ProgramType::StructOps)],
        vec![
            open_map("ops", MapType::StructOps, Some(vec![9, 9, 9, 9, 9, 9])),
            open_map("mouse.bss", MapType::Other, Some(vec![9, 9, 9, 9, 9, 9])),
            open_map("ops2", MapType::StructOps, None),
            open_map("ops3", MapType::StructOps, Some(vec![0, 0, 0, 0])),
        ],
    );
    HidBPFStructOps::default().load(&mut object, &device(0x0a0b_0c0d));
    assert_eq!(object.maps[0].initial_value, Some(vec![0x0d, 0x0c, 0x0b, 0x0a, 9, 9]));
    assert_eq!(object.maps[1].initial_value, Some(vec![9, 9, 9, 9, 9, 9]));
    assert_eq!(object.maps[2].initial_value, None);
    assert_eq!(object.maps[3].initial_value, Some(vec![0x0d, 0x0c, 0x0b, 0x0a]));
    assert_eq!(object.maps[0].name, "ops");
    assert_eq!(object.programs.len(), 1);
}

#[test]
fn short_struct_ops_value_cannot_take_a_device_id() {
    let hid = program("f", "struct_ops/hid_rdesc_fixup", ProgramType::StructOps);
    let short = open_object(
        vec![hid],
        vec![open_map("ops", MapType::StructOps, Some(vec![1, 2, 3]))],
    );
    assert!(!can_take_device_id(&short));
    let traced = open_object(
        vec![program("f", "fmod_ret/x", ProgramType::Tracing)],
        vec![open_map("ops", MapType::StructOps, Some(vec![1, 2, 3]))],
    );
    assert!(can_take_device_id(&traced));
    let fine = open_object(
        vec![program("f", "struct_ops/hid_rdesc_fixup", ProgramType::StructOps)],
        vec![
            open_map("ops", MapType::StructOps, Some(vec![1, 2, 3, 4])),
            open_map("none", MapType::StructOps, None),
            open_map("x.bss", MapType::Other, Some(vec![1])),
        ],
    );
    assert!(can_take_device_id(&fine));
}

#[test]
fn not_found_during_a_struct_ops_load_means_unsupported() {
    let error = LoaderError { kind: ErrorKind::NotFound, message: "ENOENT".to_string() };
    assert!(HidBPFStructOps::is_unsupported(&error));
    assert_eq!(HidBPFStructOps::load_error(error), BpfError::Unsupported);
    let loaded: Result<Object, LoaderError> =
        Err(LoaderError { kind: ErrorKind::NotFound, message: "ENOENT".to_string() });
    assert!(matches!(HidBPFLoader::StructOps.load(loaded), Err(BpfError::Unsupported)));
}

#[test]
fn other_errors_of_a_struct_ops_load_are_handed_on() {
    let error = LoaderError { kind: ErrorKind::PermissionDenied, message: "EPERM".to_string() };
    assert!(!HidBPFStructOps::is_unsupported(&error));
    assert_eq!(
        HidBPFStructOps::load_error(error),
        BpfError::LibBPFError {
            error: LoaderError { kind: ErrorKind::PermissionDenied, message: "EPERM".to_string() }
        }
    );
}

#[test]
fn not_found_during_a_tracing_load_stays_an_error_of_the_library() {
    let loaded: Result<Object, LoaderError> =
        Err(LoaderError { kind: ErrorKind::NotFound, message: "ENOENT".to_string() });
    match HidBPFLoader::Trace.load(loaded) {
        Err(BpfError::LibBPFError { error }) => {
            assert_eq!(error.kind, ErrorKind::NotFound);
            assert_eq!(error.message, "ENOENT");
        }
        other => panic!("{:?}", other),
    }
}

#[test]
fn loaded_object_is_handed_on() {
    let object = Object {
        programs: vec![program("p", "syscall", ProgramType::Other)],
        maps: vec![MapDescriptor {
            name: "m".to_string(),
            map_type: MapType::Other,
            entries: vec![],
        }],
    };
    match HidBPFLoader::StructOps.load(Ok(object)) {
        Ok(object) => {
            assert_eq!(object.programs[0].name, "p");
            assert_eq!(object.maps[0].name, "m");
        }
        Err(error) => panic!("{:?}", error),
    }
}

#[test]
fn tracing_needs_the_skeleton() {
    let codes = ErrnoCodes { invalid: 22, unsupported: 95 };
    assert!(HidBPFTrace::new(true).is_available());
    assert!(!HidBPFTrace::new(false).is_available());
    assert_eq!(HidBPFTrace::new(true).load(&codes), Ok(()));
    assert_eq!(HidBPFTrace::new(false).load(&codes), Err(BpfError::OsError { errno: 95 }));
}

#[test]
fn object_knows_its_programs_by_name() {
    let object = Object {
        programs: vec![
            program("fix", "fmod_ret/x", ProgramType::Tracing),
            program("probe", "syscall", ProgramType::Other),
        ],
        maps: vec![],
    };
    assert!(object.prog("probe"));
    assert!(object.prog("fix"));
    assert!(!object.prog("prob"));
    assert!(!Object { programs: vec![], maps: vec![] }.prog("probe"));
}
