use hid_bpf::error::{ErrorKind, LoaderError};
use hid_bpf::inject::{inject_in_buffer, inject_in_entry, inject_in_map, write_slot};
use hid_bpf::inject::{Btf, DataSection, SectionMember};
use hid_bpf::object::{MapDescriptor, MapEntry, MapType, Object};
use hid_bpf::{BpfError, HidBPFLoader, HidUdev, HidUdevProperty};

fn prop(name: &str, value: &str) -> HidUdevProperty {
    HidUdevProperty { name: name.to_string(), value: value.to_string() }
}

fn member(name: &str, offset: u32, size: usize) -> SectionMember {
    SectionMember { name: Some(name.to_string()), offset, size }
}

fn entry(value: Option<Vec<u8>>) -> MapEntry {
    MapEntry { key: vec![0, 0, 0, 0], value, dirty: false }
}

fn map(name: &str, entries: Vec<MapEntry>) -> MapDescriptor {
    MapDescriptor { name: name.to_string(), map_type: MapType::Other, entries }
}

fn device(properties: Vec<HidUdevProperty>) -> HidUdev {
    HidUdev {
        id: 1,
        syspath: "/sys/devices/x".to_string(),
        sysname: "0003:046D:C52B.0001".to_string(),
        properties,
    }
}

#[test]
fn write_slot_writes_a_shorter_value() {
    let mut data = vec![1u8, 2, 3, 4, 5, 6];
    assert!(write_slot(&mut data, 1, 4, &[9, 8]));
    assert_eq!(data, vec![1, 9, 8, 4, 5, 6]);
}

#[test]
fn write_slot_reads_back_value_then_old_tail() {
    let old = vec![b'a', b'b', b'c', b'd', b'e', b'f', b'g', b'h'];
    let mut data = old.clone();
    assert!(write_slot(&mut data, 2, 5, b"XY"));
    assert_eq!(&data[2..7], &[b'X', b'Y', b'e', b'f', b'g']);
    assert_eq!(&data[..2], &old[..2]);
    assert_eq!(&data[7..], &old[7..]);
    assert_eq!(data.len(), old.len());
}

#[test]
fn write_slot_refuses_a_value_as_long_as_the_slot() {
    let mut data = vec![1u8, 2, 3, 4];
    assert!(!write_slot(&mut data, 0, 2, &[9, 8]));
    assert_eq!(data, vec![1, 2, 3, 4]);
}

#[test]
fn write_slot_refuses_a_longer_value() {
    let mut data = vec![1u8, 2, 3, 4];
    assert!(!write_slot(&mut data, 0, 2, &[9, 8, 7]));
    assert!(!write_slot(&mut data, 0, 0, &[]));
    assert_eq!(data, vec![1, 2, 3, 4]);
}

#[test]
fn write_slot_takes_an_empty_value() {
    let mut data = vec![1u8, 2, 3, 4];
    assert!(write_slot(&mut data, 3, 1, &[]));
    assert!(write_slot(&mut data, 4, 1, &[]));
    assert_eq!(data, vec![1, 2, 3, 4]);
}

#[test]
fn write_slot_refuses_what_ends_outside_the_buffer() {
    let mut data = vec![1u8, 2, 3, 4];
    assert!(!write_slot(&mut data, 3, 8, &[9, 8]));
    assert!(!write_slot(&mut data, 5, 8, &[]));
    assert!(!write_slot(&mut data, u32::MAX, 8, &[9]));
    assert_eq!(data, vec![1, 2, 3, 4]);
    assert!(write_slot(&mut data, 2, 8, &[9, 8]));
    assert_eq!(data, vec![1, 2, 9, 8]);
}

#[test]
fn buffer_takes_the_properties_its_members_name() {
    let members = vec![
        member("UDEV_PROP_HID_NAME", 0, 8),
        member("other", 8, 4),
        member("UDEV_PROP_MISSING", 12, 4),
        member("UDEV_PROP_ID", 16, 4),
    ];
    let props = vec![prop("HID_NAME", "Mouse"), prop("ID", "abc"), prop("other", "zz")];
    let mut data = vec![0xffu8; 20];
    assert!(inject_in_buffer(&mut data, &members, &props));
    let mut expected = vec![0xffu8; 20];
    expected[..5].copy_from_slice(b"Mouse");
    expected[16..19].copy_from_slice(b"abc");
    assert_eq!(data, expected);
}

#[test]
fn buffer_skips_values_that_do_not_fit() {
    let members = vec![member("UDEV_PROP_A", 0, 4), member("UDEV_PROP_B", 4, 4)];
    let props = vec![prop("A", "1234"), prop("B", "12345")];
    let mut data = vec![7u8; 8];
    assert!(!inject_in_buffer(&mut data, &members, &props));
    assert_eq!(data, vec![7u8; 8]);
}

#[test]
fn buffer_uses_the_first_property_of_a_name() {
    let members = vec![member("UDEV_PROP_A", 0, 4)];
    let props = vec![prop("A", "x"), prop("A", "yz")];
    let mut data = vec![0u8; 4];
    assert!(inject_in_buffer(&mut data, &members, &props));
    assert_eq!(data, vec![b'x', 0, 0, 0]);
}

#[test]
fn buffer_counts_bytes_not_characters() {
    let members = vec![member("UDEV_PROP_A", 0, 3), member("UDEV_PROP_B", 4, 3)];
    let props = vec![prop("A", "é"), prop("B", "éa")];
    let mut data = vec![0u8; 8];
    assert!(inject_in_buffer(&mut data, &members, &props));
    assert_eq!(data, vec![0xc3, 0xa9, 0, 0, 0, 0, 0, 0]);
}

#[test]
fn buffer_ignores_members_without_the_prefix_or_a_name() {
    let members = vec![
        SectionMember { name: None, offset: 0, size: 4 },
        member("udev_prop_A", 0, 4),
        member("A", 0, 4),
        member("UDEV_PROP_", 0, 4),
    ];
    let props = vec![prop("A", "1")];
    let mut data = vec![0u8; 4];
    assert!(!inject_in_buffer(&mut data, &members, &props));
    assert_eq!(data, vec![0u8; 4]);
    let nameless = vec![prop("", "q")];
    assert!(inject_in_buffer(&mut data, &members, &nameless));
    assert_eq!(data, vec![b'q', 0, 0, 0]);
}

#[test]
fn later_members_write_over_earlier_ones() {
    let members = vec![member("UDEV_PROP_A", 0, 4), member("UDEV_PROP_B", 1, 4)];
    let props = vec![prop("A", "abc"), prop("B", "XY")];
    let mut data = vec![0u8; 6];
    assert!(inject_in_buffer(&mut data, &members, &props));
    assert_eq!(data, vec![b'a', b'X', b'Y', 0, 0, 0]);
}

#[test]
fn entry_is_marked_only_when_written() {
    let members = vec![member("UDEV_PROP_A", 0, 4)];
    let mut written = entry(Some(vec![0u8; 4]));
    inject_in_entry(&mut written, &members, &[prop("A", "ab")]);
    assert_eq!(written.value, Some(vec![b'a', b'b', 0, 0]));
    assert!(written.dirty);
    assert_eq!(written.key, vec![0, 0, 0, 0]);

    let mut untouched = entry(Some(vec![0u8; 4]));
    inject_in_entry(&mut untouched, &members, &[prop("B", "ab")]);
    assert_eq!(untouched.value, Some(vec![0u8; 4]));
    assert!(!untouched.dirty);

    let mut empty = entry(None);
    inject_in_entry(&mut empty, &members, &[prop("A", "ab")]);
    assert_eq!(empty.value, None);
    assert!(!empty.dirty);

    let mut already = MapEntry { key: vec![], value: Some(vec![0u8; 4]), dirty: true };
    inject_in_entry(&mut already, &members, &[prop("B", "ab")]);
    assert!(already.dirty);
}

#[test]
fn map_is_patched_only_if_its_name_ends_with_the_section() {
    let members = vec![member("UDEV_PROP_A", 0, 4)];
    let props = vec![prop("A", "ab")];
    let mut bss = map("mouse.bss", vec![entry(Some(vec![0u8; 4])), entry(Some(vec![1u8; 4]))]);
    inject_in_map(&mut bss, ".bss", &members, &props);
    assert_eq!(bss.entries[0].value, Some(vec![b'a', b'b', 0, 0]));
    assert_eq!(bss.entries[1].value, Some(vec![b'a', b'b', 1, 1]));
    assert!(bss.entries[0].dirty && bss.entries[1].dirty);
    assert_eq!(bss.name, "mouse.bss");

    let mut data = map("mouse.data", vec![entry(Some(vec![0u8; 4]))]);
    inject_in_map(&mut data, ".bss", &members, &props);
    assert_eq!(data.entries[0].value, Some(vec![0u8; 4]));
    assert!(!data.entries[0].dirty);
}

#[test]
fn type_by_name_finds_the_first_section() {
    let btf = Btf {
        sections: vec![
            DataSection { name: ".data".to_string(), members: vec![] },
            DataSection { name: ".bss".to_string(), members: vec![member("a", 0, 1)] },
            DataSection { name: ".bss".to_string(), members: vec![] },
        ],
    };
    assert_eq!(btf.type_by_name(".bss"), Some(1));
    assert_eq!(btf.type_by_name(".data"), Some(0));
    assert_eq!(btf.type_by_name(".rodata"), None);
}

fn sample_object() -> Object {
    Object {
        programs: vec![],
        maps: vec![
            map("mouse.bss", vec![entry(Some(vec![0u8; 8]))]),
            map("mouse.data", vec![entry(Some(vec![0u8; 8]))]),
            map("events", vec![entry(Some(vec![0u8; 8]))]),
        ],
    }
}

fn sample_btf() -> Btf {
    Btf {
        sections: vec![
            DataSection { name: ".bss".to_string(), members: vec![member("UDEV_PROP_A", 0, 4)] },
            DataSection { name: ".data".to_string(), members: vec![member("UDEV_PROP_B", 4, 4)] },
        ],
    }
}

#[test]
fn section_without_type_information_is_left_alone() {
    let mut object = sample_object();
    let props = vec![prop("A", "ab")];
    let out = HidBPFLoader::Trace.inject_udev_properties_in_array(
        &mut object,
        ".rodata",
        &sample_btf(),
        &props,
    );
    assert_eq!(out, Ok(()));
    for m in &object.maps {
        assert_eq!(m.entries[0].value, Some(vec![0u8; 8]));
        assert!(!m.entries[0].dirty);
    }
}

#[test]
fn one_section_is_injected_into_its_maps() {
    let mut object = sample_object();
    let props = vec![prop("A", "ab"), prop("B", "cd")];
    let out = HidBPFLoader::StructOps.inject_udev_properties_in_array(
        &mut object,
        ".bss",
        &sample_btf(),
        &props,
    );
    assert_eq!(out, Ok(()));
    assert_eq!(object.maps[0].entries[0].value, Some(vec![b'a', b'b', 0, 0, 0, 0, 0, 0]));
    assert!(object.maps[0].entries[0].dirty);
    assert_eq!(object.maps[1].entries[0].value, Some(vec![0u8; 8]));
    assert!(!object.maps[1].entries[0].dirty);
    assert_eq!(object.maps[2].entries[0].value, Some(vec![0u8; 8]));
}

#[test]
fn properties_of_device_and_extra_ones_are_injected() {
    let mut object = sample_object();
    let dev = device(vec![prop("A", "dev"), prop("B", "dev")]);
    let extra = vec![prop("B", "ext")];
    let out =
        HidBPFLoader::Trace.inject_udev_properties(&mut object, Ok(sample_btf()), &dev, &extra);
    assert_eq!(out, Ok(()));
    assert_eq!(object.maps[0].entries[0].value, Some(vec![b'd', b'e', b'v', 0, 0, 0, 0, 0]));
    assert_eq!(object.maps[1].entries[0].value, Some(vec![0, 0, 0, 0, b'e', b'x', b't', 0]));
    assert_eq!(object.maps[2].entries[0].value, Some(vec![0u8; 8]));
    assert!(object.maps[0].entries[0].dirty);
    assert!(object.maps[1].entries[0].dirty);
    assert!(!object.maps[2].entries[0].dirty);
}

#[test]
fn missing_type_information_is_an_error_of_the_library() {
    let mut object = sample_object();
    let dev = device(vec![prop("A", "dev")]);
    let error = LoaderError { kind: ErrorKind::InvalidData, message: "no btf".to_string() };
    let out = HidBPFLoader::Trace.inject_udev_properties(&mut object, Err(error), &dev, &[]);
    assert_eq!(
        out,
        Err(BpfError::LibBPFError {
            error: LoaderError { kind: ErrorKind::InvalidData, message: "no btf".to_string() }
        })
    );
    assert_eq!(object.maps[0].entries[0].value, Some(vec![0u8; 8]));
    assert!(!object.maps[0].entries[0].dirty);
}
