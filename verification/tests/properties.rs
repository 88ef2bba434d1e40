use hid_bpf::hidudev::{copy_properties, find_property, merge_properties};
use hid_bpf::{HidUdev, HidUdevProperty};

fn prop(name: &str, value: &str) -> HidUdevProperty {
    HidUdevProperty { name: name.to_string(), value: value.to_string() }
}

fn pairs(props: &[HidUdevProperty]) -> Vec<(String, String)> {
    props.iter().map(|p| (p.name.clone(), p.value.clone())).collect()
}

fn pair(name: &str, value: &str) -> (String, String) {
    (name.to_string(), value.to_string())
}

#[test]
fn merge_lets_the_extra_property_win() {
    let device = vec![prop("HID_NAME", "Mouse"), prop("HID_ID", "0003:0000046D:0000C52B")];
    let extra = vec![prop("HID_NAME", "Override")];
    let merged = merge_properties(&device, &extra);
    let i = find_property(&merged, "HID_NAME").unwrap();
    assert_eq!(merged[i].value, "Override");
    assert_eq!(
        pairs(&merged),
        vec![pair("HID_ID", "0003:0000046D:0000C52B"), pair("HID_NAME", "Override")]
    );
}

#[test]
fn merge_keeps_the_order_of_both_sides() {
    let device = vec![prop("A", "1"), prop("B", "2"), prop("C", "3")];
    let extra = vec![prop("D", "4"), prop("B", "20")];
    assert_eq!(
        pairs(&merge_properties(&device, &extra)),
        vec![pair("A", "1"), pair("C", "3"), pair("D", "4"), pair("B", "20")]
    );
}

#[test]
fn merge_drops_every_device_property_of_an_extra_name() {
    let device = vec![prop("A", "1"), prop("A", "2"), prop("B", "3")];
    let extra = vec![prop("A", "9")];
    assert_eq!(
        pairs(&merge_properties(&device, &extra)),
        vec![pair("B", "3"), pair("A", "9")]
    );
}

#[test]
fn merge_with_one_side_empty() {
    let device = vec![prop("A", "1")];
    assert_eq!(pairs(&merge_properties(&device, &[])), vec![pair("A", "1")]);
    assert_eq!(pairs(&merge_properties(&[], &device)), vec![pair("A", "1")]);
    assert!(merge_properties(&[], &[]).is_empty());
}

#[test]
fn merge_keeps_repeated_extra_properties() {
    let extra = vec![prop("A", "1"), prop("A", "2")];
    let merged = merge_properties(&[], &extra);
    assert_eq!(pairs(&merged), vec![pair("A", "1"), pair("A", "2")]);
    assert_eq!(find_property(&merged, "A"), Some(0));
}

#[test]
fn find_property_gives_the_first_of_a_name() {
    let props = vec![prop("A", "1"), prop("B", "2"), prop("A", "3")];
    assert_eq!(find_property(&props, "A"), Some(0));
    assert_eq!(find_property(&props, "B"), Some(1));
    assert_eq!(find_property(&props, "C"), None);
    assert_eq!(find_property(&props, "a"), None);
    assert_eq!(find_property(&[], "A"), None);
}

#[test]
fn device_hands_out_what_it_holds() {
    let device = HidUdev {
        id: 7,
        syspath: "/sys/devices/x".to_string(),
        sysname: "0003:046D:C52B.0001".to_string(),
        properties: vec![prop("A", "1"), prop("B", "2")],
    };
    assert_eq!(device.id(), 7);
    assert_eq!(device.syspath(), "/sys/devices/x");
    assert_eq!(device.sysname(), "0003:046D:C52B.0001");
    assert_eq!(pairs(&device.udev_properties()), vec![pair("A", "1"), pair("B", "2")]);
    let copy = device.clone();
    assert_eq!(copy.id, 7);
    assert_eq!(copy.syspath, "/sys/devices/x");
    assert_eq!(copy.sysname, "0003:046D:C52B.0001");
    assert_eq!(pairs(&copy.properties), pairs(&device.properties));
    assert_eq!(pairs(&copy_properties(&device.properties)), pairs(&device.properties));
}
