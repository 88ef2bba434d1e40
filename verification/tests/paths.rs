use hid_bpf::get_bpffs_path;
use hid_bpf::path::{join, sanitize};
use hid_bpf::remove_bpf_objects;
use hid_bpf::text::{
    chars_of, contains_char, ends_with, same_text, starts_with, string_of, strip_prefix,
};
use hid_bpf::Action;

#[test]
fn sanitize_replaces_colons_and_dots() {
    assert_eq!(sanitize("usb:1-2.3"), "usb_1-2_3");
    assert_eq!(sanitize("foo.bar"), "foo_bar");
}

#[test]
fn sanitize_keeps_everything_else() {
    assert_eq!(sanitize(""), "");
    assert_eq!(sanitize("0003_046D-C52B"), "0003_046D-C52B");
    assert_eq!(sanitize("a/b c"), "a/b c");
    assert_eq!(sanitize("é:ü.ß"), "é_ü_ß");
    assert_eq!(sanitize("..::"), "____");
}

#[test]
fn sanitize_is_what_replace_does() {
    for s in ["0003:046D:C52B.0001", "a.b.c", ":", "plain", "x:y.z:w"] {
        assert_eq!(sanitize(s), s.replace([':', '.'], "_"));
    }
}

#[test]
fn bpffs_path_of_device_and_object() {
    assert_eq!(
        get_bpffs_path("usb:1-2.3", "foo.bar"),
        "/sys/fs/bpf/hid/usb_1-2_3/foo_bar"
    );
    assert_eq!(
        get_bpffs_path("0003:046D:C52B.0001", "0010-Vendor__Mouse.bpf"),
        "/sys/fs/bpf/hid/0003_046D_C52B_0001/0010-Vendor__Mouse_bpf"
    );
}

#[test]
fn bpffs_path_with_empty_object_ends_in_slash() {
    assert_eq!(
        get_bpffs_path("0003:046D:C52B.0001", ""),
        "/sys/fs/bpf/hid/0003_046D_C52B_0001/"
    );
}

#[test]
fn remove_bpf_objects_names_the_directory_of_the_device() {
    match remove_bpf_objects("0003:046D:C52B.0001") {
        Action::RemoveTree { path } => {
            assert_eq!(path, "/sys/fs/bpf/hid/0003_046D_C52B_0001/")
        }
        other => panic!("{:?}", other),
    }
}

#[test]
fn join_puts_one_slash_between() {
    assert_eq!(join("/a/b", "c"), "/a/b/c");
    assert_eq!(join("", ""), "/");
    assert_eq!(join("/a/", "c"), "/a//c");
}

#[test]
fn chars_round_trip() {
    let chars = chars_of("héllo");
    assert_eq!(chars, vec!['h', 'é', 'l', 'l', 'o']);
    assert_eq!(string_of(&chars), "héllo");
    assert_eq!(string_of(&Vec::new()), "");
}

#[test]
fn starts_with_tells_prefixes() {
    assert!(starts_with("struct_ops/hid_device_event", "struct_ops/hid_"));
    assert!(starts_with("abc", ""));
    assert!(starts_with("abc", "abc"));
    assert!(!starts_with("ab", "abc"));
    assert!(!starts_with("struct_ops/usb_x", "struct_ops/hid_"));
    assert!(!starts_with("", "a"));
}

#[test]
fn ends_with_tells_suffixes() {
    assert!(ends_with("mouse.bss", ".bss"));
    assert!(ends_with(".bss", ".bss"));
    assert!(ends_with("x", ""));
    assert!(!ends_with("bss", ".bss"));
    assert!(!ends_with("mouse.bss2", ".bss"));
    assert!(!ends_with("mouse.data", ".bss"));
}

#[test]
fn contains_char_finds_a_character() {
    assert!(contains_char("mouse.rodata", '.'));
    assert!(contains_char(".", '.'));
    assert!(!contains_char("events", '.'));
    assert!(!contains_char("", '.'));
}

#[test]
fn strip_prefix_gives_the_rest() {
    assert_eq!(
        strip_prefix("UDEV_PROP_HID_NAME", "UDEV_PROP_"),
        Some(String::from("HID_NAME"))
    );
    assert_eq!(strip_prefix("UDEV_PROP_", "UDEV_PROP_"), Some(String::new()));
    assert_eq!(strip_prefix("UDEV_PROP", "UDEV_PROP_"), None);
    assert_eq!(strip_prefix("XUDEV_PROP_A", "UDEV_PROP_"), None);
}

#[test]
fn same_text_compares_characters() {
    assert!(same_text("probe", "probe"));
    assert!(same_text("", ""));
    assert!(!same_text("probe", "probe2"));
    assert!(!same_text("probe", "prob"));
    assert!(!same_text("Probe", "probe"));
}
