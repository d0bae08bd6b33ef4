use anti_vm::fingerprint::{
    artifact_paths, detect_vm_files, detect_vm_keywords, detect_vm_mac, holds_keyword,
    holds_vm_prefix, is_vm_mac,
};
use anti_vm::text::{chars_of, contains, matches_at, starts_with};

fn chars(text: &str) -> Vec<char> {
    text.chars().collect()
}

#[test]
fn virtualbox_mac_matches() {
    assert!(is_vm_mac("08:00:27:AA:BB:CC"));
    assert!(detect_vm_mac(Some([0x08, 0x00, 0x27, 0xAA, 0xBB, 0xCC])));
}

#[test]
fn unknown_mac_does_not_match() {
    assert!(!is_vm_mac("AA:BB:CC:11:22:33"));
    assert!(!detect_vm_mac(Some([0xAA, 0xBB, 0xCC, 0x11, 0x22, 0x33])));
}

#[test]
fn addresses_as_the_network_crate_reads_and_writes_them() {
    let vbox: mac_address::MacAddress = "08:00:27:AA:BB:CC".parse().unwrap();
    assert!(detect_vm_mac(Some(vbox.bytes())));
    assert!(is_vm_mac(&vbox.to_string()));
    let other: mac_address::MacAddress = "AA:BB:CC:11:22:33".parse().unwrap();
    assert!(!detect_vm_mac(Some(other.bytes())));
    assert!(!is_vm_mac(&other.to_string()));
}

#[test]
fn absent_mac_does_not_match() {
    assert!(!detect_vm_mac(None));
}

#[test]
fn every_known_prefix_matches() {
    assert!(detect_vm_mac(Some([0x00, 0x05, 0x69, 1, 2, 3])));
    assert!(detect_vm_mac(Some([0x00, 0x0C, 0x29, 1, 2, 3])));
    assert!(detect_vm_mac(Some([0x00, 0x1C, 0x14, 1, 2, 3])));
    assert!(detect_vm_mac(Some([0x00, 0x50, 0x56, 1, 2, 3])));
    assert!(detect_vm_mac(Some([0x08, 0x00, 0x27, 1, 2, 3])));
    assert!(detect_vm_mac(Some([0x00, 0x15, 0x5D, 1, 2, 3])));
}

#[test]
fn prefix_must_stand_at_the_start() {
    assert!(!detect_vm_mac(Some([0x01, 0x08, 0x00, 0x27, 0x00, 0x00])));
    assert!(!detect_vm_mac(Some([0x00, 0x00, 0x00, 0x08, 0x00, 0x27])));
    assert!(!detect_vm_mac(Some([0x08, 0x00, 0x28, 0, 0, 0])));
    assert!(!detect_vm_mac(Some([0x00, 0x0C, 0x2A, 0, 0, 0])));
    assert!(!detect_vm_mac(Some([0; 6])));
}

#[test]
fn mac_text_is_matched_in_either_case() {
    assert!(is_vm_mac("00:0c:29:12:34:56"));
    assert!(is_vm_mac("00:0C:29:12:34:56"));
    assert!(is_vm_mac("00:15:5D:00:00:01"));
    assert!(holds_vm_prefix("00:15:5d:00:00:01"));
    assert!(!holds_vm_prefix("00:15:5D:00:00:01"));
    assert!(!is_vm_mac(""));
    assert!(!is_vm_mac("08:00"));
    assert!(is_vm_mac("08:00:27"));
}

#[test]
fn keyword_in_host_name_whatever_the_case() {
    assert!(detect_vm_keywords("MyVMwareHost", "", &vec![]));
    assert!(!holds_keyword("MyVMwareHost"));
    assert!(holds_keyword("myvmwarehost"));
}

#[test]
fn keyword_in_os_version() {
    assert!(detect_vm_keywords("workstation", "Linux 6.1 QEMU Virtual Machine", &vec![]));
    assert!(detect_vm_keywords("", "Windows 10 Hyper-V", &vec![]));
}

#[test]
fn keyword_in_a_disk_name() {
    let disks = vec!["/dev/sda1".to_string(), "VBOX HARDDISK".to_string()];
    assert!(detect_vm_keywords("workstation", "Linux 6.1 Debian", &disks));
    let disks = vec!["KVM-0".to_string()];
    assert!(detect_vm_keywords("workstation", "Linux 6.1 Debian", &disks));
}

#[test]
fn no_keyword_anywhere() {
    let disks = vec!["/dev/sda1".to_string(), "/dev/nvme0n1p2".to_string()];
    assert!(!detect_vm_keywords("workstation", "Linux 6.1 Debian GNU/Linux", &disks));
    assert!(!detect_vm_keywords("", "", &vec![]));
}

#[test]
fn every_keyword_is_known() {
    for word in ["vmware", "virtual", "vbox", "qemu", "hyper-v", "xen", "parallels", "kvm"] {
        assert!(holds_keyword(word));
        assert!(detect_vm_keywords(&word.to_uppercase(), "", &vec![]));
        assert!(detect_vm_keywords("", &format!("x{word}x"), &vec![]));
    }
    assert!(!holds_keyword("hyperv"));
    assert!(!holds_keyword("vm"));
    assert!(!holds_keyword("v box"));
}

#[test]
fn lowercase_is_that_of_unicode() {
    // U+212A, the Kelvin sign, has the letter k for its lowercase form.
    assert!(detect_vm_keywords("\u{212A}VM", "", &vec![]));
    assert!(!holds_keyword("\u{212A}vm"));
}

#[test]
fn artifact_paths_are_the_guest_drivers() {
    assert_eq!(
        artifact_paths(),
        [
            "C:\\windows\\system32\\drivers\\vmmouse.sys",
            "C:\\windows\\system32\\drivers\\vmhgfs.sys",
            "C:\\windows\\system32\\drivers\\VBoxMouse.sys",
        ]
    );
}

#[test]
fn one_artifact_found_is_enough() {
    assert!(!detect_vm_files(&[false, false, false]));
    assert!(detect_vm_files(&[true, false, false]));
    assert!(detect_vm_files(&[false, true, false]));
    assert!(detect_vm_files(&[false, false, true]));
    assert!(detect_vm_files(&[true, true, true]));
    assert!(!detect_vm_files(&[]));
}

#[test]
fn characters_of_a_text() {
    assert_eq!(chars_of(""), Vec::<char>::new());
    assert_eq!(chars_of("kvm"), vec!['k', 'v', 'm']);
    assert_eq!(
        chars_of("h\u{e9}llo \u{1F600}"),
        vec!['h', '\u{e9}', 'l', 'l', 'o', ' ', '\u{1F600}']
    );
}

#[test]
fn substring_search() {
    assert!(contains(&chars("my-qemu-box"), &chars("qemu")));
    assert!(contains(&chars("qemu"), &chars("qemu")));
    assert!(contains(&chars("xxqemu"), &chars("qemu")));
    assert!(contains(&chars("qemuxx"), &chars("qemu")));
    assert!(!contains(&chars("qem"), &chars("qemu")));
    assert!(!contains(&chars("qe-mu"), &chars("qemu")));
    assert!(!contains(&chars(""), &chars("qemu")));
    assert!(contains(&chars("anything"), &chars("")));
    assert!(contains(&chars(""), &chars("")));
    assert!(contains(&chars("aaab"), &chars("aab")));
}

#[test]
fn prefix_test() {
    assert!(starts_with(&chars("08:00:27:aa"), &chars("08:00:27")));
    assert!(starts_with(&chars("08:00:27"), &chars("08:00:27")));
    assert!(!starts_with(&chars("08:00:2"), &chars("08:00:27")));
    assert!(!starts_with(&chars("a08:00:27"), &chars("08:00:27")));
    assert!(starts_with(&chars("abc"), &chars("")));
    assert!(starts_with(&chars(""), &chars("")));
    assert!(matches_at(&chars("a08:00:27"), &chars("08:00:27"), 1));
    assert!(!matches_at(&chars("a08:00:27"), &chars("08:00:27"), 0));
    assert!(!matches_at(&chars("a08:00:27"), &chars("08:00:27"), 2));
    assert!(!matches_at(&chars("abc"), &chars("c"), 3));
    assert!(!matches_at(&chars("abc"), &chars(""), 4));
    assert!(matches_at(&chars("abc"), &chars(""), 3));
    assert!(!matches_at(&chars("abc"), &chars("abc"), usize::MAX));
}
