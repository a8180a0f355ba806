use pp::def::{HostOs, Ipv4, VmKind, CPU_DEFAULT, DISK_DEFAULT, MEM_DEFAULT};
use pp::text::{
    after_last_char, concat_strs, contains_char, contains_str, decimal_string, ends_with,
    join_strings, push_padded_decimal, push_padded_hex, signed_decimal_string, starts_with,
    trim_end_matches,
};

#[test]
fn decimal_text_of_numbers() {
    assert_eq!(decimal_string(0), "0");
    assert_eq!(decimal_string(9527), "9527");
    assert_eq!(decimal_string(u64::MAX), u64::MAX.to_string());
}

#[test]
fn signed_decimal_text_of_numbers() {
    assert_eq!(signed_decimal_string(-5), "-5");
    assert_eq!(signed_decimal_string(0), "0");
    assert_eq!(signed_decimal_string(i64::MIN), i64::MIN.to_string());
    assert_eq!(signed_decimal_string(i64::MAX), i64::MAX.to_string());
}

#[test]
fn padded_hex_matches_format() {
    for n in [0u64, 5, 15, 16, 44, 255, 256, 0x1234, 0xffff_ffff] {
        let mut s = String::new();
        push_padded_hex(&mut s, n, 2);
        assert_eq!(s, format!("{:>0width$x}", n, width = 2));
    }
}

#[test]
fn padded_decimal_matches_format() {
    for n in [0u64, 7, 123, 4096, 1_000_000_000_000_000_000] {
        let mut s = String::new();
        push_padded_decimal(&mut s, n, 16);
        assert_eq!(s, format!("{:>0w$}", n, w = 16));
    }
}

#[test]
fn searching_text() {
    assert!(contains_char("centos7.0@base", '@'));
    assert!(!contains_char("centos7.0", '@'));
    assert!(starts_with("clone_12", "clone_"));
    assert!(!starts_with("clon", "clone_"));
    assert!(ends_with("centos7.qcow2", ".qcow2"));
    assert!(!ends_with("qcow2", ".qcow2"));
    assert!(contains_str("flags : fpu vme svm lm", " svm "));
    assert!(!contains_str("flags : fpu vme svmx", " svm "));
    assert!(contains_str("abc", ""));
}

#[test]
fn trim_end_matches_like_std() {
    for (s, p) in [
        ("a.qcow2.qcow2", ".qcow2"),
        ("a.qcow2", ".qcow2"),
        (".qcow2", ".qcow2"),
        ("plain", ".qcow2"),
        ("aaaa", "aa"),
        ("abc", ""),
    ] {
        assert_eq!(trim_end_matches(s, p), s.trim_end_matches(p));
    }
}

#[test]
fn after_last_like_rsplitn() {
    for s in ["/a/b/c.txt", "noslash", "dir/", "", "/x"] {
        assert_eq!(after_last_char(s, '/'), s.rsplitn(2, '/').next().unwrap());
    }
}

#[test]
fn joining_and_concatenating() {
    let v = vec!["1".to_string(), "22".to_string(), "333".to_string()];
    assert_eq!(join_strings(&v, ","), "1,22,333");
    assert_eq!(join_strings(&Vec::new(), ","), "");
    assert_eq!(concat_strs(&vec!["ab", "", "c"]), "abc");
}

#[test]
fn ipv4_keeps_its_text() {
    let ip = Ipv4::new("10.10.123.110".to_string());
    assert_eq!(ip.as_str(), "10.10.123.110");
    assert_eq!(ip.clone().as_str(), "10.10.123.110");
    assert_eq!(Ipv4::default().as_str(), "");
}

#[test]
fn vm_kind_names() {
    assert_eq!(VmKind::Bhyve.name(), "Bhyve");
    assert_eq!(VmKind::Qemu.name(), "Qemu");
    assert_eq!(VmKind::Jail.name(), "Jail");
    assert_eq!(VmKind::Docker.name(), "Docker");
    assert_eq!(VmKind::Unknown.name(), "Unknown");
}

#[test]
fn default_vm_kind_per_host() {
    assert_eq!(VmKind::default_for(HostOs::Linux), VmKind::Qemu);
    assert_eq!(VmKind::default_for(HostOs::FreeBsd), VmKind::Bhyve);
    assert_eq!(VmKind::default_for(HostOs::Other), VmKind::Unknown);
}

#[test]
fn resource_defaults() {
    assert_eq!(CPU_DEFAULT, 4);
    assert_eq!(MEM_DEFAULT, 2 * 1024);
    assert_eq!(DISK_DEFAULT, 16 * 1024);
}
