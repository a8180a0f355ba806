use pp::image::{image_entry, mock_os_info, qcow2_os_info, zfs_os_info, QCOW2_SUFFIX};

fn entry(name: Option<&str>, path: &str) -> (Option<String>, String) {
    (name.map(|n| n.to_string()), path.to_string())
}

#[test]
fn zfs_volumes_offered() {
    let entries = vec![
        entry(Some("CentOS7.6"), "/dev/zvol/zroot/pp/CentOS7.6"),
        entry(Some("Ubuntu18.04"), "/dev/zvol/zroot/pp/Ubuntu18.04"),
    ];
    let got = zfs_os_info(&entries);
    assert_eq!(
        got,
        vec![
            ("centos7.6".to_string(), "/dev/zvol/zroot/pp/CentOS7.6".to_string()),
            ("ubuntu18.04".to_string(), "/dev/zvol/zroot/pp/Ubuntu18.04".to_string()),
        ]
    );
}

#[test]
fn zfs_clones_and_snapshots_left_out() {
    // Each offered name keeps the path of its own volume.
    let entries = vec![
        entry(Some("clone_12"), "p0"),
        entry(Some("centos7@base"), "p1"),
        entry(Some("Debian10"), "p2"),
        entry(None, "p3"),
        entry(Some("fedora30"), "p4"),
    ];
    let got = zfs_os_info(&entries);
    assert_eq!(
        got,
        vec![("debian10".to_string(), "p2".to_string()), ("fedora30".to_string(), "p4".to_string())]
    );
}

#[test]
fn qcow2_images_offered() {
    let entries = vec![
        entry(Some("CentOS7.6.qcow2"), "/img/CentOS7.6.qcow2"),
        entry(Some("notes.txt"), "/img/notes.txt"),
        entry(Some("Arch.qcow2.qcow2"), "/img/Arch.qcow2.qcow2"),
    ];
    let got = qcow2_os_info(&entries);
    assert_eq!(
        got,
        vec![
            ("centos7.6".to_string(), "/img/CentOS7.6.qcow2".to_string()),
            ("arch".to_string(), "/img/Arch.qcow2.qcow2".to_string()),
        ]
    );
    assert_eq!(QCOW2_SUFFIX, ".qcow2");
}

#[test]
fn mock_list_of_images() {
    let got = mock_os_info("/img", ".qcow2");
    assert_eq!(got.len(), 9);
    for (i, (name, path)) in got.iter().enumerate() {
        assert_eq!(*name, format!("CentOS7.{}", i).to_lowercase());
        assert_eq!(*path, format!("{}/CentOS7.{}{}", "/img", i, ".qcow2"));
    }
    assert_eq!(mock_os_info("/z", "")[3], ("centos7.3".to_string(), "/z/CentOS7.3".to_string()));
}

#[test]
fn zfs_snapshot_before_base_keeps_paths_apart() {
    let entries = vec![entry(Some("a@snap"), "/p/a@snap"), entry(Some("CentOS"), "/p/CentOS")];
    assert_eq!(zfs_os_info(&entries), vec![("centos".to_string(), "/p/CentOS".to_string())]);
}

#[test]
fn image_entry_takes_the_final_component() {
    assert_eq!(image_entry("/usr/bin/"), (Some("bin".to_string()), "/usr/bin/".to_string()));
    assert_eq!(image_entry("tmp/foo.txt").0, Some("foo.txt".to_string()));
    assert_eq!(image_entry("foo.txt/.").0, Some("foo.txt".to_string()));
    assert_eq!(image_entry("foo.txt/.//").0, Some("foo.txt".to_string()));
    assert_eq!(image_entry("foo.txt/..").0, None);
    assert_eq!(image_entry("/").0, None);
    assert_eq!(image_entry("").0, None);
    assert_eq!(image_entry("./").0, None);
}
