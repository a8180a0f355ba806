use pp::def::VmKind;
use pp::vm::{engine_for, iommu_device, tap_script, Engine, Vm, VmError, BRIDGE, CLONE_MARK, TAP_SH};

const WIDTH: usize = 2;

fn vm(id: i32) -> Vm {
    Vm {
        id,
        kind: VmKind::Qemu,
        cpu_num: 4,
        mem_size: 2048,
        disk_size: 16384,
        image_path: "/data/images/centos7.6.qcow2".to_string(),
    }
}

#[test]
fn qemu_network_options() {
    for id in [0, 1, 300, 65535, -1, -300, i32::MIN] {
        let v = vm(id);
        assert_eq!(
            v.qemu_netdev(),
            format!("tap,vhost=on,ifname=ETH-{0},script={1},downscript=no,id=NET_{0}", id, TAP_SH)
        );
        assert_eq!(
            v.qemu_nic(),
            format!(
                "virtio-net-pci,mac=52:54:00:11:{:>0width$x}:{:>0width$x},netdev=NET_{}",
                id / 256,
                id % 256,
                id,
                width = WIDTH,
            )
        );
    }
    assert_eq!(vm(300).qemu_nic(), "virtio-net-pci,mac=52:54:00:11:01:2c,netdev=NET_300");
}

#[test]
fn qemu_argument_list() {
    let v = vm(7);
    let args = v.qemu_args("intel-iommu", "DRIVE", "DEV");
    let expected: Vec<String> = [
        "-enable-kvm", "-machine", "q35,accel=kvm", "-device", "intel-iommu", "-cpu", "host",
        "-smp", "4", "-m", "2048", "-netdev",
        "tap,vhost=on,ifname=ETH-7,script=/tmp/.pp_tap.sh,downscript=no,id=NET_7", "-device",
        "virtio-net-pci,mac=52:54:00:11:00:07,netdev=NET_7", "-drive", "DRIVE", "-device", "DEV",
        "-boot", "order=cd", "-vnc", ":7", "-daemonize",
    ]
    .iter()
    .map(|s| s.to_string())
    .collect();
    assert_eq!(args, expected);
}

#[test]
fn zfs_commands() {
    let v = vm(12);
    assert_eq!(
        v.zfs_clone_cmd("centos7.6"),
        format!(
            "zfs clone zroot/pp/{os}@base zroot/pp/{clone_mark}{id} || exit 1",
            os = "centos7.6",
            clone_mark = CLONE_MARK,
            id = 12
        )
    );
    assert_eq!(
        v.zfs_drive(),
        "file=/dev/zvol/zroot/pp/clone_12,if=none,format=raw,cache=none,id=DISK_12"
    );
    assert_eq!(v.drive_device(), "virtio-blk-pci,drive=DISK_12");
    assert_eq!(v.zfs_destroy_cmd(), "zfs destroy zroot/pp/clone_12");
}

#[test]
fn qcow2_overlay() {
    let v = vm(5);
    assert_eq!(v.overlay_path(), "/data/images/centos7.6.qcow2.5");
    assert_eq!(
        v.overlay_create_args(),
        vec![
            "create",
            "-f",
            "qcow2",
            "-o",
            "backing_file=/data/images/centos7.6.qcow2",
            "/data/images/centos7.6.qcow2.5"
        ]
    );
    assert_eq!(
        v.overlay_drive(&v.overlay_path()),
        "file=/data/images/centos7.6.qcow2.5,if=none,media=disk,id=DISK_5"
    );
}

#[test]
fn bhyve_commands() {
    let v = Vm { kind: VmKind::Bhyve, image_path: "zroot/pp/freebsd12".to_string(), ..vm(513) };
    let id = 513;
    assert_eq!(
        v.bhyve_prepare_script("freebsd12"),
        format!(
            "
        ifconfig tap{id} destroy 2>/dev/null;
        ifconfig tap{id} create || exit 1;
        ifconfig bridge0 addm tap{id} up || exit 1;

        bhyvectl --destroy --vm={id} 2>/dev/null;
        zfs clone zroot/pp/{os}@base zroot/pp/{clone_mark}{id} ||  exit 1;
        ",
            id = id,
            os = "freebsd12",
            clone_mark = CLONE_MARK,
        )
    );
    assert_eq!(
        v.bhyve_cleanup_script(),
        format!(
            "
        bhyvectl --destroy --vm={id};
        zfs destroy zroot/pp/{clone_mark}{id};
        ifconfig bridge0 deletem tap{id};
        ifconfig tap{id} destroy;
        ",
            id = id,
            clone_mark = CLONE_MARK,
        )
    );
    let args = v.bhyve_args();
    assert_eq!(args.len(), 18);
    assert_eq!(args[4], "4");
    assert_eq!(args[6], "2048M");
    assert_eq!(args[12], "2,virtio-blk,/dev/zvol/zroot/pp/clone_513");
    assert_eq!(args[14], "3,virtio-net,tap513,mac=00:be:fa:76:02:01");
    assert_eq!(args[17], "513");
}

#[test]
fn tap_script_joins_the_bridge() {
    assert_eq!(
        tap_script(),
        format!("#!/bin/sh\nip link set $1 up;sleep 1;ip link set $1 master {}", BRIDGE)
    );
}

#[test]
fn iommu_by_cpu_flags() {
    assert_eq!(iommu_device("flags : fpu svm"), Err(VmError::UnsupportedPlatform));
    assert_eq!(iommu_device("flags : fpu svm lm "), Ok("amd-iommu"));
    assert_eq!(iommu_device("flags : vmx svm x"), Ok("amd-iommu"));
    assert_eq!(iommu_device("flags : vmx sse"), Ok("intel-iommu"));
    assert_eq!(iommu_device(""), Err(VmError::UnsupportedPlatform));
}

#[test]
fn engines_by_kind() {
    assert_eq!(engine_for(VmKind::Qemu), Ok(Engine::Qemu));
    assert_eq!(engine_for(VmKind::Docker), Ok(Engine::Docker));
    assert_eq!(engine_for(VmKind::Bhyve), Err(VmError::UnsupportedKind));
    assert_eq!(engine_for(VmKind::Jail), Err(VmError::UnsupportedKind));
}

#[test]
fn image_name_from_path() {
    let v = vm(1);
    assert_eq!(v.image_name(), Ok("centos7.6.qcow2".to_string()));
    let w = Vm { image_path: "/data/..".to_string(), ..vm(1) };
    assert_eq!(w.image_name(), Err(VmError::NoImageName));
}

#[test]
fn distinct_ids_distinct_macs() {
    let mut seen = std::collections::HashSet::new();
    for id in (0..65536).step_by(97) {
        assert!(seen.insert(vm(id).qemu_nic()[31..36].to_string()));
    }
}

#[test]
fn mac_octets_read_back_to_the_id() {
    for id in [0, 10, 255, 256, 300, 4660, 65535] {
        let nic = vm(id).qemu_nic();
        let tail = &nic[31..36];
        assert_eq!(&tail[2..3], ":");
        assert!(tail.chars().filter(|c| *c != ':').all(|c| c.is_ascii_hexdigit() && !c.is_ascii_uppercase()));
        let hi = i32::from_str_radix(&tail[0..2], 16).unwrap();
        let lo = i32::from_str_radix(&tail[3..5], 16).unwrap();
        assert_eq!(hi * 256 + lo, id);
    }
    assert_eq!(&vm(10).qemu_nic()[31..36], "00:0a");
    assert_eq!(&vm(300).qemu_nic()[31..36], "01:2c");
}

#[test]
fn overlay_removed_is_the_one_created() {
    let v = vm(12);
    let created = v.overlay_create_args().last().cloned().unwrap();
    assert_eq!(created, v.overlay_path());
    assert_ne!(v.overlay_path(), v.image_path);
    assert!(v.overlay_create_args().contains(&format!("backing_file={}", v.image_path)));
}
