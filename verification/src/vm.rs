//! The commands that bring a VM up and tear it down: Qemu with a qcow2
//! overlay or a ZFS clone on Linux, Bhyve with a ZFS clone on FreeBSD.
//! Each builder states the exact text or argument list it produces.
use crate::def::VmKind;
use crate::text::{
    concat, concat_strs, padded_hex, push_padded_hex, signed_decimal, signed_decimal_string,
    trunc_div, trunc_rem, contains_str, contains_text, decimal, decimal_string, push_item,
    push_owned, views, after_last,
};
use vstd::prelude::*;

verus! {

/// The prefix of the ZFS clones made for running VMs.
pub const CLONE_MARK: &'static str = "clone_";

/// The Linux bridge the VM taps join.
pub const BRIDGE: &'static str = "ppcore-bridge";

/// The script Qemu runs to bring a tap up and attach it to the bridge.
pub const TAP_SH: &'static str = "/tmp/.pp_tap.sh";

/// A virtual machine as the server starts it.
pub struct Vm {
    /// Its id; the last two octets of its MAC address are `id / 256` and `id % 256`.
    pub id: i32,
    /// The engine it runs on.
    pub kind: VmKind,
    /// CPU cores.
    pub cpu_num: u32,
    /// Memory in MB.
    pub mem_size: u32,
    /// Disk in MB.
    pub disk_size: u32,
    /// The path of the base image it starts from.
    pub image_path: String,
}

/// Why a VM cannot be started.
#[derive(Clone, Copy, Debug, PartialEq, Eq, Structural)]
pub enum VmError {
    /// No engine drives this kind of VM.
    UnsupportedKind,
    /// The CPU offers neither AMD-V (`svm`) nor VT-x (`vmx`).
    UnsupportedPlatform,
    /// The image path has no file name that is valid text.
    NoImageName,
}

/// The engines a VM can be handed to.
#[derive(Clone, Copy, Debug, PartialEq, Eq, Structural)]
pub enum Engine {
    /// Qemu/KVM.
    Qemu,
    /// Docker.
    Docker,
}

/// The engine that starts a VM of `kind` on Linux.
pub open spec fn engine_of(kind: VmKind) -> Result<Engine, VmError> {
    match kind {
        VmKind::Qemu => Ok(Engine::Qemu),
        VmKind::Docker => Ok(Engine::Docker),
        _ => Err(VmError::UnsupportedKind),
    }
}

/// The engine that starts a VM of `kind` on Linux: Qemu and Docker are
/// driven, every other kind is refused.
pub fn engine_for(kind: VmKind) -> (res: Result<Engine, VmError>)
    ensures
        res == engine_of(kind),
{
    match kind {
        VmKind::Qemu => Ok(Engine::Qemu),
        VmKind::Docker => Ok(Engine::Docker),
        _ => Err(VmError::UnsupportedKind),
    }
}

/// The IOMMU device Qemu is given for a CPU described by `cpuinfo`.
pub open spec fn iommu_of(cpuinfo: Seq<char>) -> Result<Seq<char>, VmError> {
    if contains_text(cpuinfo, " svm "@) {
        Ok("amd-iommu"@)
    } else if contains_text(cpuinfo, " vmx "@) {
        Ok("intel-iommu"@)
    } else {
        Err(VmError::UnsupportedPlatform)
    }
}

/// The IOMMU device for a CPU whose `/proc/cpuinfo` reads `cpuinfo`:
/// `amd-iommu` where the flags hold `svm`, else `intel-iommu` where they
/// hold `vmx`, else the platform is refused.
pub fn iommu_device(cpuinfo: &str) -> (res: Result<&'static str, VmError>)
    ensures
        match res {
            Ok(dev) => iommu_of(cpuinfo@) == Ok::<Seq<char>, VmError>(dev@),
            Err(e) => iommu_of(cpuinfo@) == Err::<Seq<char>, VmError>(e),
        },
{
    if contains_str(cpuinfo, " svm ") {
        Ok("amd-iommu")
    } else if contains_str(cpuinfo, " vmx ") {
        Ok("intel-iommu")
    } else {
        Err(VmError::UnsupportedPlatform)
    }
}

/// The last two octets of the MAC address of VM `id`, as `hi:lo` in two
/// hex digits each (`{:02x}` of `id / 256` and `id % 256`).
pub open spec fn mac_tail(id: int) -> Seq<char> {
    padded_hex((trunc_div(id, 256) as u32) as nat, 2) + ":"@ + padded_hex(
        (trunc_rem(id, 256) as u32) as nat,
        2,
    )
}

/// The decimal text of the VM id.
pub open spec fn id_text(id: i32) -> Seq<char> {
    signed_decimal(id as int)
}

fn id_string(id: i32) -> (res: String)
    ensures
        res@ == id_text(id),
{
    signed_decimal_string(id as i64)
}

fn mac_tail_string(id: i32) -> (res: String)
    ensures
        res@ == mac_tail(id as int),
{
    let q = id / 256;
    let r = id % 256;
    assert(q == trunc_div(id as int, 256));
    assert(r == trunc_rem(id as int, 256));
    let mut s = String::new();
    push_padded_hex(&mut s, (q as u32) as u64, 2);
    s.append(":");
    push_padded_hex(&mut s, (r as u32) as u64, 2);
    assert(s@ =~= mac_tail(id as int));
    s
}

/// The script that makes the tap of a Qemu VM join the bridge.
pub open spec fn tap_script_text() -> Seq<char> {
    concat(seq!["#!/bin/sh\nip link set $1 up;sleep 1;ip link set $1 master "@, BRIDGE@])
}

/// The script that makes the tap of a Qemu VM join the bridge.
pub fn tap_script() -> (res: String)
    ensures
        res@ == tap_script_text(),
{
    let v = vec!["#!/bin/sh\nip link set $1 up;sleep 1;ip link set $1 master ", BRIDGE];
    let res = concat_strs(&v);
    assert(v@.map_values(|p: &str| p@) =~= seq![
        "#!/bin/sh\nip link set $1 up;sleep 1;ip link set $1 master "@,
        BRIDGE@,
    ]);
    res
}

/// The `-netdev` option of a Qemu VM: a vhost tap named after the VM.
pub open spec fn qemu_netdev_text(id: i32) -> Seq<char> {
    concat(
        seq![
            "tap,vhost=on,ifname=ETH-"@,
            id_text(id),
            ",script="@,
            TAP_SH@,
            ",downscript=no,id=NET_"@,
            id_text(id),
        ],
    )
}

/// The `-device` option of the NIC of a Qemu VM, with its MAC address.
pub open spec fn qemu_nic_text(id: i32) -> Seq<char> {
    concat(
        seq!["virtio-net-pci,mac=52:54:00:11:"@, mac_tail(id as int), ",netdev=NET_"@, id_text(id)],
    )
}

/// The `-device` option of the disk of a VM.
pub open spec fn drive_device_text(id: i32) -> Seq<char> {
    concat(seq!["virtio-blk-pci,drive=DISK_"@, id_text(id)])
}

/// The arguments of `qemu-system-x86_64` for `vm`, with its IOMMU device,
/// its `-drive` and its disk `-device`.
pub open spec fn qemu_args_of(
    vm: Vm,
    iommu: Seq<char>,
    drive: Seq<char>,
    drive_device: Seq<char>,
) -> Seq<Seq<char>> {
    seq![
        "-enable-kvm"@,
        "-machine"@,
        "q35,accel=kvm"@,
        "-device"@,
        iommu,
        "-cpu"@,
        "host"@,
        "-smp"@,
        decimal(vm.cpu_num as nat),
        "-m"@,
        decimal(vm.mem_size as nat),
        "-netdev"@,
        qemu_netdev_text(vm.id),
        "-device"@,
        qemu_nic_text(vm.id),
        "-drive"@,
        drive,
        "-device"@,
        drive_device,
        "-boot"@,
        "order=cd"@,
        "-vnc"@,
        ":"@ + id_text(vm.id),
        "-daemonize"@,
    ]
}

/// The ZFS command that clones the base image of `os` for VM `id`.
pub open spec fn zfs_clone_text(os: Seq<char>, id: i32) -> Seq<char> {
    concat(
        seq![
            "zfs clone zroot/pp/"@,
            os,
            "@base zroot/pp/"@,
            CLONE_MARK@,
            id_text(id),
            " || exit 1"@,
        ],
    )
}

/// The `-drive` option of a VM that runs on a ZFS clone.
pub open spec fn zfs_drive_text(id: i32) -> Seq<char> {
    concat(
        seq![
            "file=/dev/zvol/zroot/pp/"@,
            CLONE_MARK@,
            id_text(id),
            ",if=none,format=raw,cache=none,id=DISK_"@,
            id_text(id),
        ],
    )
}

/// The ZFS command that destroys the clone of VM `id`.
pub open spec fn zfs_destroy_text(id: i32) -> Seq<char> {
    concat(seq!["zfs destroy zroot/pp/"@, CLONE_MARK@, id_text(id)])
}

/// The path of the qcow2 overlay of VM `id` over the base image `base`.
pub open spec fn overlay_path_text(base: Seq<char>, id: i32) -> Seq<char> {
    concat(seq![base, "."@, id_text(id)])
}

/// The arguments of `qemu-img` that create the overlay of VM `id`.
pub open spec fn overlay_create_args(base: Seq<char>, id: i32) -> Seq<Seq<char>> {
    seq![
        "create"@,
        "-f"@,
        "qcow2"@,
        "-o"@,
        "backing_file="@ + base,
        overlay_path_text(base, id),
    ]
}

/// The `-drive` option of a VM that runs on a qcow2 overlay.
pub open spec fn overlay_drive_text(overlay: Seq<char>, id: i32) -> Seq<char> {
    concat(seq!["file="@, overlay, ",if=none,media=disk,id=DISK_"@, id_text(id)])
}

/// The shell script that prepares the tap and the ZFS clone of Bhyve VM
/// `id` whose base image is the snapshot of `os`.
pub open spec fn bhyve_prepare_text(id: i32, os: Seq<char>) -> Seq<char> {
    let i = id_text(id);
    concat(
        seq![
            "\n        ifconfig tap"@,
            i,
            " destroy 2>/dev/null;\n        ifconfig tap"@,
            i,
            " create || exit 1;\n        ifconfig bridge0 addm tap"@,
            i,
            " up || exit 1;\n\n        bhyvectl --destroy --vm="@,
            i,
            " 2>/dev/null;\n        zfs clone zroot/pp/"@,
            os,
            "@base zroot/pp/"@,
            CLONE_MARK@,
            i,
            " ||  exit 1;\n        "@,
        ],
    )
}

/// The arguments of `bhyve` for `vm`.
pub open spec fn bhyve_args_of(vm: Vm) -> Seq<Seq<char>> {
    let i = id_text(vm.id);
    seq![
        "-A"@,
        "-H"@,
        "-P"@,
        "-c"@,
        decimal(vm.cpu_num as nat),
        "-m"@,
        decimal(vm.mem_size as nat) + "M"@,
        "-s"@,
        "0,hostbridge"@,
        "-s"@,
        "1,lpc"@,
        "-s"@,
        concat(seq!["2,virtio-blk,/dev/zvol/zroot/pp/"@, CLONE_MARK@, i]),
        "-s"@,
        concat(seq!["3,virtio-net,tap"@, i, ",mac=00:be:fa:76:"@, mac_tail(vm.id as int)]),
        "-l"@,
        "bootrom,/usr/local/share/uefi-firmware/BHYVE_UEFI.fd"@,
        i,
    ]
}

/// The shell script that frees what Bhyve VM `id` held: its VM name, its
/// ZFS clone and its tap.
pub open spec fn bhyve_cleanup_text(id: i32) -> Seq<char> {
    let i = id_text(id);
    concat(
        seq![
            "\n        bhyvectl --destroy --vm="@,
            i,
            ";\n        zfs destroy zroot/pp/"@,
            CLONE_MARK@,
            i,
            ";\n        ifconfig bridge0 deletem tap"@,
            i,
            ";\n        ifconfig tap"@,
            i,
            " destroy;\n        "@,
        ],
    )
}

impl Vm {
    /// The id of the VM.
    pub fn id(&self) -> (res: i32)
        ensures
            res == self.id,
    {
        self.id
    }

    /// The `-netdev` option of the VM under Qemu.
    pub fn qemu_netdev(&self) -> (res: String)
        ensures
            res@ == qemu_netdev_text(self.id),
    {
        let i = id_string(self.id);
        let v = vec!["tap,vhost=on,ifname=ETH-", i.as_str(), ",script=", TAP_SH, ",downscript=no,id=NET_", i.as_str()];
        let res = concat_strs(&v);
        assert(v@.map_values(|p: &str| p@) =~= seq![
            "tap,vhost=on,ifname=ETH-"@,
            id_text(self.id),
            ",script="@,
            TAP_SH@,
            ",downscript=no,id=NET_"@,
            id_text(self.id),
        ]);
        res
    }

    /// The NIC `-device` option of the VM under Qemu.
    pub fn qemu_nic(&self) -> (res: String)
        ensures
            res@ == qemu_nic_text(self.id),
    {
        let i = id_string(self.id);
        let m = mac_tail_string(self.id);
        let v = vec!["virtio-net-pci,mac=52:54:00:11:", m.as_str(), ",netdev=NET_", i.as_str()];
        let res = concat_strs(&v);
        assert(v@.map_values(|p: &str| p@) =~= seq![
            "virtio-net-pci,mac=52:54:00:11:"@,
            mac_tail(self.id as int),
            ",netdev=NET_"@,
            id_text(self.id),
        ]);
        res
    }

    /// The disk `-device` option of the VM.
    pub fn drive_device(&self) -> (res: String)
        ensures
            res@ == drive_device_text(self.id),
    {
        let i = id_string(self.id);
        let v = vec!["virtio-blk-pci,drive=DISK_", i.as_str()];
        let res = concat_strs(&v);
        assert(v@.map_values(|p: &str| p@) =~= seq!["virtio-blk-pci,drive=DISK_"@, id_text(self.id)]);
        res
    }

    /// The arguments of `qemu-system-x86_64` for the VM.
    pub fn qemu_args(&self, iommu: &str, drive: &str, drive_device: &str) -> (res: Vec<String>)
        ensures
            views(res@) == qemu_args_of(*self, iommu@, drive@, drive_device@),
    {
        let mut v: Vec<String> = Vec::new();
        push_item(&mut v, "-enable-kvm");
        push_item(&mut v, "-machine");
        push_item(&mut v, "q35,accel=kvm");
        push_item(&mut v, "-device");
        push_item(&mut v, iommu);
        push_item(&mut v, "-cpu");
        push_item(&mut v, "host");
        push_item(&mut v, "-smp");
        push_owned(&mut v, decimal_string(self.cpu_num as u64));
        push_item(&mut v, "-m");
        push_owned(&mut v, decimal_string(self.mem_size as u64));
        push_item(&mut v, "-netdev");
        push_owned(&mut v, self.qemu_netdev());
        push_item(&mut v, "-device");
        push_owned(&mut v, self.qemu_nic());
        push_item(&mut v, "-drive");
        push_item(&mut v, drive);
        push_item(&mut v, "-device");
        push_item(&mut v, drive_device);
        push_item(&mut v, "-boot");
        push_item(&mut v, "order=cd");
        push_item(&mut v, "-vnc");
        let mut vnc = String::new();
        vnc.append(":");
        let i = id_string(self.id);
        vnc.append(i.as_str());
        push_owned(&mut v, vnc);
        push_item(&mut v, "-daemonize");
        assert(views(v@) =~= qemu_args_of(*self, iommu@, drive@, drive_device@));
        v
    }

    /// The ZFS command that clones the base image of `os` for the VM.
    pub fn zfs_clone_cmd(&self, os: &str) -> (res: String)
        ensures
            res@ == zfs_clone_text(os@, self.id),
    {
        let i = id_string(self.id);
        let v = vec!["zfs clone zroot/pp/", os, "@base zroot/pp/", CLONE_MARK, i.as_str(), " || exit 1"];
        let res = concat_strs(&v);
        assert(v@.map_values(|p: &str| p@) =~= seq![
            "zfs clone zroot/pp/"@,
            os@,
            "@base zroot/pp/"@,
            CLONE_MARK@,
            id_text(self.id),
            " || exit 1"@,
        ]);
        res
    }

    /// The `-drive` option of the VM when it runs on its ZFS clone.
    pub fn zfs_drive(&self) -> (res: String)
        ensures
            res@ == zfs_drive_text(self.id),
    {
        let i = id_string(self.id);
        let v = vec![
            "file=/dev/zvol/zroot/pp/",
            CLONE_MARK,
            i.as_str(),
            ",if=none,format=raw,cache=none,id=DISK_",
            i.as_str(),
        ];
        let res = concat_strs(&v);
        assert(v@.map_values(|p: &str| p@) =~= seq![
            "file=/dev/zvol/zroot/pp/"@,
            CLONE_MARK@,
            id_text(self.id),
            ",if=none,format=raw,cache=none,id=DISK_"@,
            id_text(self.id),
        ]);
        res
    }

    /// The ZFS command that destroys the clone of the VM.
    pub fn zfs_destroy_cmd(&self) -> (res: String)
        ensures
            res@ == zfs_destroy_text(self.id),
    {
        let i = id_string(self.id);
        let v = vec!["zfs destroy zroot/pp/", CLONE_MARK, i.as_str()];
        let res = concat_strs(&v);
        assert(v@.map_values(|p: &str| p@) =~= seq!["zfs destroy zroot/pp/"@, CLONE_MARK@, id_text(self.id)]);
        res
    }

    /// The path of the qcow2 overlay of the VM: its base image path, a dot
    /// and its id.
    pub fn overlay_path(&self) -> (res: String)
        ensures
            res@ == overlay_path_text(self.image_path@, self.id),
    {
        let i = id_string(self.id);
        let v = vec![self.image_path.as_str(), ".", i.as_str()];
        let res = concat_strs(&v);
        assert(v@.map_values(|p: &str| p@) =~= seq![self.image_path@, "."@, id_text(self.id)]);
        res
    }

    /// The arguments of `qemu-img` that create the overlay of the VM.
    pub fn overlay_create_args(&self) -> (res: Vec<String>)
        ensures
            views(res@) == overlay_create_args(self.image_path@, self.id),
    {
        let mut v: Vec<String> = Vec::new();
        push_item(&mut v, "create");
        push_item(&mut v, "-f");
        push_item(&mut v, "qcow2");
        push_item(&mut v, "-o");
        let mut opt = String::new();
        opt.append("backing_file=");
        opt.append(self.image_path.as_str());
        push_owned(&mut v, opt);
        push_owned(&mut v, self.overlay_path());
        assert(views(v@) =~= overlay_create_args(self.image_path@, self.id));
        v
    }

    /// The `-drive` option of the VM when it runs on the overlay `overlay`.
    pub fn overlay_drive(&self, overlay: &str) -> (res: String)
        ensures
            res@ == overlay_drive_text(overlay@, self.id),
    {
        let i = id_string(self.id);
        let v = vec!["file=", overlay, ",if=none,media=disk,id=DISK_", i.as_str()];
        let res = concat_strs(&v);
        assert(v@.map_values(|p: &str| p@) =~= seq![
            "file="@,
            overlay@,
            ",if=none,media=disk,id=DISK_"@,
            id_text(self.id),
        ]);
        res
    }

    /// The script that prepares the tap and the ZFS clone of the VM under
    /// Bhyve, `os` being the name of its base snapshot.
    pub fn bhyve_prepare_script(&self, os: &str) -> (res: String)
        ensures
            res@ == bhyve_prepare_text(self.id, os@),
    {
        let i = id_string(self.id);
        let is = i.as_str();
        let v = vec![
            "\n        ifconfig tap",
            is,
            " destroy 2>/dev/null;\n        ifconfig tap",
            is,
            " create || exit 1;\n        ifconfig bridge0 addm tap",
            is,
            " up || exit 1;\n\n        bhyvectl --destroy --vm=",
            is,
            " 2>/dev/null;\n        zfs clone zroot/pp/",
            os,
            "@base zroot/pp/",
            CLONE_MARK,
            is,
            " ||  exit 1;\n        ",
        ];
        let res = concat_strs(&v);
        let ghost t = id_text(self.id);
        assert(v@.map_values(|p: &str| p@) =~= seq![
            "\n        ifconfig tap"@,
            t,
            " destroy 2>/dev/null;\n        ifconfig tap"@,
            t,
            " create || exit 1;\n        ifconfig bridge0 addm tap"@,
            t,
            " up || exit 1;\n\n        bhyvectl --destroy --vm="@,
            t,
            " 2>/dev/null;\n        zfs clone zroot/pp/"@,
            os@,
            "@base zroot/pp/"@,
            CLONE_MARK@,
            t,
            " ||  exit 1;\n        "@,
        ]);
        res
    }

    /// The arguments of `bhyve` for the VM.
    pub fn bhyve_args(&self) -> (res: Vec<String>)
        ensures
            views(res@) == bhyve_args_of(*self),
    {
        let i = id_string(self.id);
        let mut mem = decimal_string(self.mem_size as u64);
        mem.append("M");
        let dv = vec!["2,virtio-blk,/dev/zvol/zroot/pp/", CLONE_MARK, i.as_str()];
        let disk = concat_strs(&dv);
        assert(dv@.map_values(|p: &str| p@) =~= seq![
            "2,virtio-blk,/dev/zvol/zroot/pp/"@,
            CLONE_MARK@,
            id_text(self.id),
        ]);
        let m = mac_tail_string(self.id);
        let nv = vec!["3,virtio-net,tap", i.as_str(), ",mac=00:be:fa:76:", m.as_str()];
        let nic = concat_strs(&nv);
        assert(nv@.map_values(|p: &str| p@) =~= seq![
            "3,virtio-net,tap"@,
            id_text(self.id),
            ",mac=00:be:fa:76:"@,
            mac_tail(self.id as int),
        ]);
        let mut v: Vec<String> = Vec::new();
        push_item(&mut v, "-A");
        push_item(&mut v, "-H");
        push_item(&mut v, "-P");
        push_item(&mut v, "-c");
        push_owned(&mut v, decimal_string(self.cpu_num as u64));
        push_item(&mut v, "-m");
        push_owned(&mut v, mem);
        push_item(&mut v, "-s");
        push_item(&mut v, "0,hostbridge");
        push_item(&mut v, "-s");
        push_item(&mut v, "1,lpc");
        push_item(&mut v, "-s");
        push_owned(&mut v, disk);
        push_item(&mut v, "-s");
        push_owned(&mut v, nic);
        push_item(&mut v, "-l");
        push_item(&mut v, "bootrom,/usr/local/share/uefi-firmware/BHYVE_UEFI.fd");
        push_owned(&mut v, i);
        assert(views(v@) =~= bhyve_args_of(*self));
        v
    }

    /// The script that frees what the VM held under Bhyve.
    pub fn bhyve_cleanup_script(&self) -> (res: String)
        ensures
            res@ == bhyve_cleanup_text(self.id),
    {
        let i = id_string(self.id);
        let is = i.as_str();
        let v = vec![
            "\n        bhyvectl --destroy --vm=",
            is,
            ";\n        zfs destroy zroot/pp/",
            CLONE_MARK,
            is,
            ";\n        ifconfig bridge0 deletem tap",
            is,
            ";\n        ifconfig tap",
            is,
            " destroy;\n        ",
        ];
        let res = concat_strs(&v);
        let ghost t = id_text(self.id);
        assert(v@.map_values(|p: &str| p@) =~= seq![
            "\n        bhyvectl --destroy --vm="@,
            t,
            ";\n        zfs destroy zroot/pp/"@,
            CLONE_MARK@,
            t,
            ";\n        ifconfig bridge0 deletem tap"@,
            t,
            ";\n        ifconfig tap"@,
            t,
            " destroy;\n        "@,
        ]);
        res
    }

    /// The name of the base image: the file name of `image_path`; refused
    /// where it has none that is valid text.
    pub fn image_name(&self) -> (res: Result<String, VmError>)
        ensures
            match res {
                Ok(n) => unix_file_name(self.image_path@) == Some(n@),
                Err(e) => unix_file_name(self.image_path@) is None && e == VmError::NoImageName,
            },
    {
        match file_name(self.image_path.as_str()) {
            Some(n) => Ok(n),
            None => Err(VmError::NoImageName),
        }
    }
}

/// The final component of a Unix path, as `Path::file_name` gives it:
/// trailing `/` and `.` components are normalized away, and there is none
/// where nothing is left, where only `.` is left, or where the path ends in
/// `..`.
pub open spec fn unix_file_name(p: Seq<char>) -> Option<Seq<char>>
    decreases p.len(),
{
    if p.len() == 0 {
        None
    } else if p.last() == '/' {
        unix_file_name(p.drop_last())
    } else {
        let seg = after_last(p, '/');
        if seg == seq!['.'] {
            if seg.len() < p.len() {
                unix_file_name(p.drop_last())
            } else {
                None
            }
        } else if seg == seq!['.', '.'] {
            None
        } else {
            Some(seg)
        }
    }
}

/// `Path::new(path).file_name()` taken as text (`to_str` cannot fail on a
/// path made from a `&str`). The claim is that it is the final component
/// as documented for Unix paths, `unix_file_name`.
#[verifier::external_body]
pub(crate) fn file_name(path: &str) -> (res: Option<String>)
    ensures
        res matches Some(n) ==> unix_file_name(path@) == Some(n@),
        res is None ==> unix_file_name(path@) is None,
{
    std::path::Path::new(path).file_name().and_then(|n| n.to_str()).map(|n| n.to_string())
}

proof fn lemma_padded_hex_byte(v: nat)
    requires
        v < 256,
    ensures
        padded_hex(v, 2) == seq![crate::text::digit_char(v / 16), crate::text::digit_char(v % 16)],
{
    reveal_with_fuel(crate::text::hex, 2);
    if v < 16 {
        assert(crate::text::hex(v) == seq![crate::text::digit_char(v)]);
        assert(crate::text::digit_char(0) == '0');
        assert(padded_hex(v, 2) =~= seq![crate::text::digit_char(v / 16), crate::text::digit_char(v % 16)]);
    } else {
        assert(crate::text::hex(v / 16) == seq![crate::text::digit_char(v / 16)]);
        assert(padded_hex(v, 2) =~= seq![crate::text::digit_char(v / 16), crate::text::digit_char(v % 16)]);
    }
}

proof fn lemma_digit_char_injective(a: nat, b: nat)
    requires
        a < 16,
        b < 16,
        crate::text::digit_char(a) == crate::text::digit_char(b),
    ensures
        a == b,
{
}

/// Distinct VMs get distinct MAC addresses: for ids in the range the
/// server hands out (two octets), the last two octets differ whenever the
/// ids do.
pub proof fn law_mac_tail_injective(a: i32, b: i32)
    requires
        0 <= a < 65536,
        0 <= b < 65536,
        mac_tail(a as int) == mac_tail(b as int),
    ensures
        a == b,
{
    let ha = (a / 256) as nat;
    let la = (a % 256) as nat;
    let hb = (b / 256) as nat;
    let lb = (b % 256) as nat;
    assert(trunc_div(a as int, 256) == ha);
    assert(trunc_div(b as int, 256) == hb);
    assert(trunc_rem(a as int, 256) == la);
    assert(trunc_rem(b as int, 256) == lb);
    assert((ha as u32) as nat == ha);
    assert((la as u32) as nat == la);
    assert((hb as u32) as nat == hb);
    assert((lb as u32) as nat == lb);
    lemma_padded_hex_byte(ha);
    lemma_padded_hex_byte(la);
    lemma_padded_hex_byte(hb);
    lemma_padded_hex_byte(lb);
    reveal_strlit(":");
    let ma = mac_tail(a as int);
    let mb = mac_tail(b as int);
    assert(ma =~= seq![
        crate::text::digit_char(ha / 16),
        crate::text::digit_char(ha % 16),
        ':',
        crate::text::digit_char(la / 16),
        crate::text::digit_char(la % 16),
    ]);
    assert(mb =~= seq![
        crate::text::digit_char(hb / 16),
        crate::text::digit_char(hb % 16),
        ':',
        crate::text::digit_char(lb / 16),
        crate::text::digit_char(lb % 16),
    ]);
    assert(ma[0] == mb[0]);
    assert(ma[1] == mb[1]);
    assert(ma[3] == mb[3]);
    assert(ma[4] == mb[4]);
    lemma_digit_char_injective(ha / 16, hb / 16);
    lemma_digit_char_injective(ha % 16, hb % 16);
    lemma_digit_char_injective(la / 16, lb / 16);
    lemma_digit_char_injective(la % 16, lb % 16);
    assert(ha == hb);
    assert(la == lb);
}


/// Whether `c` is a lower-case hexadecimal digit.
pub open spec fn is_lower_hex_digit(c: char) -> bool {
    ('0' <= c && c <= '9') || ('a' <= c && c <= 'f')
}

/// The value of a hexadecimal digit.
pub open spec fn hex_digit_value(c: char) -> nat {
    if '0' <= c && c <= '9' {
        ((c as int) - ('0' as int)) as nat
    } else {
        ((c as int) - ('a' as int) + 10) as nat
    }
}

/// The value of a two-digit hexadecimal octet.
pub open spec fn octet_value(s: Seq<char>) -> nat {
    hex_digit_value(s[0]) * 16 + hex_digit_value(s[1])
}

proof fn lemma_digit_char_hex(d: nat)
    requires
        d < 16,
    ensures
        is_lower_hex_digit(crate::text::digit_char(d)),
        hex_digit_value(crate::text::digit_char(d)) == d,
{
}

/// The MAC tail of VM `id` is two octets of two lower-case hex digits each,
/// separated by `:`, whose values are `id / 256` and `id % 256`: read back,
/// the octets give the id (for ids in the range of two octets).
pub proof fn law_mac_tail_octets(id: i32)
    requires
        0 <= id < 65536,
    ensures
        mac_tail(id as int) == seq![
            crate::text::digit_char((id / 256) as nat / 16),
            crate::text::digit_char((id / 256) as nat % 16),
            ':',
            crate::text::digit_char((id % 256) as nat / 16),
            crate::text::digit_char((id % 256) as nat % 16),
        ],
        mac_tail(id as int).len() == 5,
        mac_tail(id as int)[2] == ':',
        is_lower_hex_digit(mac_tail(id as int)[0]),
        is_lower_hex_digit(mac_tail(id as int)[1]),
        is_lower_hex_digit(mac_tail(id as int)[3]),
        is_lower_hex_digit(mac_tail(id as int)[4]),
        octet_value(mac_tail(id as int).subrange(0, 2)) == id / 256,
        octet_value(mac_tail(id as int).subrange(3, 5)) == id % 256,
        octet_value(mac_tail(id as int).subrange(0, 2)) * 256 + octet_value(
            mac_tail(id as int).subrange(3, 5),
        ) == id,
{
    let h = (id / 256) as nat;
    let l = (id % 256) as nat;
    assert(trunc_div(id as int, 256) == h);
    assert(trunc_rem(id as int, 256) == l);
    assert((h as u32) as nat == h);
    assert((l as u32) as nat == l);
    lemma_padded_hex_byte(h);
    lemma_padded_hex_byte(l);
    reveal_strlit(":");
    let m = mac_tail(id as int);
    assert(m =~= seq![
        crate::text::digit_char(h / 16),
        crate::text::digit_char(h % 16),
        ':',
        crate::text::digit_char(l / 16),
        crate::text::digit_char(l % 16),
    ]);
    lemma_digit_char_hex(h / 16);
    lemma_digit_char_hex(h % 16);
    lemma_digit_char_hex(l / 16);
    lemma_digit_char_hex(l % 16);
    assert(m.subrange(0, 2)[0] == m[0] && m.subrange(0, 2)[1] == m[1]);
    assert(m.subrange(3, 5)[0] == m[3] && m.subrange(3, 5)[1] == m[4]);
}

/// The overlay that `qemu-img create` makes for VM `id` is the file that
/// `overlay_path` names, the one the VM runs on and the one removed after
/// it: the base image path, a dot and the id. It is backed by the base
/// image and is never the base image itself, so removing it leaves the
/// base in place.
pub proof fn law_overlay_removed_is_created(base: Seq<char>, id: i32)
    ensures
        overlay_create_args(base, id).last() == overlay_path_text(base, id),
        overlay_create_args(base, id)[4] == "backing_file="@ + base,
        overlay_path_text(base, id) == base + "."@ + id_text(id),
        overlay_path_text(base, id) != base,
{
    let parts = seq![base, "."@, id_text(id)];
    reveal_with_fuel(concat, 4);
    assert(parts.drop_last().drop_last().drop_last() =~= Seq::<Seq<char>>::empty());
    assert(parts.drop_last().drop_last() =~= seq![base]);
    assert(parts.drop_last() =~= seq![base, "."@]);
    assert(concat(seq![base]) =~= base);
    assert(overlay_path_text(base, id) =~= base + "."@ + id_text(id));
    reveal_strlit(".");
    assert(overlay_path_text(base, id).len() > base.len());
}

/// Each option of the Qemu command line is followed by the VM's own value:
/// `-smp` by its CPU count, `-m` by its memory size in MB, `-device` by the
/// IOMMU device, `-netdev` and the next `-device` by its tap and its NIC,
/// `-drive` and the last `-device` by its disk, `-vnc` by `:` and its id.
pub proof fn law_qemu_options(vm: Vm, iommu: Seq<char>, drive: Seq<char>, drive_device: Seq<char>)
    ensures
        qemu_args_of(vm, iommu, drive, drive_device).len() == 24,
        qemu_args_of(vm, iommu, drive, drive_device)[3] == "-device"@,
        qemu_args_of(vm, iommu, drive, drive_device)[4] == iommu,
        qemu_args_of(vm, iommu, drive, drive_device)[7] == "-smp"@,
        qemu_args_of(vm, iommu, drive, drive_device)[8] == decimal(vm.cpu_num as nat),
        qemu_args_of(vm, iommu, drive, drive_device)[9] == "-m"@,
        qemu_args_of(vm, iommu, drive, drive_device)[10] == decimal(vm.mem_size as nat),
        qemu_args_of(vm, iommu, drive, drive_device)[11] == "-netdev"@,
        qemu_args_of(vm, iommu, drive, drive_device)[12] == qemu_netdev_text(vm.id),
        qemu_args_of(vm, iommu, drive, drive_device)[13] == "-device"@,
        qemu_args_of(vm, iommu, drive, drive_device)[14] == qemu_nic_text(vm.id),
        qemu_args_of(vm, iommu, drive, drive_device)[15] == "-drive"@,
        qemu_args_of(vm, iommu, drive, drive_device)[16] == drive,
        qemu_args_of(vm, iommu, drive, drive_device)[17] == "-device"@,
        qemu_args_of(vm, iommu, drive, drive_device)[18] == drive_device,
        qemu_args_of(vm, iommu, drive, drive_device)[21] == "-vnc"@,
        qemu_args_of(vm, iommu, drive, drive_device)[22] == ":"@ + id_text(vm.id),
        qemu_args_of(vm, iommu, drive, drive_device)[23] == "-daemonize"@,
{
}

/// Each option of the Bhyve command line is followed by the VM's own value:
/// `-c` by its CPU count, `-m` by its memory size with `M`, the disk slot by
/// the ZFS clone of this VM, the network slot by its tap and MAC; the VM is
/// named by its id, last.
pub proof fn law_bhyve_options(vm: Vm)
    ensures
        bhyve_args_of(vm).len() == 18,
        bhyve_args_of(vm)[3] == "-c"@,
        bhyve_args_of(vm)[4] == decimal(vm.cpu_num as nat),
        bhyve_args_of(vm)[5] == "-m"@,
        bhyve_args_of(vm)[6] == decimal(vm.mem_size as nat) + "M"@,
        bhyve_args_of(vm)[11] == "-s"@,
        bhyve_args_of(vm)[12] == "2,virtio-blk,/dev/zvol/zroot/pp/"@ + CLONE_MARK@ + id_text(vm.id),
        bhyve_args_of(vm)[13] == "-s"@,
        bhyve_args_of(vm)[14] == "3,virtio-net,tap"@ + id_text(vm.id) + ",mac=00:be:fa:76:"@ + mac_tail(
            vm.id as int,
        ),
        bhyve_args_of(vm)[17] == id_text(vm.id),
{
    let i = id_text(vm.id);
    let d = seq!["2,virtio-blk,/dev/zvol/zroot/pp/"@, CLONE_MARK@, i];
    reveal_with_fuel(concat, 5);
    assert(d.drop_last().drop_last().drop_last() =~= Seq::<Seq<char>>::empty());
    assert(concat(d) =~= "2,virtio-blk,/dev/zvol/zroot/pp/"@ + CLONE_MARK@ + i);
    let n = seq!["3,virtio-net,tap"@, i, ",mac=00:be:fa:76:"@, mac_tail(vm.id as int)];
    assert(n.drop_last().drop_last().drop_last().drop_last() =~= Seq::<Seq<char>>::empty());
    assert(concat(n) =~= "3,virtio-net,tap"@ + i + ",mac=00:be:fa:76:"@ + mac_tail(vm.id as int));
}

} // verus!
