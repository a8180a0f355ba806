//! The definitions shared by the server and the client: addresses, the
//! kinds of virtual machine, and what an environment and a VM look like.
use std::collections::HashMap;
use vstd::prelude::*;

verus! {

/// CPU cores of a VM when the request names none.
pub const CPU_DEFAULT: u32 = 4;

/// Memory of a VM in MB when the request names none.
pub const MEM_DEFAULT: u32 = 2048;

/// Disk of a VM in MB when the request names none.
pub const DISK_DEFAULT: u32 = 16384;

/// An IPv4 address in its text form, e.g. `10.10.123.110`.
#[derive(Debug)]
pub struct Ipv4 {
    addr: String,
}

impl View for Ipv4 {
    type V = Seq<char>;

    closed spec fn view(&self) -> Seq<char> {
        self.addr@
    }
}

impl Ipv4 {
    /// An address with the text `addr`.
    pub fn new(addr: String) -> (res: Ipv4)
        ensures
            res@ == addr@,
    {
        Ipv4 { addr }
    }

    /// The text of the address.
    pub fn as_str(&self) -> (res: &str)
        ensures
            res@ == self@,
    {
        self.addr.as_str()
    }
}

impl Clone for Ipv4 {
    fn clone(&self) -> (res: Self)
        ensures
            res@ == self@,
    {
        Ipv4 { addr: self.addr.clone() }
    }
}

impl Default for Ipv4 {
    fn default() -> (res: Self)
        ensures
            res@ == Seq::<char>::empty(),
    {
        Ipv4 { addr: String::new() }
    }
}

/// The engines a VM can run on; only Bhyve and Qemu are driven today.
#[derive(Clone, Copy, Debug, PartialEq, Eq, Structural)]
#[non_exhaustive]
pub enum VmKind {
    /// A Bhyve virtual machine.
    Bhyve,
    /// A Qemu virtual machine.
    Qemu,
    /// A Jail container.
    Jail,
    /// A Docker container.
    Docker,
    /// Any other kind.
    Unknown,
}

/// The operating system the server runs on, which decides the default engine.
#[derive(Clone, Copy, Debug, PartialEq, Eq, Structural)]
pub enum HostOs {
    /// Linux: Qemu + nftables.
    Linux,
    /// FreeBSD: Bhyve + IPFW + ZFS.
    FreeBsd,
    /// Anything else.
    Other,
}

/// The name a kind of VM is shown by.
pub open spec fn vm_kind_name(kind: VmKind) -> Seq<char> {
    match kind {
        VmKind::Bhyve => "Bhyve"@,
        VmKind::Qemu => "Qemu"@,
        VmKind::Jail => "Jail"@,
        VmKind::Docker => "Docker"@,
        VmKind::Unknown => "Unknown"@,
    }
}

/// The engine a host uses when nothing else is asked for.
pub open spec fn default_vm_kind(host: HostOs) -> VmKind {
    match host {
        HostOs::Linux => VmKind::Qemu,
        HostOs::FreeBsd => VmKind::Bhyve,
        HostOs::Other => VmKind::Unknown,
    }
}

impl VmKind {
    /// The name the kind is shown by.
    pub fn name(&self) -> (res: &'static str)
        ensures
            res@ == vm_kind_name(*self),
    {
        match self {
            VmKind::Bhyve => "Bhyve",
            VmKind::Qemu => "Qemu",
            VmKind::Jail => "Jail",
            VmKind::Docker => "Docker",
            VmKind::Unknown => "Unknown",
        }
    }

    /// The default kind on `host`: Qemu on Linux, Bhyve on FreeBSD.
    pub fn default_for(host: HostOs) -> (res: VmKind)
        ensures
            res == default_vm_kind(host),
    {
        match host {
            HostOs::Linux => VmKind::Qemu,
            HostOs::FreeBsd => VmKind::Bhyve,
            HostOs::Other => VmKind::Unknown,
        }
    }
}

/// What is shown of an environment in a listing.
#[derive(Clone, Debug)]
pub struct EnvMeta {
    /// Unique among all environments.
    pub id: String,
    /// Fixed once set.
    pub start_timestamp: u64,
    /// May change; it bounds the life of the VMs.
    pub end_timestamp: u64,
    /// How many VMs the environment holds.
    pub vm_cnt: usize,
}

/// An environment in detail.
#[derive(Clone, Debug)]
pub struct EnvInfo {
    /// Unique among all environments.
    pub id: String,
    /// Fixed once set.
    pub start_timestamp: u64,
    /// May change; it bounds the life of the VMs.
    pub end_timestamp: u64,
    /// The VMs of the environment by their id.
    pub vm: HashMap<i32, VmInfo>,
}

/// What a client is told of one VM.
#[derive(Clone, Debug)]
pub struct VmInfo {
    /// The name of the operating system.
    pub os: String,
    /// The engine it runs on.
    pub kind: VmKind,
    /// CPU cores.
    pub cpu_num: u32,
    /// Memory in MB.
    pub mem_size: u32,
    /// Disk in MB.
    pub disk_size: u32,
    /// Its address, derived from its id, in `10.0.0.0/8`.
    pub ip: Ipv4,
    /// For each port inside the VM, the outside port that DNAT maps to it.
    pub port_map: HashMap<u16, u16>,
}

} // verus!
