//! The client side: what a request carries, the checks a request must pass
//! before it is sent, and how the VMs of an environment are reached.
use crate::def::{EnvInfo, VmInfo, VmKind};
use crate::text::{
    after_last, after_last_char, concat, concat_strs, decimal, decimal_string, push_item,
    push_owned, views,
};
use std::collections::HashMap;
use vstd::prelude::*;
use vstd::std_specs::hash::*;
use vstd::std_specs::iter::IteratorSpec;

verus! {

broadcast use group_hash_axioms;

/// The port the server listens on when none is configured.
pub const DEFAULT_SERVER_PORT: u16 = 9527;

/// The port of the SSH daemon inside a VM.
pub const SSH_PORT: u16 = 22;

/// The port of the pprexec daemon inside a VM.
pub const PPREXEC_PORT: u16 = 22000;

/// The user commands run as over SSH.
pub const SSH_USER: &'static str = "root";

/// Why a request is not sent.
#[derive(Clone, Copy, Debug, PartialEq, Eq, Structural)]
pub enum ReqError {
    /// No file to transfer was named.
    EmptyFilePath,
    /// No environment was named.
    EmptyEnvSet,
    /// There is no command to run.
    EmptyCmd,
}

/// The message a refused request is reported with.
pub open spec fn req_error_message(e: ReqError) -> Seq<char> {
    match e {
        ReqError::EmptyFilePath => "Empty file_path!"@,
        ReqError::EmptyEnvSet => "Empty env_set!"@,
        ReqError::EmptyCmd => "Empty cmd!"@,
    }
}

impl ReqError {
    /// The message the error is reported with.
    pub fn message(&self) -> (res: &'static str)
        ensures
            res@ == req_error_message(*self),
    {
        match self {
            ReqError::EmptyFilePath => "Empty file_path!",
            ReqError::EmptyEnvSet => "Empty env_set!",
            ReqError::EmptyCmd => "Empty cmd!",
        }
    }
}

/// The client settings a `pp config` call changes.
pub struct Config {
    /// The address of the server; empty leaves it as it is.
    pub server_addr: String,
    /// The port of the server; 0 stands for the default port.
    pub server_port: u16,
    /// The name of this client; empty leaves it as it is.
    pub client_id: String,
}

/// The course of a `pp config` call, in order: where a server is given,
/// the text `addr:port` that must parse as a socket address before the
/// server is registered and saved; then whether the client's name is
/// saved.
pub struct ConfigPlan {
    /// `addr:port` of the server to check, register and save; `None` where
    /// no server is given.
    pub register: Option<String>,
    /// Whether the client's name is saved.
    pub save_client_id: bool,
}

/// The port the client talks to: the one given, or the default for 0.
pub open spec fn effective_port(port: u16) -> u16 {
    if port == 0 {
        DEFAULT_SERVER_PORT
    } else {
        port
    }
}

impl Config {
    /// Whether the call registers a server.
    pub fn registers_server(&self) -> (res: bool)
        ensures
            res == (self.server_addr@.len() > 0),
    {
        self.server_addr.as_str().unicode_len() != 0
    }

    /// Whether the call renames the client.
    pub fn renames_client(&self) -> (res: bool)
        ensures
            res == (self.client_id@.len() > 0),
    {
        self.client_id.as_str().unicode_len() != 0
    }

    /// The port of the server: the one given, the default for 0.
    pub fn server_port(&self) -> (res: u16)
        ensures
            res == effective_port(self.server_port),
            res != 0,
    {
        if self.server_port == 0 {
            DEFAULT_SERVER_PORT
        } else {
            self.server_port
        }
    }

    /// Writes the port that is used back into the settings: 0 becomes the
    /// default port; everything else is left as it is.
    pub fn fill_default_port(&mut self)
        ensures
            final(self).server_port == effective_port(old(self).server_port),
            final(self).server_addr == old(self).server_addr,
            final(self).client_id == old(self).client_id,
    {
        if self.server_port == 0 {
            self.server_port = DEFAULT_SERVER_PORT;
        }
    }

    /// Decides the course of the call: where a server is given, its port 0
    /// becomes the default port and `addr:port` is to be checked, registered
    /// and saved; the client's name is saved where one is given. Nothing
    /// else changes.
    pub fn plan(&mut self) -> (res: ConfigPlan)
        ensures
            final(self).server_addr == old(self).server_addr,
            final(self).client_id == old(self).client_id,
            old(self).server_addr@.len() > 0 ==> {
                &&& final(self).server_port == effective_port(old(self).server_port)
                &&& res.register matches Some(t)
                &&& t@ == old(self).server_addr@ + ":"@ + decimal(effective_port(old(self).server_port) as nat)
            },
            old(self).server_addr@.len() == 0 ==> final(self).server_port == old(self).server_port
                && res.register is None,
            res.save_client_id == (old(self).client_id@.len() > 0),
    {
        let register = if self.registers_server() {
            self.fill_default_port();
            Some(self.server_socket_text())
        } else {
            None
        };
        ConfigPlan { register, save_client_id: self.renames_client() }
    }

    /// `addr:port` of the server, the text that is checked to be a socket
    /// address before the server is registered.
    pub fn server_socket_text(&self) -> (res: String)
        ensures
            res@ == self.server_addr@ + ":"@ + decimal(effective_port(self.server_port) as nat),
    {
        let mut s = String::new();
        s.append(self.server_addr.as_str());
        s.append(":");
        crate::text::push_decimal(&mut s, self.server_port() as u64);
        assert(s@ =~= self.server_addr@ + ":"@ + decimal(effective_port(self.server_port) as nat));
        s
    }
}

/// A request to create an environment, as the user gives it.
pub struct EnvAdd {
    /// The name of the environment.
    pub env_id: String,
    /// Prefixes of the OS names to start a VM of.
    pub os_prefix: Vec<String>,
    /// The kind of VM; not supported yet and ignored.
    pub vm_type: Option<String>,
    /// Ports inside the VMs to open.
    pub vm_port: Vec<u16>,
    /// Lifetime in seconds; 0 stands for the server's default.
    pub life_time: u64,
    /// CPU cores; 0 stands for the server's default.
    pub cpu_num: u32,
    /// Memory in MB; 0 stands for the server's default.
    pub mem_size: u32,
    /// Disk in MB; 0 stands for the server's default.
    pub disk_size: u32,
    /// Extra copies of each VM; 0 stands for the server's default.
    pub dup_each: u8,
}

/// A request to create an environment, as it is sent.
pub struct ReqAddEnv {
    /// The name of the environment.
    pub env_id: String,
    /// The kind of VM; `None` lets the server choose.
    pub vm_kind: Option<VmKind>,
    /// Prefixes of the OS names to start a VM of.
    pub os_prefix: Vec<String>,
    /// Lifetime in seconds; `None` for the server's default.
    pub life_time: Option<u64>,
    /// CPU cores; `None` for the server's default.
    pub cpu_num: Option<u32>,
    /// Memory in MB; `None` for the server's default.
    pub mem_size: Option<u32>,
    /// Disk in MB; `None` for the server's default.
    pub disk_size: Option<u32>,
    /// Ports inside the VMs to open.
    pub port_set: Vec<u16>,
    /// Extra copies of each VM; `None` for the server's default.
    pub dup_each: Option<u8>,
}

/// 0 stands for "the server's default", sent as `None`.
pub open spec fn nonzero_u64(v: u64) -> Option<u64> {
    if v == 0 { None } else { Some(v) }
}

/// 0 stands for "the server's default", sent as `None`.
pub open spec fn nonzero_u32(v: u32) -> Option<u32> {
    if v == 0 { None } else { Some(v) }
}

/// 0 stands for "the server's default", sent as `None`.
pub open spec fn nonzero_u8(v: u8) -> Option<u8> {
    if v == 0 { None } else { Some(v) }
}

/// The request that is sent for an `EnvAdd`: every 0 becomes `None`, the
/// server's default, and the kind of VM is left to the server.
pub open spec fn add_env_request(v: EnvAdd) -> ReqAddEnv {
    ReqAddEnv {
        env_id: v.env_id,
        vm_kind: None,
        os_prefix: v.os_prefix,
        life_time: nonzero_u64(v.life_time),
        cpu_num: nonzero_u32(v.cpu_num),
        mem_size: nonzero_u32(v.mem_size),
        disk_size: nonzero_u32(v.disk_size),
        port_set: v.vm_port,
        dup_each: nonzero_u8(v.dup_each),
    }
}

/// What `pp env add` asks for is what is sent: each option given (not 0)
/// is sent as itself and each option left at 0 is left to the server
/// (`None`); the name, the OS prefixes and the ports go as they are, and
/// the kind of VM is always left to the server.
pub proof fn law_add_env_options(v: EnvAdd)
    ensures
        add_env_request(v).env_id == v.env_id,
        add_env_request(v).os_prefix == v.os_prefix,
        add_env_request(v).port_set == v.vm_port,
        add_env_request(v).vm_kind is None,
        v.life_time != 0 ==> add_env_request(v).life_time == Some(v.life_time),
        v.life_time == 0 ==> add_env_request(v).life_time is None,
        v.cpu_num != 0 ==> add_env_request(v).cpu_num == Some(v.cpu_num),
        v.cpu_num == 0 ==> add_env_request(v).cpu_num is None,
        v.mem_size != 0 ==> add_env_request(v).mem_size == Some(v.mem_size),
        v.mem_size == 0 ==> add_env_request(v).mem_size is None,
        v.disk_size != 0 ==> add_env_request(v).disk_size == Some(v.disk_size),
        v.disk_size == 0 ==> add_env_request(v).disk_size is None,
        v.dup_each != 0 ==> add_env_request(v).dup_each == Some(v.dup_each),
        v.dup_each == 0 ==> add_env_request(v).dup_each is None,
{
}

impl ReqAddEnv {
    /// The request that is sent for `v`: every 0 becomes `None`, the
    /// server's default, and the kind of VM is left to the server.
    pub fn from_env_add(v: EnvAdd) -> (res: ReqAddEnv)
        ensures
            res == add_env_request(v),
            v.life_time != 0 ==> res.life_time == Some(v.life_time),
            v.life_time == 0 ==> res.life_time is None,
            v.cpu_num != 0 ==> res.cpu_num == Some(v.cpu_num),
            v.cpu_num == 0 ==> res.cpu_num is None,
            v.mem_size != 0 ==> res.mem_size == Some(v.mem_size),
            v.mem_size == 0 ==> res.mem_size is None,
            v.disk_size != 0 ==> res.disk_size == Some(v.disk_size),
            v.disk_size == 0 ==> res.disk_size is None,
            v.dup_each != 0 ==> res.dup_each == Some(v.dup_each),
            v.dup_each == 0 ==> res.dup_each is None,
            res == (ReqAddEnv {
                env_id: v.env_id,
                vm_kind: None,
                os_prefix: v.os_prefix,
                life_time: nonzero_u64(v.life_time),
                cpu_num: nonzero_u32(v.cpu_num),
                mem_size: nonzero_u32(v.mem_size),
                disk_size: nonzero_u32(v.disk_size),
                port_set: v.vm_port,
                dup_each: nonzero_u8(v.dup_each),
            }),
    {
        ReqAddEnv {
            env_id: v.env_id,
            vm_kind: None,
            os_prefix: v.os_prefix,
            life_time: if v.life_time == 0 { None } else { Some(v.life_time) },
            cpu_num: if v.cpu_num == 0 { None } else { Some(v.cpu_num) },
            mem_size: if v.mem_size == 0 { None } else { Some(v.mem_size) },
            disk_size: if v.disk_size == 0 { None } else { Some(v.disk_size) },
            port_set: v.vm_port,
            dup_each: if v.dup_each == 0 { None } else { Some(v.dup_each) },
        }
    }
}

impl From<EnvAdd> for ReqAddEnv {
    fn from(v: EnvAdd) -> (res: ReqAddEnv) {
        ReqAddEnv::from_env_add(v)
    }
}

impl vstd::std_specs::convert::FromSpecImpl<EnvAdd> for ReqAddEnv {
    open spec fn obeys_from_spec() -> bool {
        true
    }

    open spec fn from_spec(v: EnvAdd) -> ReqAddEnv {
        ReqAddEnv {
            env_id: v.env_id,
            vm_kind: None,
            os_prefix: v.os_prefix,
            life_time: nonzero_u64(v.life_time),
            cpu_num: nonzero_u32(v.cpu_num),
            mem_size: nonzero_u32(v.mem_size),
            disk_size: nonzero_u32(v.disk_size),
            port_set: v.vm_port,
            dup_each: nonzero_u8(v.dup_each),
        }
    }
}

/// How a VM is reached: SSH, or the faster pprexec daemon.
#[derive(Clone, Copy, Debug, PartialEq, Eq, Structural)]
pub enum Transport {
    /// `ssh`/`scp` to port 22 of the VM.
    Ssh,
    /// The pprexec daemon on port 22000 of the VM.
    Pprexec,
}

/// The transport a request asks for.
pub open spec fn transport_of(use_ssh: bool) -> Transport {
    if use_ssh { Transport::Ssh } else { Transport::Pprexec }
}

/// The transport a request asks for.
pub fn transport(use_ssh: bool) -> (res: Transport)
    ensures
        res == transport_of(use_ssh),
{
    if use_ssh { Transport::Ssh } else { Transport::Pprexec }
}

/// A request to fetch a file from the VMs of some environments.
pub struct EnvGet {
    /// Whether to use SSH rather than pprexec.
    pub use_ssh: bool,
    /// The path of the file in the VMs.
    pub file_path: String,
    /// The environments.
    pub env_set: Vec<String>,
    /// Seconds to wait for each VM.
    pub time_out: u64,
}

/// Whether a fetch is refused, and why: first for an empty file path,
/// then for an empty set of environments.
pub open spec fn env_get_check(file_path: Seq<char>, n_envs: nat) -> Result<(), ReqError> {
    if file_path.len() == 0 {
        Err(ReqError::EmptyFilePath)
    } else if n_envs == 0 {
        Err(ReqError::EmptyEnvSet)
    } else {
        Ok(())
    }
}

impl EnvGet {
    /// Checks the request before anything is sent: it needs a file path
    /// and at least one environment.
    pub fn check(&self) -> (res: Result<(), ReqError>)
        ensures
            res == env_get_check(self.file_path@, self.env_set@.len()),
    {
        if self.file_path.as_str().unicode_len() == 0 {
            return Err(ReqError::EmptyFilePath);
        }
        if self.env_set.len() == 0 {
            return Err(ReqError::EmptyEnvSet);
        }
        Ok(())
    }
}

/// Where the command of a run request comes from.
pub enum CmdSource {
    /// The content of the script file at this path.
    Script(String),
    /// The command given inline.
    Inline(String),
}

/// A request to run a command in the VMs of some environments.
pub struct EnvRun {
    /// Whether to use SSH rather than pprexec.
    pub use_ssh: bool,
    /// The command.
    pub cmd: String,
    /// A script file; where it is named, `cmd` is ignored.
    pub script: String,
    /// The environments.
    pub env_set: Vec<String>,
    /// Seconds to wait for each VM.
    pub time_out: u64,
}

impl EnvRun {
    /// Where the command comes from: the script where one is named, the
    /// inline command otherwise.
    pub fn cmd_source(&self) -> (res: CmdSource)
        ensures
            self.script@.len() > 0 ==> (res matches CmdSource::Script(p) && p@ == self.script@),
            self.script@.len() == 0 ==> (res matches CmdSource::Inline(c) && c@ == self.cmd@),
    {
        if self.script.as_str().unicode_len() != 0 {
            CmdSource::Script(self.script.clone())
        } else {
            CmdSource::Inline(self.cmd.clone())
        }
    }
}

/// Refuses an empty command; any other is run as it is.
pub fn check_cmd(cmd: String) -> (res: Result<String, ReqError>)
    ensures
        cmd@.len() == 0 ==> res == Err::<String, ReqError>(ReqError::EmptyCmd),
        cmd@.len() > 0 ==> (res matches Ok(c) && c@ == cmd@),
{
    if cmd.as_str().unicode_len() == 0 {
        Err(ReqError::EmptyCmd)
    } else {
        Ok(cmd)
    }
}

/// A request to change environments: extend their life, or drop the VMs
/// of some OS names from them.
pub struct EnvUpdate {
    /// The new lifetime in seconds, if it changes.
    pub life_time: Option<u64>,
    /// Prefixes of the OS names whose VMs leave, if any do.
    pub os_prefix: Option<Vec<String>>,
    /// The environments.
    pub env_set: Vec<String>,
    /// Whether any lifetime is allowed, beyond the usual cap.
    pub is_fucker: bool,
}

/// One request a `pp env update` call sends.
pub enum UpdateReq {
    /// `update_env_lifetime` for one environment.
    Life {
        /// The environment.
        env_id: String,
        /// The new lifetime in seconds.
        life_time: u64,
        /// Whether any lifetime is allowed.
        is_fucker: bool,
    },
    /// `update_env_kick_vm` for one environment.
    KickVm {
        /// The environment.
        env_id: String,
        /// Prefixes of the OS names whose VMs leave.
        os_prefix: Vec<String>,
    },
}

/// What a request is, in terms of text.
pub enum UpdateReqView {
    /// Extend the life of an environment.
    Life(Seq<char>, u64, bool),
    /// Drop VMs from an environment.
    KickVm(Seq<char>, Seq<Seq<char>>),
}

impl View for UpdateReq {
    type V = UpdateReqView;

    open spec fn view(&self) -> UpdateReqView {
        match self {
            UpdateReq::Life { env_id, life_time, is_fucker } => UpdateReqView::Life(
                env_id@,
                *life_time,
                *is_fucker,
            ),
            UpdateReq::KickVm { env_id, os_prefix } => UpdateReqView::KickVm(
                env_id@,
                views(os_prefix@),
            ),
        }
    }
}

/// The requests for the environments `envs`, in order: for each, first
/// the change of life where there is one, then the kick where there is one.
pub open spec fn update_requests(
    envs: Seq<Seq<char>>,
    life_time: Option<u64>,
    os_prefix: Option<Seq<Seq<char>>>,
    is_fucker: bool,
) -> Seq<UpdateReqView>
    decreases envs.len(),
{
    if envs.len() == 0 {
        Seq::empty()
    } else {
        let rest = update_requests(envs.drop_last(), life_time, os_prefix, is_fucker);
        let e = envs.last();
        let with_life = match life_time {
            Some(l) => rest.push(UpdateReqView::Life(e, l, is_fucker)),
            None => rest,
        };
        match os_prefix {
            Some(p) => with_life.push(UpdateReqView::KickVm(e, p)),
            None => with_life,
        }
    }
}

/// What `pp env update` sends: per environment, one lifetime request where
/// a lifetime is given and one kick where OS prefixes are given, so as many
/// requests as environments times the changes asked for; every lifetime
/// request is for one of the environments and carries the update's own
/// lifetime and `is_fucker` flag, every kick carries its own prefixes, and
/// each environment gets each change asked for.
pub proof fn law_update_requests(
    envs: Seq<Seq<char>>,
    life_time: Option<u64>,
    os_prefix: Option<Seq<Seq<char>>>,
    is_fucker: bool,
)
    ensures
        update_requests(envs, life_time, os_prefix, is_fucker).len() == envs.len() * (
        (if life_time is Some { 1nat } else { 0nat }) + (if os_prefix is Some { 1nat } else { 0nat })),
        forall|i: int| 0 <= i < update_requests(envs, life_time, os_prefix, is_fucker).len() ==> (
            #[trigger] update_requests(envs, life_time, os_prefix, is_fucker)[i] matches UpdateReqView::Life(e, l, f)
            ==> envs.contains(e) && life_time == Some(l) && f == is_fucker),
        forall|i: int| 0 <= i < update_requests(envs, life_time, os_prefix, is_fucker).len() ==> (
            #[trigger] update_requests(envs, life_time, os_prefix, is_fucker)[i] matches UpdateReqView::KickVm(e, p)
            ==> envs.contains(e) && os_prefix == Some(p)),
        forall|j: int| 0 <= j < envs.len() ==> (life_time matches Some(l) ==>
            update_requests(envs, life_time, os_prefix, is_fucker).contains(UpdateReqView::Life(#[trigger] envs[j], l, is_fucker))),
        forall|j: int| 0 <= j < envs.len() ==> (os_prefix matches Some(p) ==>
            update_requests(envs, life_time, os_prefix, is_fucker).contains(UpdateReqView::KickVm(#[trigger] envs[j], p))),
    decreases envs.len(),
{
    if envs.len() > 0 {
        let rest_envs = envs.drop_last();
        law_update_requests(rest_envs, life_time, os_prefix, is_fucker);
        let rest = update_requests(rest_envs, life_time, os_prefix, is_fucker);
        let rs = update_requests(envs, life_time, os_prefix, is_fucker);
        let k = (if life_time is Some { 1nat } else { 0nat }) + (if os_prefix is Some { 1nat } else { 0nat });
        assert(rs.len() == rest.len() + k);
        assert(envs.len() * k == rest_envs.len() * k + k) by (nonlinear_arith)
            requires envs.len() == rest_envs.len() + 1;
        assert(forall|i: int| 0 <= i < rest.len() ==> rs[i] == rest[i]);
        assert forall|i: int| 0 <= i < rs.len() implies (#[trigger] rs[i] matches UpdateReqView::Life(e, l, f)
            ==> envs.contains(e) && life_time == Some(l) && f == is_fucker) by {
            if i < rest.len() {
                assert(rs[i] == rest[i]);
                match rest[i] {
                    UpdateReqView::Life(e, l, f) => {
                        let j = choose|j: int| 0 <= j < rest_envs.len() && rest_envs[j] == e;
                        assert(envs[j] == e);
                    },
                    _ => {},
                }
            } else {
                assert(envs[envs.len() - 1] == envs.last());
            }
        }
        assert forall|i: int| 0 <= i < rs.len() implies (#[trigger] rs[i] matches UpdateReqView::KickVm(e, p)
            ==> envs.contains(e) && os_prefix == Some(p)) by {
            if i < rest.len() {
                assert(rs[i] == rest[i]);
                match rest[i] {
                    UpdateReqView::KickVm(e, p) => {
                        let j = choose|j: int| 0 <= j < rest_envs.len() && rest_envs[j] == e;
                        assert(envs[j] == e);
                    },
                    _ => {},
                }
            } else {
                assert(envs[envs.len() - 1] == envs.last());
            }
        }
        assert forall|j: int| 0 <= j < envs.len() implies (life_time matches Some(l) ==>
            rs.contains(UpdateReqView::Life(#[trigger] envs[j], l, is_fucker))) by {
            if let Some(l) = life_time {
                if j < rest_envs.len() {
                    assert(rest_envs[j] == envs[j]);
                    let i = choose|i: int| 0 <= i < rest.len() && rest[i] == UpdateReqView::Life(rest_envs[j], l, is_fucker);
                    assert(rs[i] == rest[i]);
                } else {
                    assert(rs[rest.len() as int] == UpdateReqView::Life(envs[j], l, is_fucker));
                }
            }
        }
        assert forall|j: int| 0 <= j < envs.len() implies (os_prefix matches Some(p) ==>
            rs.contains(UpdateReqView::KickVm(#[trigger] envs[j], p))) by {
            if let Some(p) = os_prefix {
                if j < rest_envs.len() {
                    assert(rest_envs[j] == envs[j]);
                    let i = choose|i: int| 0 <= i < rest.len() && rest[i] == UpdateReqView::KickVm(rest_envs[j], p);
                    assert(rs[i] == rest[i]);
                } else {
                    assert(rs[rs.len() - 1] == UpdateReqView::KickVm(envs[j], p));
                }
            }
        }
    }
}

/// The OS prefixes of an update, as text.
pub open spec fn os_prefix_view(p: Option<Vec<String>>) -> Option<Seq<Seq<char>>> {
    match p {
        Some(v) => Some(views(v@)),
        None => None,
    }
}

fn clone_strings(v: &Vec<String>) -> (res: Vec<String>)
    ensures
        views(res@) == views(v@),
{
    let mut res: Vec<String> = Vec::new();
    let mut i: usize = 0;
    while i < v.len()
        invariant
            i <= v.len(),
            views(res@) == views(v@.subrange(0, i as int)),
        decreases v.len() - i,
    {
        push_item(&mut res, v[i].as_str());
        assert(views(v@.subrange(0, i + 1)) =~= views(v@.subrange(0, i as int)).push(v@[i as int]@));
        i = i + 1;
    }
    assert(v@.subrange(0, v.len() as int) =~= v@);
    res
}

impl EnvUpdate {
    /// The requests the update sends, one environment after the other.
    pub fn requests(&self) -> (res: Vec<UpdateReq>)
        ensures
            res@.map_values(|r: UpdateReq| r@) == update_requests(
                views(self.env_set@),
                self.life_time,
                os_prefix_view(self.os_prefix),
                self.is_fucker,
            ),
    {
        let mut res: Vec<UpdateReq> = Vec::new();
        let mut i: usize = 0;
        while i < self.env_set.len()
            invariant
                i <= self.env_set.len(),
                res@.map_values(|r: UpdateReq| r@) == update_requests(
                    views(self.env_set@.subrange(0, i as int)),
                    self.life_time,
                    os_prefix_view(self.os_prefix),
                    self.is_fucker,
                ),
            decreases self.env_set.len() - i,
        {
            let ghost before = res@;
            let ghost envs = views(self.env_set@.subrange(0, i + 1));
            assert(envs.drop_last() =~= views(self.env_set@.subrange(0, i as int)));
            assert(envs.last() == self.env_set@[i as int]@);
            match self.life_time {
                Some(l) => {
                    res.push(UpdateReq::Life {
                        env_id: self.env_set[i].clone(),
                        life_time: l,
                        is_fucker: self.is_fucker,
                    });
                },
                None => {},
            }
            let ghost mid = res@;
            match &self.os_prefix {
                Some(p) => {
                    res.push(UpdateReq::KickVm {
                        env_id: self.env_set[i].clone(),
                        os_prefix: clone_strings(p),
                    });
                },
                None => {},
            }
            assert(res@.map_values(|r: UpdateReq| r@) =~= update_requests(
                envs,
                self.life_time,
                os_prefix_view(self.os_prefix),
                self.is_fucker,
            )) by {
                assert(mid.map_values(|r: UpdateReq| r@) =~= match self.life_time {
                    Some(l) => before.map_values(|r: UpdateReq| r@).push(
                        UpdateReqView::Life(envs.last(), l, self.is_fucker),
                    ),
                    None => before.map_values(|r: UpdateReq| r@),
                });
            }
            i = i + 1;
        }
        assert(self.env_set@.subrange(0, self.env_set.len() as int) =~= self.env_set@);
        res
    }
}

/// Where and how a VM is reached, and what a command run there printed.
#[derive(Debug, PartialOrd, Ord)]
pub struct VmConnInfo {
    /// The OS name of the VM.
    pub os: String,
    /// The address of the VM.
    pub addr: String,
    /// The public port that leads to its SSH daemon.
    pub ssh_port: u16,
    /// The public port that leads to its pprexec daemon.
    pub pprexec_port: u16,
    /// What the command printed on stdout.
    pub stdout: String,
    /// What the command printed on stderr, or why it could not run.
    pub stderr: String,
}

/// A `VmConnInfo` in terms of text.
pub struct VmConnInfoView {
    /// The OS name.
    pub os: Seq<char>,
    /// The address.
    pub addr: Seq<char>,
    /// The SSH port.
    pub ssh_port: u16,
    /// The pprexec port.
    pub pprexec_port: u16,
    /// The output.
    pub stdout: Seq<char>,
    /// The error output.
    pub stderr: Seq<char>,
}

impl View for VmConnInfo {
    type V = VmConnInfoView;

    open spec fn view(&self) -> VmConnInfoView {
        VmConnInfoView {
            os: self.os@,
            addr: self.addr@,
            ssh_port: self.ssh_port,
            pprexec_port: self.pprexec_port,
            stdout: self.stdout@,
            stderr: self.stderr@,
        }
    }
}

/// The text of the report on one VM: its address, SSH port and OS in
/// magenta, then its output and its error output under bold headers.
pub open spec fn report_text(c: VmConnInfoView) -> Seq<char> {
    concat(
        seq![
            "\x1b[35;01m[ "@,
            c.addr,
            ":"@,
            decimal(c.ssh_port as nat),
            " ] "@,
            c.os,
            "\x1b[00m\n\x1b[01m## StdOut ##\x1b[00m\n"@,
            c.stdout,
            "\n\x1b[01m## StdErr ##\x1b[00m\n"@,
            c.stderr,
        ],
    )
}

/// The arguments of `ssh` that run `cmd` in the VM `c` as root.
pub open spec fn ssh_args_of(c: VmConnInfoView, cmd: Seq<char>) -> Seq<Seq<char>> {
    seq!["-p"@, decimal(c.ssh_port as nat), SSH_USER@ + "@"@ + c.addr, cmd]
}

impl VmConnInfo {
    /// A VM reached at `addr`, with no output yet.
    pub fn new(os: String, addr: String, ssh_port: u16, pprexec_port: u16) -> (res: VmConnInfo)
        ensures
            res@ == (VmConnInfoView {
                os: os@,
                addr: addr@,
                ssh_port,
                pprexec_port,
                stdout: Seq::empty(),
                stderr: Seq::empty(),
            }),
    {
        VmConnInfo { os, addr, ssh_port, pprexec_port, stdout: String::new(), stderr: String::new() }
    }

    /// The report shown to the user for this VM.
    pub fn report(&self) -> (res: String)
        ensures
            res@ == report_text(self@),
    {
        let port = decimal_string(self.ssh_port as u64);
        let v = vec![
            "\x1b[35;01m[ ",
            self.addr.as_str(),
            ":",
            port.as_str(),
            " ] ",
            self.os.as_str(),
            "\x1b[00m\n\x1b[01m## StdOut ##\x1b[00m\n",
            self.stdout.as_str(),
            "\n\x1b[01m## StdErr ##\x1b[00m\n",
            self.stderr.as_str(),
        ];
        let res = concat_strs(&v);
        assert(v@.map_values(|p: &str| p@) =~= seq![
            "\x1b[35;01m[ "@,
            self.addr@,
            ":"@,
            decimal(self.ssh_port as nat),
            " ] "@,
            self.os@,
            "\x1b[00m\n\x1b[01m## StdOut ##\x1b[00m\n"@,
            self.stdout@,
            "\n\x1b[01m## StdErr ##\x1b[00m\n"@,
            self.stderr@,
        ]);
        res
    }

    /// `addr:port` of the pprexec daemon of the VM.
    pub fn pprexec_addr(&self) -> (res: String)
        ensures
            res@ == self.addr@ + ":"@ + decimal(self.pprexec_port as nat),
    {
        let mut s = String::new();
        s.append(self.addr.as_str());
        s.append(":");
        crate::text::push_decimal(&mut s, self.pprexec_port as u64);
        assert(s@ =~= self.addr@ + ":"@ + decimal(self.pprexec_port as nat));
        s
    }

    /// The arguments of `ssh` that run `cmd` in the VM as root.
    pub fn ssh_args(&self, cmd: &str) -> (res: Vec<String>)
        ensures
            views(res@) == ssh_args_of(self@, cmd@),
    {
        let mut v: Vec<String> = Vec::new();
        push_item(&mut v, "-p");
        push_owned(&mut v, decimal_string(self.ssh_port as u64));
        let mut login = String::new();
        login.append(SSH_USER);
        login.append("@");
        login.append(self.addr.as_str());
        push_owned(&mut v, login);
        push_item(&mut v, cmd);
        assert(views(v@) =~= ssh_args_of(self@, cmd@));
        v
    }
}

/// Where a pushed file lands in a VM: `/tmp/` and the file name.
pub open spec fn push_target_text(file_path: Seq<char>) -> Seq<char> {
    "/tmp/"@ + after_last(file_path, '/')
}

/// Where a pushed file lands in a VM: under `/tmp/`, by the last
/// component of its local path.
pub fn push_target(file_path: &str) -> (res: String)
    ensures
        res@ == push_target_text(file_path@),
        !res@.subrange(5, res@.len() as int).contains('/'),
{
    let name = after_last_char(file_path, '/');
    let mut s = String::new();
    s.append("/tmp/");
    s.append(name.as_str());
    proof {
        reveal_strlit("/tmp/");
        assert(s@.subrange(5, s@.len() as int) =~= name@);
    }
    s
}

/// Whether `ks` lists each key of `dom` once, in some order.
pub open spec fn lists_keys(ks: Seq<i32>, dom: Set<i32>) -> bool {
    &&& ks.len() == dom.len()
    &&& forall|i: int| 0 <= i < ks.len() ==> #[trigger] dom.contains(ks[i])
    &&& forall|i: int, j: int| 0 <= i < j < ks.len() ==> ks[i] != ks[j]
    &&& forall|k: i32| #[trigger] dom.contains(k) ==> exists|i: int| 0 <= i < ks.len() && ks[i] == k
}

/// The ids of the VMs of `vms`, each once, in the order the map hands
/// them out.
pub fn vm_ids(vms: &HashMap<i32, VmInfo>) -> (ks: Vec<i32>)
    ensures
        lists_keys(ks@, vms@.dom()),
{
    let mut ks: Vec<i32> = Vec::new();
    for (id, vm) in it: vms.iter()
        invariant
            ks@ == it.seq().subrange(0, it.index() as int).map_values(|p: (&i32, &VmInfo)| *p.0),
            it.seq() == spec_hash_map_iter(vms).remaining(),
            it.seq().no_duplicates(),
            it.seq().len() == vms@.len(),
            forall|i: int| 0 <= i < it.seq().len() ==> #[trigger] vms@.contains_key(*it.seq()[i].0) && vms@[*it.seq()[i].0] == *it.seq()[i].1,
            forall|i: int| 0 <= i < ks@.len() ==> #[trigger] vms@.dom().contains(ks@[i]),
            forall|i: int, j: int| 0 <= i < j < ks@.len() ==> ks@[i] != ks@[j],
            forall|k: i32| #[trigger] vms@.contains_key(k) ==>
                (exists|i: int| 0 <= i < ks@.len() && ks@[i] == k)
                || (exists|i: int| it.index() <= i < it.seq().len() && *it.seq()[i].0 == k),
    {
        proof {
            let s = it.seq();
            let x = it.index() as int;
            assert(*s[x].0 == *id);
            assert forall|i: int| 0 <= i < x implies *s[i].0 != *id by {
                if *s[i].0 == *id {
                    assert(vms@.contains_key(*s[i].0));
                    assert(*s[i].1 == *s[x].1);
                    assert(s[i] == s[x]);
                }
            }
        }
        let ghost before = ks@;
        ks.push(*id);
        proof {
            let s = it.seq();
            let x = it.index() as int;
            assert forall|k: i32| #[trigger] vms@.contains_key(k) implies
                (exists|i: int| 0 <= i < ks@.len() && ks@[i] == k)
                || (exists|i: int| x + 1 <= i < s.len() && *s[i].0 == k) by {
                if exists|i: int| 0 <= i < before.len() && before[i] == k {
                    let i = choose|i: int| 0 <= i < before.len() && before[i] == k;
                    assert(ks@[i] == before[i]);
                } else {
                    let i = choose|i: int| x <= i < s.len() && *s[i].0 == k;
                    if i == x {
                        assert(ks@[x] == k);
                    }
                }
            }
        }
    }
    assert(vms@.dom().len() == vms@.len());
    ks
}

/// How a VM is reached: where its ports for SSH and for pprexec are both
/// mapped to public ports; `None` for a VM lacking either.
pub open spec fn conn_of(vm: VmInfo) -> Option<VmConnInfoView> {
    if vm.port_map@.contains_key(SSH_PORT) && vm.port_map@.contains_key(PPREXEC_PORT) {
        Some(
            VmConnInfoView {
                os: vm.os@,
                addr: vm.ip@,
                ssh_port: vm.port_map@[SSH_PORT],
                pprexec_port: vm.port_map@[PPREXEC_PORT],
                stdout: Seq::empty(),
                stderr: Seq::empty(),
            },
        )
    } else {
        None
    }
}

/// How the VMs of one environment are reached, taken in the order `order`
/// of their ids; VMs lacking a port are left out.
pub open spec fn env_conns(vms: Map<i32, VmInfo>, order: Seq<i32>) -> Seq<VmConnInfoView>
    decreases order.len(),
{
    if order.len() == 0 {
        Seq::empty()
    } else {
        let rest = env_conns(vms, order.drop_last());
        match conn_of(vms[order.last()]) {
            Some(c) => rest.push(c),
            None => rest,
        }
    }
}

/// How the VMs of all `envs` are reached, one environment after the other,
/// the VMs of the i-th taken in the order `orders[i]`.
pub open spec fn all_conns(envs: Seq<EnvInfo>, orders: Seq<Seq<i32>>) -> Seq<VmConnInfoView>
    decreases envs.len(),
{
    if envs.len() == 0 || orders.len() == 0 {
        Seq::empty()
    } else {
        all_conns(envs.drop_last(), orders.drop_last()) + env_conns(envs.last().vm@, orders.last())
    }
}

/// The texts of a list of `VmConnInfo`.
pub open spec fn conn_views(v: Seq<VmConnInfo>) -> Seq<VmConnInfoView> {
    v.map_values(|c: VmConnInfo| c@)
}

/// How every VM of `envs` that has both its SSH and its pprexec port
/// mapped is reached, environment after environment, the VMs of each in
/// the order its map hands them out, each once; the other VMs are left out.
pub fn get_conn_info(envs: &Vec<EnvInfo>) -> (res: Vec<VmConnInfo>)
    ensures
        exists|orders: Seq<Seq<i32>>|
            #![trigger all_conns(envs@, orders)]
            orders.len() == envs@.len()
            && (forall|i: int| 0 <= i < envs@.len() ==> lists_keys(#[trigger] orders[i], envs@[i].vm@.dom()))
            && conn_views(res@) == all_conns(envs@, orders),
{
    let mut res: Vec<VmConnInfo> = Vec::new();
    let ghost mut orders: Seq<Seq<i32>> = Seq::empty();
    let mut i: usize = 0;
    while i < envs.len()
        invariant
            i <= envs.len(),
            orders.len() == i,
            forall|e: int| 0 <= e < i ==> lists_keys(#[trigger] orders[e], envs@[e].vm@.dom()),
            conn_views(res@) == all_conns(envs@.subrange(0, i as int), orders),
        decreases envs.len() - i,
    {
        let env = &envs[i];
        let ids = vm_ids(&env.vm);
        let ghost start = conn_views(res@);
        let mut j: usize = 0;
        while j < ids.len()
            invariant
                j <= ids.len(),
                env == envs@[i as int],
                conn_views(res@) == start + env_conns(env.vm@, ids@.subrange(0, j as int)),
                forall|k: int| 0 <= k < ids@.len() ==> #[trigger] env.vm@.dom().contains(ids@[k]),
            decreases ids.len() - j,
        {
            let id = ids[j];
            proof {
                assert(ids@.subrange(0, j + 1).drop_last() =~= ids@.subrange(0, j as int));
                assert(env.vm@.dom().contains(ids@[j as int]));
            }
            let ghost before = conn_views(res@);
            match env.vm.get(&id) {
                Some(vm) => {
                    match (vm.port_map.get(&SSH_PORT), vm.port_map.get(&PPREXEC_PORT)) {
                        (Some(ssh), Some(pp)) => {
                            let c = VmConnInfo::new(vm.os.clone(), vm.ip.as_str().to_owned(), *ssh, *pp);
                            res.push(c);
                            assert(conn_views(res@) =~= before.push(c@));
                        },
                        _ => {},
                    }
                },
                None => {},
            }
            proof {
                assert(conn_views(res@) =~= start + env_conns(env.vm@, ids@.subrange(0, j + 1)));
            }
            j = j + 1;
        }
        proof {
            assert(ids@.subrange(0, ids@.len() as int) =~= ids@);
            let e = envs@.subrange(0, i + 1);
            let o = orders.push(ids@);
            assert(e.drop_last() =~= envs@.subrange(0, i as int));
            assert(o.drop_last() =~= orders);
            assert(all_conns(e, o) == all_conns(envs@.subrange(0, i as int), orders) + env_conns(
                envs@[i as int].vm@,
                ids@,
            ));
            orders = o;
        }
        i = i + 1;
    }
    assert(envs@.subrange(0, envs.len() as int) =~= envs@);
    res
}

/// Which VMs of an environment are reached, whatever the order they are
/// taken in: every VM of `order` that has both its SSH and its pprexec port
/// mapped is in the list, and everything in the list is such a VM.
pub proof fn law_reached_vms(vms: Map<i32, VmInfo>, order: Seq<i32>)
    ensures
        forall|i: int|
            0 <= i < order.len() && (#[trigger] conn_of(vms[order[i]])) is Some ==> env_conns(
                vms,
                order,
            ).contains(conn_of(vms[order[i]])->0),
        forall|c: VmConnInfoView|
            #[trigger] env_conns(vms, order).contains(c) ==> exists|i: int|
                0 <= i < order.len() && conn_of(vms[order[i]]) == Some(c),
    decreases order.len(),
{
    if order.len() > 0 {
        let rest = order.drop_last();
        law_reached_vms(vms, rest);
        let prev = env_conns(vms, rest);
        let cur = env_conns(vms, order);
        assert forall|i: int|
            0 <= i < order.len() && (#[trigger] conn_of(vms[order[i]])) is Some implies cur.contains(
                conn_of(vms[order[i]])->0,
            ) by {
            if i < rest.len() {
                assert(rest[i] == order[i]);
                let j = choose|j: int| 0 <= j < prev.len() && prev[j] == conn_of(vms[rest[i]])->0;
                assert(cur[j] == prev[j]);
            } else {
                assert(cur[cur.len() - 1] == conn_of(vms[order[i]])->0);
            }
        }
        assert forall|c: VmConnInfoView| #[trigger] cur.contains(c) implies exists|i: int|
            0 <= i < order.len() && conn_of(vms[order[i]]) == Some(c) by {
            let j = choose|j: int| 0 <= j < cur.len() && cur[j] == c;
            if j < prev.len() {
                assert(prev[j] == cur[j]);
                assert(prev.contains(c));
                let i = choose|i: int| 0 <= i < rest.len() && conn_of(vms[rest[i]]) == Some(c);
                assert(order[i] == rest[i]);
            } else {
                assert(conn_of(vms[order[order.len() - 1]]) == Some(c));
            }
        }
    }
}

impl Default for Config {
    fn default() -> (res: Config)
        ensures
            res.server_addr@ == Seq::<char>::empty(),
            res.server_port == 0,
            res.client_id@ == Seq::<char>::empty(),
    {
        Config { server_addr: String::new(), server_port: 0, client_id: String::new() }
    }
}

impl Default for EnvAdd {
    fn default() -> (res: EnvAdd)
        ensures
            res.env_id@ == Seq::<char>::empty(),
            res.os_prefix@.len() == 0,
            res.vm_type is None,
            res.vm_port@.len() == 0,
            res.life_time == 0,
            res.cpu_num == 0,
            res.mem_size == 0,
            res.disk_size == 0,
            res.dup_each == 0,
    {
        EnvAdd {
            env_id: String::new(),
            os_prefix: Vec::new(),
            vm_type: None,
            vm_port: Vec::new(),
            life_time: 0,
            cpu_num: 0,
            mem_size: 0,
            disk_size: 0,
            dup_each: 0,
        }
    }
}

impl Default for EnvGet {
    fn default() -> (res: EnvGet)
        ensures
            !res.use_ssh,
            res.file_path@ == Seq::<char>::empty(),
            res.env_set@.len() == 0,
            res.time_out == 0,
    {
        EnvGet { use_ssh: false, file_path: String::new(), env_set: Vec::new(), time_out: 0 }
    }
}

impl Default for EnvRun {
    fn default() -> (res: EnvRun)
        ensures
            !res.use_ssh,
            res.cmd@ == Seq::<char>::empty(),
            res.script@ == Seq::<char>::empty(),
            res.env_set@.len() == 0,
            res.time_out == 0,
    {
        EnvRun { use_ssh: false, cmd: String::new(), script: String::new(), env_set: Vec::new(), time_out: 0 }
    }
}

impl Default for EnvUpdate {
    fn default() -> (res: EnvUpdate)
        ensures
            res.life_time is None,
            res.os_prefix is None,
            res.env_set@.len() == 0,
            !res.is_fucker,
    {
        EnvUpdate { life_time: None, os_prefix: None, env_set: Vec::new(), is_fucker: false }
    }
}

impl Default for VmConnInfo {
    fn default() -> (res: VmConnInfo)
        ensures
            res@ == (VmConnInfoView {
                os: Seq::empty(),
                addr: Seq::empty(),
                ssh_port: 0,
                pprexec_port: 0,
                stdout: Seq::empty(),
                stderr: Seq::empty(),
            }),
    {
        VmConnInfo::new(String::new(), String::new(), 0, 0)
    }
}

impl PartialEq for VmConnInfo {
    fn eq(&self, other: &Self) -> (res: bool) {
        self.os == other.os && self.addr == other.addr && self.ssh_port == other.ssh_port
            && self.pprexec_port == other.pprexec_port && self.stdout == other.stdout
            && self.stderr == other.stderr
    }
}

impl Eq for VmConnInfo {

}

impl vstd::std_specs::cmp::PartialEqSpecImpl for VmConnInfo {
    open spec fn obeys_eq_spec() -> bool {
        true
    }

    open spec fn eq_spec(&self, other: &Self) -> bool {
        self@ == other@
    }
}

} // verus!
