use pp::client::{
    check_cmd, get_conn_info, push_target, transport, vm_ids, CmdSource, Config, EnvAdd, EnvGet,
    EnvRun, EnvUpdate, ReqAddEnv, ReqError, Transport, UpdateReq, VmConnInfo, DEFAULT_SERVER_PORT,
    PPREXEC_PORT, SSH_PORT,
};
use pp::def::{EnvInfo, Ipv4, VmInfo, VmKind};
use std::collections::HashMap;

fn vm_info(os: &str, ip: &str, ports: &[(u16, u16)]) -> VmInfo {
    VmInfo {
        os: os.to_string(),
        kind: VmKind::Qemu,
        cpu_num: 2,
        mem_size: 2048,
        disk_size: 16384,
        ip: Ipv4::new(ip.to_string()),
        port_map: ports.iter().cloned().collect(),
    }
}

fn env(id: &str, vms: Vec<(i32, VmInfo)>) -> EnvInfo {
    EnvInfo { id: id.to_string(), start_timestamp: 1, end_timestamp: 3601, vm: vms.into_iter().collect() }
}

#[test]
fn config_port_and_address() {
    let c = Config { server_addr: "192.168.3.22".to_string(), server_port: 0, client_id: String::new() };
    assert_eq!(c.server_port(), DEFAULT_SERVER_PORT);
    assert_eq!(DEFAULT_SERVER_PORT, 9527);
    assert_eq!(c.server_socket_text(), "192.168.3.22:9527");
    assert!(c.registers_server());
    assert!(!c.renames_client());
    let d = Config { server_addr: String::new(), server_port: 8000, client_id: "me".to_string() };
    assert_eq!(d.server_port(), 8000);
    assert!(!d.registers_server());
    assert!(d.renames_client());
}

#[test]
fn zero_means_server_default() {
    let add = EnvAdd {
        env_id: "ENV".to_string(),
        os_prefix: vec!["centos7".to_string()],
        vm_type: Some("Qemu".to_string()),
        vm_port: vec![80, 443],
        life_time: 0,
        cpu_num: 8,
        mem_size: 0,
        disk_size: 1024,
        dup_each: 0,
    };
    let r = ReqAddEnv::from(add);
    assert_eq!(r.env_id, "ENV");
    assert!(r.vm_kind.is_none());
    assert_eq!(r.os_prefix, vec!["centos7".to_string()]);
    assert_eq!(r.life_time, None);
    assert_eq!(r.cpu_num, Some(8));
    assert_eq!(r.mem_size, None);
    assert_eq!(r.disk_size, Some(1024));
    assert_eq!(r.port_set, vec![80, 443]);
    assert_eq!(r.dup_each, None);
}

#[test]
fn get_needs_a_path_and_an_env() {
    let g = EnvGet { use_ssh: false, file_path: String::new(), env_set: vec![], time_out: 3 };
    assert_eq!(g.check(), Err(ReqError::EmptyFilePath));
    assert_eq!(ReqError::EmptyFilePath.message(), "Empty file_path!");
    let g = EnvGet { use_ssh: false, file_path: "/etc/hosts".to_string(), env_set: vec![], time_out: 3 };
    assert_eq!(g.check(), Err(ReqError::EmptyEnvSet));
    assert_eq!(ReqError::EmptyEnvSet.message(), "Empty env_set!");
    let g = EnvGet { use_ssh: true, file_path: "/etc/hosts".to_string(), env_set: vec!["E".to_string()], time_out: 3 };
    assert_eq!(g.check(), Ok(()));
    assert_eq!(transport(g.use_ssh), Transport::Ssh);
    assert_eq!(transport(false), Transport::Pprexec);
}

#[test]
fn run_takes_the_script_first() {
    let r = EnvRun { use_ssh: false, cmd: "uname".to_string(), script: "/tmp/x.sh".to_string(), env_set: vec![], time_out: 3 };
    assert!(matches!(r.cmd_source(), CmdSource::Script(p) if p == "/tmp/x.sh"));
    let r = EnvRun { script: String::new(), ..r };
    assert!(matches!(r.cmd_source(), CmdSource::Inline(c) if c == "uname"));
    assert_eq!(check_cmd(String::new()), Err(ReqError::EmptyCmd));
    assert_eq!(ReqError::EmptyCmd.message(), "Empty cmd!");
    assert_eq!(check_cmd("ls".to_string()), Ok("ls".to_string()));
}

#[test]
fn update_requests_per_env() {
    let u = EnvUpdate {
        life_time: Some(7200),
        os_prefix: Some(vec!["centos7.0".to_string()]),
        env_set: vec!["A".to_string(), "B".to_string()],
        is_fucker: false,
    };
    let reqs = u.requests();
    assert_eq!(reqs.len(), 4);
    assert!(matches!(&reqs[0], UpdateReq::Life { env_id, life_time: 7200, is_fucker: false } if env_id == "A"));
    assert!(matches!(&reqs[1], UpdateReq::KickVm { env_id, os_prefix } if env_id == "A" && os_prefix == &vec!["centos7.0".to_string()]));
    assert!(matches!(&reqs[2], UpdateReq::Life { env_id, .. } if env_id == "B"));
    assert!(matches!(&reqs[3], UpdateReq::KickVm { env_id, .. } if env_id == "B"));
    let v = EnvUpdate { life_time: None, os_prefix: None, env_set: vec!["A".to_string()], is_fucker: true };
    assert!(v.requests().is_empty());
}

#[test]
fn conn_info_report_and_addresses() {
    let c = VmConnInfo::new("centos7.6".to_string(), "10.0.0.3".to_string(), 20022, 22000);
    assert_eq!(c.stdout, "");
    assert_eq!(c.stderr, "");
    assert_eq!(c.pprexec_addr(), "10.0.0.3:22000");
    assert_eq!(c.ssh_args("uptime"), vec!["-p", "20022", "root@10.0.0.3", "uptime"]);
    let r = VmConnInfo { stdout: "out".to_string(), stderr: "err".to_string(), ..c };
    assert_eq!(
        r.report(),
        format!(
            "\x1b[35;01m[ {}:{} ] {}\x1b[00m\n\x1b[01m## StdOut ##\x1b[00m\n{}\n\x1b[01m## StdErr ##\x1b[00m\n{}",
            r.addr, r.ssh_port, r.os, r.stdout, r.stderr
        )
    );
}

#[test]
fn pushed_files_land_in_tmp() {
    assert_eq!(push_target("/home/me/pkg.tar.gz"), "/tmp/pkg.tar.gz");
    assert_eq!(push_target("pkg.rpm"), "/tmp/pkg.rpm");
    assert_eq!(push_target("dir/"), "/tmp/");
}

#[test]
fn only_vms_with_both_ports_are_reached() {
    let e1 = env(
        "E1",
        vec![
            (1, vm_info("centos7.6", "10.0.0.1", &[(SSH_PORT, 20022), (PPREXEC_PORT, 20023)])),
            (2, vm_info("ubuntu18", "10.0.0.2", &[(SSH_PORT, 30022)])),
        ],
    );
    let e2 = env("E2", vec![(3, vm_info("debian10", "10.0.0.3", &[(PPREXEC_PORT, 40023), (SSH_PORT, 40022), (80, 40080)]))]);
    let got = get_conn_info(&vec![e1, e2]);
    assert_eq!(got.len(), 2);
    assert_eq!((got[0].os.as_str(), got[0].addr.as_str(), got[0].ssh_port, got[0].pprexec_port), ("centos7.6", "10.0.0.1", 20022, 20023));
    assert_eq!((got[1].os.as_str(), got[1].addr.as_str(), got[1].ssh_port, got[1].pprexec_port), ("debian10", "10.0.0.3", 40022, 40023));
    assert!(get_conn_info(&vec![]).is_empty());
}

#[test]
fn vm_ids_lists_each_vm_once() {
    let mut m = HashMap::new();
    m.insert(5, vm_info("a", "10.0.0.5", &[]));
    m.insert(9, vm_info("b", "10.0.0.9", &[]));
    let mut ids = vm_ids(&m);
    ids.sort();
    assert_eq!(ids, vec![5, 9]);
}

#[test]
fn defaults_are_empty() {
    let c = Config::default();
    assert_eq!((c.server_addr.as_str(), c.server_port, c.client_id.as_str()), ("", 0, ""));
    let a = EnvAdd::default();
    assert!(a.env_id.is_empty() && a.os_prefix.is_empty() && a.vm_type.is_none() && a.vm_port.is_empty());
    assert_eq!((a.life_time, a.cpu_num, a.mem_size, a.disk_size, a.dup_each), (0, 0, 0, 0, 0));
    let g = EnvGet::default();
    assert_eq!(g.check(), Err(ReqError::EmptyFilePath));
    let r = EnvRun::default();
    assert!(matches!(r.cmd_source(), CmdSource::Inline(c) if c.is_empty()));
    assert!(EnvUpdate::default().requests().is_empty());
    assert_eq!(VmConnInfo::default(), VmConnInfo::new(String::new(), String::new(), 0, 0));
}

#[test]
fn conn_info_equality_by_fields() {
    let a = VmConnInfo::new("os".to_string(), "10.0.0.1".to_string(), 1, 2);
    let b = VmConnInfo::new("os".to_string(), "10.0.0.1".to_string(), 1, 2);
    assert!(a == b);
    let c = VmConnInfo { stdout: "x".to_string(), ..VmConnInfo::new("os".to_string(), "10.0.0.1".to_string(), 1, 2) };
    assert!(a != c);
}

#[test]
fn default_port_written_back() {
    let mut c = Config { server_addr: "10.1.1.1".to_string(), server_port: 0, client_id: "me".to_string() };
    c.fill_default_port();
    assert_eq!(c.server_port, 9527);
    assert_eq!(c.server_addr, "10.1.1.1");
    assert_eq!(c.client_id, "me");
    let mut d = Config { server_addr: String::new(), server_port: 8000, client_id: String::new() };
    d.fill_default_port();
    assert_eq!(d.server_port, 8000);
}

#[test]
fn conn_info_ordered_by_fields() {
    let a = VmConnInfo::new("a".to_string(), "10.0.0.1".to_string(), 22, 1);
    let b = VmConnInfo::new("b".to_string(), "10.0.0.0".to_string(), 22, 1);
    assert!(a < b);
    let mut v = vec![b, a];
    v.sort();
    assert_eq!(v[0].os, "a");
}

#[test]
fn config_plan_registers_then_renames() {
    let mut c = Config { server_addr: "10.1.1.1".to_string(), server_port: 0, client_id: "me".to_string() };
    let p = c.plan();
    assert_eq!(p.register, Some("10.1.1.1:9527".to_string()));
    assert!(p.save_client_id);
    assert_eq!(c.server_port, 9527);
    let mut d = Config { server_addr: String::new(), server_port: 0, client_id: String::new() };
    let q = d.plan();
    assert_eq!(q.register, None);
    assert!(!q.save_client_id);
    assert_eq!(d.server_port, 0);
    let mut e = Config { server_addr: "h".to_string(), server_port: 80, client_id: String::new() };
    assert_eq!(e.plan().register, Some("h:80".to_string()));
}
