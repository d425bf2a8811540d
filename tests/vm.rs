use snapfaas::configs::{FunctionConfig, OdirectOption};
use snapfaas::message::{Request, RequestError};
use snapfaas::vm::{launch_args, LaunchMode, TransportOutcome, Vm, VmAppConfig, VmState};

fn function(load_dir: Option<&str>, dump_dir: Option<&str>, diffs: &[&str], copy_base: bool) -> FunctionConfig {
    FunctionConfig {
        name: "echo".to_string(),
        runtimefs: "rootfs.ext4".to_string(),
        appfs: "app.ext4".to_string(),
        vcpus: 1,
        memory: 128,
        concurrency_limit: 1,
        load_dir: load_dir.map(|s| s.to_string()),
        dump_dir: dump_dir.map(|s| s.to_string()),
        diff_dirs: diffs.iter().map(|s| s.to_string()).collect(),
        copy_base,
        copy_diff: false,
        kernel: "vmlinux".to_string(),
        cmdline: None,
    }
}

fn ready_vm(id: usize, cfg: &FunctionConfig) -> Vm {
    let mut vm = Vm::new(id, 100 + id as u32, cfg);
    vm.start(cfg);
    vm.mark_ready();
    vm
}

#[test]
fn new_vm_is_created_with_config_memory() {
    let cfg = function(None, None, &[], false);
    let vm = Vm::new(7, 107, &cfg);
    assert_eq!(vm.id, 7);
    assert_eq!(vm.cid, 107);
    assert_eq!(vm.memory, 128);
    assert_eq!(vm.state, VmState::Created);
}

#[test]
fn cold_boot_without_load_dir() {
    let cfg = function(None, None, &[], false);
    let mut vm = Vm::new(1, 101, &cfg);
    assert_eq!(vm.start(&cfg), LaunchMode::ColdBoot { snapshot_after: false });
    assert_eq!(vm.state, VmState::Booting);
    vm.mark_ready();
    assert!(vm.is_reusable());
    let sent = vm.process_req(Request { function: "echo".to_string(), payload: b"in".to_vec() });
    assert_eq!(sent, b"in".to_vec());
    assert_eq!(vm.state, VmState::Executing);
    assert!(!vm.is_reusable());
    assert_eq!(vm.finish_req(TransportOutcome::Reply(b"out".to_vec())), Ok(b"out".to_vec()));
    assert!(vm.is_reusable());
}

#[test]
fn cold_boot_with_dump_dir_snapshots() {
    let cfg = function(None, Some("snap/base"), &[], false);
    let mut vm = Vm::new(1, 101, &cfg);
    assert_eq!(vm.start(&cfg), LaunchMode::ColdBoot { snapshot_after: true });
}

#[test]
fn restore_with_copy_base_gives_independent_vms() {
    let cfg = function(Some("snap/base"), None, &["snap/d1", "snap/d2"], true);
    let mut a = Vm::new(1, 101, &cfg);
    let mut b = Vm::new(2, 102, &cfg);
    let expected = LaunchMode::Restore { diff_layers: 2, copy_base: true, copy_diff: false };
    assert_eq!(a.start(&cfg), expected);
    assert_eq!(b.start(&cfg), expected);
    assert_eq!(a.state, VmState::Restoring);
    a.mark_ready();
    b.mark_ready();
    a.process_req(Request { function: "echo".to_string(), payload: b"a".to_vec() });
    assert_eq!(a.state, VmState::Executing);
    assert_eq!(b.state, VmState::Ready);
    assert_eq!(a.finish_req(TransportOutcome::Closed), Err(RequestError::Transport));
    assert_eq!(b.state, VmState::Ready);
}

#[test]
fn echo_round_trip_keeps_payload() {
    let cfg = function(None, None, &[], false);
    for payload in [Vec::new(), b"hello".to_vec(), vec![0u8, 255, 7, 0]] {
        let mut vm = ready_vm(3, &cfg);
        let sent = vm.process_req(Request { function: "echo".to_string(), payload: payload.clone() });
        assert_eq!(vm.finish_req(TransportOutcome::Reply(sent)), Ok(payload));
    }
}

#[test]
fn closed_transport_is_transport_error() {
    let cfg = function(None, None, &[], false);
    let mut vm = ready_vm(4, &cfg);
    vm.process_req(Request { function: "echo".to_string(), payload: b"x".to_vec() });
    assert_eq!(vm.finish_req(TransportOutcome::Closed), Err(RequestError::Transport));
    assert_eq!(vm.state, VmState::Terminated);
    assert!(!vm.is_reusable());
}

#[test]
fn shutdown_terminates_and_repeats() {
    let cfg = function(None, None, &[], false);
    let mut vm = ready_vm(5, &cfg);
    vm.shutdown();
    assert_eq!(vm.state, VmState::Terminated);
    vm.shutdown();
    assert_eq!(vm.state, VmState::Terminated);
    assert_eq!(vm.id, 5);
}

#[test]
fn odirect_defaults() {
    let o = OdirectOption::default();
    assert_eq!(o, OdirectOption { base: false, diff: true, rootfs: true, appfs: true });
}

#[test]
fn app_config_holds_paths() {
    let c = VmAppConfig {
        rootfs: "r".to_string(),
        appfs: "a".to_string(),
        load_dir: Some("l".to_string()),
        dump_dir: None,
    };
    assert_eq!(c.load_dir.as_deref(), Some("l"));
}

#[test]
fn cold_boot_args_carry_the_configuration() {
    let mut cfg = function(None, Some("snap/base"), &["ignored"], true);
    cfg.cmdline = Some("quiet".to_string());
    cfg.vcpus = 2;
    cfg.memory = 256;
    let a = launch_args(&cfg, 105, OdirectOption::default());
    assert_eq!(a.kernel, "vmlinux");
    assert_eq!(a.cmdline.as_deref(), Some("quiet"));
    assert_eq!(a.rootfs, "rootfs.ext4");
    assert_eq!(a.appfs, "app.ext4");
    assert_eq!(a.mem_size, 256);
    assert_eq!(a.vcpus, 2);
    assert_eq!(a.cid, 105);
    assert_eq!(a.odirect, OdirectOption::default());
    assert_eq!(a.load_dir, None);
    assert_eq!(a.dump_dir.as_deref(), Some("snap/base"));
    assert!(a.diff_dirs.is_empty());
    assert!(!a.copy_base);
    assert!(!a.copy_diff);
}

#[test]
fn restore_args_keep_diff_order() {
    let mut cfg = function(Some("snap/base"), Some("snap/out"), &["d1", "d2", "d3"], true);
    cfg.copy_diff = true;
    let odirect = OdirectOption { base: true, diff: false, rootfs: false, appfs: true };
    let a = launch_args(&cfg, 110, odirect);
    assert_eq!(a.load_dir.as_deref(), Some("snap/base"));
    assert_eq!(a.dump_dir, None);
    assert_eq!(a.diff_dirs, vec!["d1".to_string(), "d2".to_string(), "d3".to_string()]);
    assert!(a.copy_base);
    assert!(a.copy_diff);
    assert_eq!(a.odirect, odirect);
}
