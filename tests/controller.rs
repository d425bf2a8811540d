use snapfaas::configs::FunctionConfig;
use snapfaas::controller::Controller;
use snapfaas::message::{ReplyDest, Request};
use snapfaas::workerpool::{AdmissionError, PoolConfig, PoolError};

fn function(name: &str) -> FunctionConfig {
    FunctionConfig {
        name: name.to_string(),
        runtimefs: "rootfs.ext4".to_string(),
        appfs: String::new(),
        vcpus: 1,
        memory: 128,
        concurrency_limit: 1,
        load_dir: None,
        dump_dir: None,
        diff_dirs: Vec::new(),
        copy_base: false,
        copy_diff: false,
        kernel: "vmlinux".to_string(),
        cmdline: None,
    }
}

fn controller() -> Controller {
    Controller::new(
        vec![function("hello"), function("echo")],
        "vmlinux".to_string(),
        "quiet console=none reboot=k panic=1 pci=off".to_string(),
        PoolConfig { total_mem: 256, mem_unit: 128, cid_base: 100, reserved_cid: 124 },
    )
    .unwrap()
}

fn request(name: &str) -> Request {
    Request { function: name.to_string(), payload: b"p".to_vec() }
}

#[test]
fn lookup_finds_by_name() {
    let c = controller();
    assert_eq!(c.lookup(&"echo".to_string()), Some(1));
    assert_eq!(c.lookup(&"hello".to_string()), Some(0));
    assert_eq!(c.lookup(&"nope".to_string()), None);
}

#[test]
fn unknown_function_is_refused_and_nothing_queued() {
    let mut c = controller();
    assert_eq!(c.submit(request("missing"), ReplyDest::Channel(1)), Err(AdmissionError::UnknownFunction));
    assert!(c.pool.queue.is_empty());
}

#[test]
fn known_function_is_queued() {
    let mut c = controller();
    assert_eq!(c.submit(request("echo"), ReplyDest::Channel(1)), Ok(()));
    assert_eq!(c.pool.queue.len(), 1);
}

#[test]
fn submit_after_shutdown_is_refused() {
    let mut c = controller();
    assert_eq!(c.shutdown(), 2);
    assert_eq!(c.submit(request("echo"), ReplyDest::Channel(1)), Err(AdmissionError::PoolUnavailable));
    assert_eq!(c.submit(request("missing"), ReplyDest::Channel(1)), Err(AdmissionError::UnknownFunction));
    assert_eq!(c.shutdown(), 0);
    assert_eq!(c.pool.queue.len(), 2);
}

#[test]
fn bad_pool_config_is_refused() {
    let r = Controller::new(
        vec![],
        String::new(),
        String::new(),
        PoolConfig { total_mem: 256, mem_unit: 0, cid_base: 100, reserved_cid: 124 },
    );
    assert!(matches!(r, Err(PoolError::ZeroMemoryUnit)));
    let r = Controller::new(
        vec![],
        String::new(),
        String::new(),
        PoolConfig { total_mem: 8, mem_unit: 1, cid_base: u32::MAX, reserved_cid: 0 },
    );
    assert!(matches!(r, Err(PoolError::CidRangeOverflow)));
}
