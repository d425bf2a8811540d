use vstd::prelude::*;
use crate::configs::{FunctionConfig, OdirectOption};
use crate::message::{Request, RequestError};

verus! {

/// The files a VM is started from.
pub struct VmAppConfig {
    pub rootfs: String,
    pub appfs: String,
    pub load_dir: Option<String>,
    pub dump_dir: Option<String>,
}

/// Lifecycle of one VM.
#[derive(Clone, Copy, Debug, PartialEq, Eq, Structural)]
pub enum VmState {
    Created,
    Booting,
    Restoring,
    Ready,
    Executing,
    ShuttingDown,
    Terminated,
}

/// How a created VM is brought up.
#[derive(Clone, Copy, Debug, PartialEq, Eq, Structural)]
pub enum LaunchMode {
    /// Boot the kernel; take a snapshot once the guest is up when `snapshot_after`.
    ColdBoot { snapshot_after: bool },
    /// Restore the base snapshot, then apply `diff_layers` diff snapshots in order.
    Restore { diff_layers: usize, copy_base: bool, copy_diff: bool },
}

/// What came back over the VM's connection for one request.
pub enum TransportOutcome {
    Reply(Vec<u8>),
    Closed,
}

/// Everything the hypervisor is started with for one VM.
pub struct LaunchArgs {
    pub kernel: String,
    pub cmdline: Option<String>,
    pub rootfs: String,
    pub appfs: String,
    /// Guest memory in MB.
    pub mem_size: usize,
    pub vcpus: u64,
    pub cid: u32,
    pub odirect: OdirectOption,
    /// Base snapshot to restore from; none for a cold boot.
    pub load_dir: Option<String>,
    /// Where to snapshot a cold-booted VM once it is up.
    pub dump_dir: Option<String>,
    /// Diff snapshots to apply after the base, in this order.
    pub diff_dirs: Vec<String>,
    pub copy_base: bool,
    pub copy_diff: bool,
}

fn copy_opt_string(s: &Option<String>) -> (r: Option<String>)
    ensures
        r == *s,
{
    match s {
        Some(v) => Some(v.clone()),
        None => None,
    }
}

fn copy_strings(v: &Vec<String>) -> (r: Vec<String>)
    ensures
        r@ == v@,
{
    let mut r: Vec<String> = Vec::new();
    let mut i: usize = 0;
    while i < v.len()
        invariant
            0 <= i <= v@.len(),
            r@ == v@.take(i as int),
        decreases v@.len() - i,
    {
        r.push(v[i].clone());
        assert(v@.take(i + 1) =~= v@.take(i as int).push(v@[i as int]));
        i += 1;
    }
    assert(v@.take(i as int) =~= v@);
    r
}

/// The hypervisor's arguments for a VM of `config` at context id `cid`. A configured base
/// snapshot means a restore, with its diff layers in order and the copy choices; without
/// one the kernel is booted and snapshotted to `dump_dir` if that is set.
pub fn launch_args(config: &FunctionConfig, cid: u32, odirect: OdirectOption) -> (r: LaunchArgs)
    ensures
        r.kernel@ == config.kernel@,
        r.cmdline == config.cmdline,
        r.rootfs@ == config.runtimefs@,
        r.appfs@ == config.appfs@,
        r.mem_size == config.memory,
        r.vcpus == config.vcpus,
        r.cid == cid,
        r.odirect == odirect,
        r.load_dir == config.load_dir,
        r.diff_dirs@ == (if config.load_dir is Some {
            config.diff_dirs@
        } else {
            Seq::empty()
        }),
        r.dump_dir == (if config.load_dir is None {
            config.dump_dir
        } else {
            None
        }),
        r.copy_base == (config.load_dir is Some && config.copy_base),
        r.copy_diff == (config.load_dir is Some && config.copy_diff),
{
    let restore = config.load_dir.is_some();
    LaunchArgs {
        kernel: config.kernel.clone(),
        cmdline: copy_opt_string(&config.cmdline),
        rootfs: config.runtimefs.clone(),
        appfs: config.appfs.clone(),
        mem_size: config.memory,
        vcpus: config.vcpus,
        cid: cid,
        odirect: odirect,
        load_dir: copy_opt_string(&config.load_dir),
        dump_dir: if restore {
            None
        } else {
            copy_opt_string(&config.dump_dir)
        },
        diff_dirs: if restore {
            copy_strings(&config.diff_dirs)
        } else {
            Vec::new()
        },
        copy_base: restore && config.copy_base,
        copy_diff: restore && config.copy_diff,
    }
}

/// One microVM, owned by the worker that created it.
pub struct Vm {
    pub id: usize,
    /// Context id of the VM's communication endpoint: the owning worker's CID.
    pub cid: u32,
    /// Guest memory in MB.
    pub memory: usize,
    pub state: VmState,
}

pub open spec fn launch_mode_of(config: FunctionConfig) -> LaunchMode {
    if config.load_dir is Some {
        LaunchMode::Restore {
            diff_layers: config.diff_dirs@.len() as usize,
            copy_base: config.copy_base,
            copy_diff: config.copy_diff,
        }
    } else {
        LaunchMode::ColdBoot { snapshot_after: config.dump_dir is Some }
    }
}

impl Vm {
    /// A VM for `function_config` at context id `cid`, not started yet.
    pub fn new(id: usize, cid: u32, function_config: &FunctionConfig) -> (r: Vm)
        ensures
            r.id == id,
            r.cid == cid,
            r.memory == function_config.memory,
            r.state == VmState::Created,
    {
        Vm { id: id, cid: cid, memory: function_config.memory, state: VmState::Created }
    }

    /// Chooses cold boot or restore: restore exactly when a base snapshot is configured.
    pub fn start(&mut self, function_config: &FunctionConfig) -> (r: LaunchMode)
        requires
            old(self).state == VmState::Created,
        ensures
            r == launch_mode_of(*function_config),
            final(self).id == old(self).id,
            final(self).cid == old(self).cid,
            final(self).memory == old(self).memory,
            final(self).state == (if function_config.load_dir is Some {
                VmState::Restoring
            } else {
                VmState::Booting
            }),
    {
        if function_config.load_dir.is_some() {
            self.state = VmState::Restoring;
            LaunchMode::Restore {
                diff_layers: function_config.diff_dirs.len(),
                copy_base: function_config.copy_base,
                copy_diff: function_config.copy_diff,
            }
        } else {
            self.state = VmState::Booting;
            LaunchMode::ColdBoot { snapshot_after: function_config.dump_dir.is_some() }
        }
    }

    /// The guest signalled readiness after boot or restore.
    pub fn mark_ready(&mut self)
        requires
            old(self).state == VmState::Booting || old(self).state == VmState::Restoring,
        ensures
            final(self).id == old(self).id,
            final(self).cid == old(self).cid,
            final(self).memory == old(self).memory,
            final(self).state == VmState::Ready,
    {
        self.state = VmState::Ready;
    }

    /// Hands a request to a ready VM: returns the bytes to send over its connection.
    pub fn process_req(&mut self, req: Request) -> (r: Vec<u8>)
        requires
            old(self).state == VmState::Ready,
        ensures
            r@ == req.payload@,
            final(self).id == old(self).id,
            final(self).cid == old(self).cid,
            final(self).memory == old(self).memory,
            final(self).state == VmState::Executing,
    {
        self.state = VmState::Executing;
        req.payload
    }

    /// Takes what the connection gave for the request in flight. A reply is the response
    /// and leaves the VM ready for the next one; a closed connection is a transport error
    /// and the VM is torn down, never reused.
    pub fn finish_req(&mut self, outcome: TransportOutcome) -> (r: Result<Vec<u8>, RequestError>)
        requires
            old(self).state == VmState::Executing,
        ensures
            final(self).id == old(self).id,
            final(self).cid == old(self).cid,
            final(self).memory == old(self).memory,
            match outcome {
                TransportOutcome::Reply(b) => r matches Ok(v) && v@ == b@ && final(self).state
                    == VmState::Ready,
                TransportOutcome::Closed => r == Err::<Vec<u8>, RequestError>(
                    RequestError::Transport,
                ) && final(self).state == VmState::Terminated,
            },
    {
        match outcome {
            TransportOutcome::Reply(b) => {
                self.state = VmState::Ready;
                Ok(b)
            },
            TransportOutcome::Closed => {
                self.state = VmState::Terminated;
                Err(RequestError::Transport)
            },
        }
    }

    /// Whether the VM can take another request.
    pub fn is_reusable(&self) -> (r: bool)
        ensures
            r == (self.state == VmState::Ready),
    {
        self.state == VmState::Ready
    }

    /// Tears the VM down; calling it again changes nothing.
    pub fn shutdown(&mut self)
        ensures
            final(self).id == old(self).id,
            final(self).cid == old(self).cid,
            final(self).memory == old(self).memory,
            final(self).state == VmState::Terminated,
    {
        self.state = VmState::Terminated;
    }
}

} // verus!
