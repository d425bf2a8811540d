use vstd::prelude::*;
use crate::configs::FunctionConfig;
use crate::message::{Message, ReplyDest, Request};
use crate::workerpool::{AdmissionError, PoolConfig, PoolError, WorkerPool};

verus! {

/// Whether some configured function has name `name`.
pub open spec fn has_function(functions: Seq<FunctionConfig>, name: Seq<char>) -> bool {
    exists|i: int| 0 <= i < functions.len() && (#[trigger] functions[i]).name@ == name
}

/// The single admission point: function configurations, kernel defaults, and the pool.
pub struct Controller {
    pub functions: Vec<FunctionConfig>,
    pub kernel: String,
    pub kernel_args: String,
    pub pool: WorkerPool,
}

impl Controller {
    pub open spec fn wf(&self) -> bool {
        self.pool.wf()
    }

    /// A controller with a fresh pool sized by `pool_config`.
    pub fn new(
        functions: Vec<FunctionConfig>,
        kernel: String,
        kernel_args: String,
        pool_config: PoolConfig,
    ) -> (r: Result<Controller, PoolError>)
        ensures
            match WorkerPool::new_result_spec(pool_config) {
                Err(e) => r == Err::<Controller, PoolError>(e),
                Ok(_) => r matches Ok(c) && c.wf() && c.functions@ == functions@ && c.kernel@
                    == kernel@ && c.kernel_args@ == kernel_args@ && c.pool.config == pool_config
                    && c.pool.queue@.len() == 0 && !c.pool.shutting_down,
            },
    {
        match WorkerPool::new(pool_config) {
            Err(e) => Err(e),
            Ok(pool) => Ok(Controller { functions, kernel, kernel_args, pool }),
        }
    }

    /// Index of the configuration named `name`, if there is one.
    pub fn lookup(&self, name: &String) -> (r: Option<usize>)
        ensures
            r is None <==> !has_function(self.functions@, name@),
            r matches Some(i) ==> i < self.functions@.len() && self.functions@[i as int].name@
                == name@,
    {
        let mut i: usize = 0;
        while i < self.functions.len()
            invariant
                0 <= i <= self.functions@.len(),
                forall|k: int| 0 <= k < i ==> (#[trigger] self.functions@[k]).name@ != name@,
            decreases self.functions@.len() - i,
        {
            if self.functions[i].name == *name {
                return Some(i);
            }
            i += 1;
        }
        None
    }

    /// Admits a request: an unknown function name is refused first, then any request once
    /// shutdown has begun or when the pool has no worker; otherwise the request is queued
    /// with its destination.
    pub fn submit(&mut self, req: Request, dest: ReplyDest) -> (r: Result<(), AdmissionError>)
        requires
            old(self).wf(),
        ensures
            final(self).wf(),
            final(self).functions@ == old(self).functions@,
            final(self).pool.config == old(self).pool.config,
            final(self).pool.pool@ == old(self).pool.pool@,
            final(self).pool.shutting_down == old(self).pool.shutting_down,
            !has_function(old(self).functions@, req.function@) ==> r == Err::<(), AdmissionError>(
                AdmissionError::UnknownFunction,
            ) && final(self).pool.queue@ == old(self).pool.queue@,
            final(self).pool.served@ == old(self).pool.served@,
            has_function(old(self).functions@, req.function@) && old(self).pool.unavailable() ==> r
                == Err::<(), AdmissionError>(AdmissionError::PoolUnavailable)
                && final(self).pool.queue@ == old(self).pool.queue@,
            !has_function(old(self).functions@, req.function@) || old(self).pool.unavailable()
                ==> final(self).pool.submitted@ == old(self).pool.submitted@,
            has_function(old(self).functions@, req.function@) && !old(self).pool.unavailable() ==> r
                is Ok && final(self).pool.queue@ == old(self).pool.queue@.push(
                Message::Request(req, dest),
            ) && final(self).pool.submitted@ == old(self).pool.submitted@.push(dest),
    {
        if self.lookup(&req.function).is_none() {
            return Err(AdmissionError::UnknownFunction);
        }
        self.pool.send_req(req, dest)
    }

    /// Begins the pool's shutdown: requests already queued stay queued, ahead of one
    /// `Shutdown` per worker. Once shutdown has begun, a further call queues nothing.
    pub fn shutdown(&mut self) -> (r: usize)
        requires
            old(self).wf(),
        ensures
            final(self).wf(),
            final(self).pool.shutting_down,
            final(self).functions@ == old(self).functions@,
            final(self).pool.config == old(self).pool.config,
            final(self).pool.pool@ == old(self).pool.pool@,
            final(self).pool.submitted@ == old(self).pool.submitted@,
            final(self).pool.served@ == old(self).pool.served@,
            old(self).pool.shutting_down ==> r == 0 && final(self).pool.queue@ == old(self).pool.queue@,
            !old(self).pool.shutting_down ==> r == old(self).pool.pool@.len()
                && final(self).pool.queue@.len() == old(self).pool.queue@.len() + r
                && final(self).pool.queue@.subrange(0, old(self).pool.queue@.len() as int)
                == old(self).pool.queue@ && (forall|k: int|
                old(self).pool.queue@.len() <= k < final(self).pool.queue@.len() ==> (
                #[trigger] final(self).pool.queue@[k]) is Shutdown),
    {
        self.pool.shutdown()
    }
}

} // verus!
