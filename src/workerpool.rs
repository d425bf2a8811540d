use vstd::prelude::*;
use std::collections::VecDeque;
use crate::message::{Message, ReplyDest, Request, RequestError, Response};
use crate::worker::{State, Step, Worker};

verus! {

/// How a pool is sized and where its CID range starts.
#[derive(Clone, Copy, Debug, PartialEq, Eq, Structural)]
pub struct PoolConfig {
    /// Memory available to all VMs together, in MB.
    pub total_mem: usize,
    /// Memory set aside for one VM, in MB.
    pub mem_unit: usize,
    /// CID of the first worker; worker `i` gets `cid_base + i`.
    pub cid_base: u32,
    /// CID set aside for VMs launched outside the pool; no worker may get it.
    pub reserved_cid: u32,
}

#[derive(Clone, Copy, Debug, PartialEq, Eq, Structural)]
pub enum PoolError {
    /// The per-VM memory unit is zero.
    ZeroMemoryUnit,
    /// Some worker's CID would not fit in 32 bits.
    CidRangeOverflow,
    /// The workers' CID range holds the reserved CID.
    ReservedCidInRange,
}

/// Why a request was not admitted.
#[derive(Clone, Copy, Debug, PartialEq, Eq, Structural)]
pub enum AdmissionError {
    /// No function of that name is configured.
    UnknownFunction,
    /// Shutdown has begun.
    PoolUnavailable,
}

/// Number of `Shutdown` messages in a queue.
pub open spec fn shutdowns_in(q: Seq<Message>) -> nat
    decreases q.len(),
{
    if q.len() == 0 {
        0
    } else {
        (if q[0] is Shutdown {
            1nat
        } else {
            0nat
        }) + shutdowns_in(q.drop_first())
    }
}

/// Number of workers not yet done.
pub open spec fn live_in(ws: Seq<Worker>) -> nat
    decreases ws.len(),
{
    if ws.len() == 0 {
        0
    } else {
        (if ws[0].state != State::Done {
            1nat
        } else {
            0nat
        }) + live_in(ws.drop_first())
    }
}

/// Destinations of the requests in a queue, head first.
pub open spec fn queued_dests(q: Seq<Message>) -> Seq<ReplyDest>
    decreases q.len(),
{
    if q.len() == 0 {
        Seq::empty()
    } else {
        match q[0] {
            Message::Request(_, d) => seq![d] + queued_dests(q.drop_first()),
            Message::Shutdown => queued_dests(q.drop_first()),
        }
    }
}

pub proof fn lemma_queued_dests_push(q: Seq<Message>, m: Message)
    ensures
        queued_dests(q.push(m)) == match m {
            Message::Request(_, d) => queued_dests(q).push(d),
            Message::Shutdown => queued_dests(q),
        },
    decreases q.len(),
{
    if q.len() > 0 {
        assert(q.push(m).drop_first() =~= q.drop_first().push(m));
        lemma_queued_dests_push(q.drop_first(), m);
        match q[0] {
            Message::Request(_, d) => {
                assert(queued_dests(q.push(m)) == seq![d] + queued_dests(q.drop_first().push(m)));
                match m {
                    Message::Request(_, e) => {
                        assert(seq![d] + queued_dests(q.drop_first()).push(e) =~= (seq![d]
                            + queued_dests(q.drop_first())).push(e));
                    },
                    Message::Shutdown => {},
                }
            },
            Message::Shutdown => {},
        }
    } else {
        assert(q.push(m).drop_first() =~= Seq::<Message>::empty());
        assert(q.push(m)[0] == m);
        assert(queued_dests(Seq::<Message>::empty()) == Seq::<ReplyDest>::empty());
        match m {
            Message::Request(_, d) => {
                assert(seq![d] + Seq::<ReplyDest>::empty() =~= Seq::<ReplyDest>::empty().push(d));
            },
            Message::Shutdown => {},
        }
    }
}

pub open spec fn pool_size_of(config: PoolConfig) -> nat {
    (config.total_mem / config.mem_unit) as nat
}

/// Fits `config` when no worker's CID overflows.
pub open spec fn cids_fit(config: PoolConfig) -> bool {
    config.cid_base + pool_size_of(config) <= u32::MAX + 1
}

/// The reserved CID lies outside `cid_base .. cid_base + pool size`.
pub open spec fn reserved_clear(config: PoolConfig) -> bool {
    !(config.cid_base <= config.reserved_cid < config.cid_base + pool_size_of(config))
}

pub proof fn lemma_shutdowns_push(q: Seq<Message>, m: Message)
    ensures
        shutdowns_in(q.push(m)) == shutdowns_in(q) + (if m is Shutdown {
            1nat
        } else {
            0nat
        }),
    decreases q.len(),
{
    if q.len() > 0 {
        assert(q.push(m).drop_first() =~= q.drop_first().push(m));
        lemma_shutdowns_push(q.drop_first(), m);
    } else {
        assert(q.push(m).drop_first() =~= Seq::<Message>::empty());
        assert(q.push(m)[0] == m);
        assert(shutdowns_in(Seq::<Message>::empty()) == 0);
    }
}

pub proof fn lemma_live_update(ws: Seq<Worker>, i: int, w: Worker)
    requires
        0 <= i < ws.len(),
    ensures
        live_in(ws.update(i, w)) + (if ws[i].state != State::Done {
            1nat
        } else {
            0nat
        }) == live_in(ws) + (if w.state != State::Done {
            1nat
        } else {
            0nat
        }),
    decreases ws.len(),
{
    if i > 0 {
        assert(ws.update(i, w).drop_first() =~= ws.drop_first().update(i - 1, w));
        lemma_live_update(ws.drop_first(), i - 1, w);
    } else {
        assert(ws.update(i, w).drop_first() =~= ws.drop_first());
    }
}

pub proof fn lemma_live_none(ws: Seq<Worker>)
    ensures
        live_in(ws) == 0 <==> forall|i: int| 0 <= i < ws.len() ==> #[trigger] ws[i].state == State::Done,
    decreases ws.len(),
{
    if ws.len() > 0 {
        lemma_live_none(ws.drop_first());
        if live_in(ws) == 0 {
            assert forall|i: int| 0 <= i < ws.len() implies #[trigger] ws[i].state == State::Done by {
                if i > 0 {
                    assert(ws[i] == ws.drop_first()[i - 1]);
                }
            }
        }
        if forall|i: int| 0 <= i < ws.len() ==> #[trigger] ws[i].state == State::Done {
            assert forall|i: int| 0 <= i < ws.drop_first().len() implies #[trigger] ws.drop_first()[i].state
                == State::Done by {
                assert(ws.drop_first()[i] == ws[i + 1]);
            }
        }
    }
}

pub proof fn lemma_live_all(ws: Seq<Worker>)
    requires
        forall|i: int| 0 <= i < ws.len() ==> #[trigger] ws[i].state != State::Done,
    ensures
        live_in(ws) == ws.len(),
    decreases ws.len(),
{
    if ws.len() > 0 {
        assert forall|i: int| 0 <= i < ws.drop_first().len() implies #[trigger] ws.drop_first()[i].state
            != State::Done by {
            assert(ws.drop_first()[i] == ws[i + 1]);
        }
        lemma_live_all(ws.drop_first());
    }
}

/// A fixed set of workers and the one queue that they all take messages from.
pub struct WorkerPool {
    pub config: PoolConfig,
    pub pool: Vec<Worker>,
    pub queue: VecDeque<Message>,
    pub shutting_down: bool,
    /// Destinations of all requests ever queued, in queuing order.
    pub submitted: Ghost<Seq<ReplyDest>>,
    /// Destinations of all requests handed to workers, in the order they were taken.
    pub served: Ghost<Seq<ReplyDest>>,
}

impl WorkerPool {
    /// The outcome of `new` on `config`, with the pool left out.
    pub open spec fn new_result_spec(config: PoolConfig) -> Result<(), PoolError> {
        if config.mem_unit == 0 {
            Err(PoolError::ZeroMemoryUnit)
        } else if !cids_fit(config) {
            Err(PoolError::CidRangeOverflow)
        } else if !reserved_clear(config) {
            Err(PoolError::ReservedCidInRange)
        } else {
            Ok(())
        }
    }

    /// The pool's invariant. Its size is fixed by the configuration and worker `i` has CID
    /// `cid_base + i`, never the reserved CID. Before shutdown no worker is done and no
    /// `Shutdown` is queued; after it, each worker not yet done has exactly one `Shutdown`
    /// queued for it. Every
    /// request queued so far has either been taken, in order, or is still queued.
    pub open spec fn wf(&self) -> bool {
        &&& self.config.mem_unit > 0
        &&& self.pool@.len() == pool_size_of(self.config)
        &&& forall|i: int|
            0 <= i < self.pool@.len() ==> #[trigger] self.pool@[i].cid == self.config.cid_base + i
        &&& reserved_clear(self.config)
        &&& !self.shutting_down ==> shutdowns_in(self.queue@) == 0 && forall|i: int|
            0 <= i < self.pool@.len() ==> #[trigger] self.pool@[i].state != State::Done
        &&& self.shutting_down ==> shutdowns_in(self.queue@) == live_in(self.pool@)
        &&& self.submitted@ == self.served@ + queued_dests(self.queue@)
    }

    /// Builds `total_mem / mem_unit` waiting workers with consecutive CIDs from `cid_base`,
    /// refusing a CID range that overflows or holds the reserved CID.
    pub fn new(config: PoolConfig) -> (r: Result<WorkerPool, PoolError>)
        ensures
            config.mem_unit == 0 ==> r == Err::<WorkerPool, PoolError>(PoolError::ZeroMemoryUnit),
            config.mem_unit > 0 && !cids_fit(config) ==> r == Err::<WorkerPool, PoolError>(
                PoolError::CidRangeOverflow,
            ),
            config.mem_unit > 0 && cids_fit(config) && !reserved_clear(config) ==> r == Err::<
                WorkerPool,
                PoolError,
            >(PoolError::ReservedCidInRange),
            config.mem_unit > 0 && cids_fit(config) && reserved_clear(config) ==> (r matches Ok(p)
                && p.wf() && (forall|i: int|
                0 <= i < p.pool@.len() ==> (#[trigger] p.pool@[i]).cid != config.reserved_cid
                && p.pool@[i].state == State::WaitForReq) && p.config
                == config && p.pool@.len() == config.total_mem / config.mem_unit
                && p.queue@.len() == 0 && !p.shutting_down && p.submitted@.len() == 0
                && p.served@.len() == 0),
    {
        if config.mem_unit == 0 {
            return Err(PoolError::ZeroMemoryUnit);
        }
        let pool_size: usize = config.total_mem / config.mem_unit;
        if pool_size as u64 > 0x1_0000_0000u64 - config.cid_base as u64 {
            return Err(PoolError::CidRangeOverflow);
        }
        if config.cid_base <= config.reserved_cid && ((config.reserved_cid - config.cid_base) as usize)
            < pool_size {
            return Err(PoolError::ReservedCidInRange);
        }
        let mut pool: Vec<Worker> = Vec::with_capacity(pool_size);
        let mut i: usize = 0;
        while i < pool_size
            invariant
                0 <= i <= pool_size,
                pool_size == config.total_mem / config.mem_unit,
                config.cid_base + pool_size <= u32::MAX + 1,
                pool@.len() == i,
                forall|k: int| 0 <= k < i ==> #[trigger] pool@[k].cid == config.cid_base + k,
                forall|k: int| 0 <= k < i ==> #[trigger] pool@[k].state == State::WaitForReq,
            decreases pool_size - i,
        {
            let cid: u32 = config.cid_base + i as u32;
            let ghost before = pool@;
            pool.push(Worker::new(cid));
            assert(pool@[i as int].cid == config.cid_base + i);
            assert forall|k: int| 0 <= k < i + 1 implies #[trigger] pool@[k].cid == config.cid_base + k
                && pool@[k].state == State::WaitForReq by {
                if k < i {
                    assert(pool@[k] == before[k]);
                }
            }
            i += 1;
        }
        let queue: VecDeque<Message> = VecDeque::new();
        proof {
            assert(shutdowns_in(queue@) == 0);
            assert(queued_dests(queue@) == Seq::<ReplyDest>::empty());
            assert(Seq::<ReplyDest>::empty() + Seq::<ReplyDest>::empty() =~= Seq::<ReplyDest>::empty());
            lemma_live_all(pool@);
        }
        Ok(
            WorkerPool {
                config: config,
                pool: pool,
                queue: queue,
                shutting_down: false,
                submitted: Ghost(Seq::empty()),
                served: Ghost(Seq::empty()),
            },
        )
    }

    pub fn pool_size(&self) -> (r: usize)
        ensures
            r == self.pool@.len(),
    {
        self.pool.len()
    }

    /// No request can be taken: shutdown has begun, or the pool has no worker.
    pub open spec fn unavailable(&self) -> bool {
        self.shutting_down || self.pool@.len() == 0
    }

    /// Queues a request with the destination of its response. Refused once shutdown has
    /// begun, and by a pool without workers, where no request would ever be answered.
    pub fn send_req(&mut self, req: Request, dest: ReplyDest) -> (r: Result<(), AdmissionError>)
        requires
            old(self).wf(),
        ensures
            final(self).wf(),
            final(self).config == old(self).config,
            final(self).pool@ == old(self).pool@,
            final(self).shutting_down == old(self).shutting_down,
            old(self).unavailable() ==> r == Err::<(), AdmissionError>(AdmissionError::PoolUnavailable)
                && final(self).queue@ == old(self).queue@,
            final(self).served@ == old(self).served@,
            old(self).unavailable() ==> final(self).submitted@ == old(self).submitted@,
            !old(self).unavailable() ==> r is Ok && final(self).queue@ == old(self).queue@.push(
                Message::Request(req, dest),
            ) && final(self).submitted@ == old(self).submitted@.push(dest),
    {
        if self.shutting_down || self.pool.len() == 0 {
            return Err(AdmissionError::PoolUnavailable);
        }
        proof {
            lemma_shutdowns_push(self.queue@, Message::Request(req, dest));
            lemma_queued_dests_push(self.queue@, Message::Request(req, dest));
            assert(self.served@ + queued_dests(self.queue@).push(dest) =~= (self.served@
                + queued_dests(self.queue@)).push(dest));
        }
        self.queue.push_back(Message::Request(req, dest));
        self.submitted = Ghost(self.submitted@.push(dest));
        Ok(())
    }

    /// Queues a request whose response goes back over remote connection `conn`.
    pub fn send_req_tcp(&mut self, req: Request, conn: u64) -> (r: Result<(), AdmissionError>)
        requires
            old(self).wf(),
        ensures
            final(self).wf(),
            final(self).config == old(self).config,
            final(self).pool@ == old(self).pool@,
            final(self).shutting_down == old(self).shutting_down,
            old(self).unavailable() ==> r == Err::<(), AdmissionError>(AdmissionError::PoolUnavailable)
                && final(self).queue@ == old(self).queue@,
            final(self).served@ == old(self).served@,
            old(self).unavailable() ==> final(self).submitted@ == old(self).submitted@,
            !old(self).unavailable() ==> r is Ok && final(self).queue@ == old(self).queue@.push(
                Message::Request(req, ReplyDest::Remote(conn)),
            ) && final(self).submitted@ == old(self).submitted@.push(ReplyDest::Remote(conn)),
    {
        self.send_req(req, ReplyDest::Remote(conn))
    }

    /// Begins shutdown: queues one `Shutdown` per worker and returns how many were queued.
    /// Once shutdown has begun, a further call queues nothing and returns 0.
    pub fn shutdown(&mut self) -> (r: usize)
        requires
            old(self).wf(),
        ensures
            final(self).wf(),
            final(self).shutting_down,
            final(self).config == old(self).config,
            final(self).pool@ == old(self).pool@,
            old(self).shutting_down ==> r == 0 && final(self).queue@ == old(self).queue@,
            !old(self).shutting_down ==> r == old(self).pool@.len() && final(self).queue@.len()
                == old(self).queue@.len() + r && final(self).queue@.subrange(
                0,
                old(self).queue@.len() as int,
            ) == old(self).queue@ && (forall|k: int|
                old(self).queue@.len() <= k < final(self).queue@.len() ==> (
                #[trigger] final(self).queue@[k]) is Shutdown),
            shutdowns_in(final(self).queue@) == shutdowns_in(old(self).queue@) + r,
            final(self).submitted@ == old(self).submitted@,
            final(self).served@ == old(self).served@,
    {
        if self.shutting_down {
            return 0;
        }
        let ghost q0 = self.queue@;
        let n = self.pool.len();
        let mut k: usize = 0;
        while k < n
            invariant
                old(self).wf(),
                !old(self).shutting_down,
                self.pool@ == old(self).pool@,
                self.config == old(self).config,
                self.shutting_down == old(self).shutting_down,
                self.submitted@ == old(self).submitted@,
                self.served@ == old(self).served@,
                queued_dests(self.queue@) == queued_dests(q0),
                q0 == old(self).queue@,
                0 <= k <= n,
                n == self.pool@.len(),
                self.queue@.len() == q0.len() + k,
                self.queue@.subrange(0, q0.len() as int) == q0,
                forall|j: int| q0.len() <= j < self.queue@.len() ==> (#[trigger] self.queue@[j]) is Shutdown,
                shutdowns_in(self.queue@) == shutdowns_in(q0) + k,
            decreases n - k,
        {
            let ghost before = self.queue@;
            proof {
                lemma_shutdowns_push(self.queue@, Message::Shutdown);
                lemma_queued_dests_push(self.queue@, Message::Shutdown);
            }
            self.queue.push_back(Message::Shutdown);
            assert(self.queue@.subrange(0, q0.len() as int) =~= before.subrange(0, q0.len() as int));
            assert forall|j: int| q0.len() <= j < self.queue@.len() implies (#[trigger] self.queue@[j]) is Shutdown by {
                if j < before.len() {
                    assert(self.queue@[j] == before[j]);
                }
            }
            k += 1;
        }
        proof {
            lemma_live_all(self.pool@);
        }
        self.shutting_down = true;
        n
    }

    /// Worker `w` takes the message at the head of the queue, if it is waiting and the queue
    /// is not empty. Taking a request makes it busy until it replies; taking `Shutdown` ends it.
    pub fn next_message(&mut self, w: usize) -> (r: Option<Step>)
        requires
            old(self).wf(),
            w < old(self).pool@.len(),
        ensures
            final(self).wf(),
            final(self).config == old(self).config,
            final(self).shutting_down == old(self).shutting_down,
            final(self).submitted@ == old(self).submitted@,
            old(self).pool@[w as int].state != State::WaitForReq || old(self).queue@.len() == 0 ==> r is None
                && final(self).queue@ == old(self).queue@ && final(self).pool@ == old(self).pool@
                && final(self).served@ == old(self).served@,
            old(self).pool@[w as int].state == State::WaitForReq && old(self).queue@.len() > 0 ==> (
            final(self).queue@ == old(self).queue@.drop_first() && match old(self).queue@[0] {
                Message::Request(req, dest) => r == Some(Step::Serve(req, dest))
                    && final(self).pool@ == old(self).pool@.update(
                    w as int,
                    Worker { cid: old(self).pool@[w as int].cid, state: State::Busy(dest) },
                ) && final(self).served@ == old(
                    self,
                ).served@.push(dest),
                Message::Shutdown => r == Some(Step::Exit) && final(self).served@ == old(
                    self,
                ).served@ && final(self).pool@
                    == old(self).pool@.update(w as int, Worker { cid: old(self).pool@[w as int].cid, state: State::Done }),
            }),
    {
        if self.pool[w].state != State::WaitForReq {
            return None;
        }
        let ghost q0 = self.queue@;
        let ghost p0 = self.pool@;
        match self.queue.pop_front() {
            None => None,
            Some(msg) => {
                assert(self.queue@ =~= q0.drop_first());
                proof {
                    match msg {
                        Message::Request(_, d) => {
                            assert(queued_dests(q0) == seq![d] + queued_dests(q0.drop_first()));
                            assert(self.served@ + queued_dests(q0) =~= self.served@.push(d)
                                + queued_dests(q0.drop_first()));
                            self.served = Ghost(self.served@.push(d));
                        },
                        Message::Shutdown => {},
                    }
                }
                let mut worker = self.pool[w];
                let step = worker.handle(msg);
                self.pool.set(w, worker);
                proof {
                    lemma_live_update(p0, w as int, worker);
                    if !self.shutting_down {
                        assert(!(q0[0] is Shutdown));
                    }
                }
                Some(step)
            },
        }
    }

    /// Busy worker `w` sends the one response for the request it took, to that request's
    /// destination, and waits again.
    pub fn reply(&mut self, w: usize, result: Result<Vec<u8>, RequestError>) -> (r: Response)
        requires
            old(self).wf(),
            w < old(self).pool@.len(),
            old(self).pool@[w as int].state is Busy,
        ensures
            final(self).wf(),
            r.dest == old(self).pool@[w as int].state->Busy_0,
            r.result == result,
            final(self).pool@ == old(self).pool@.update(
                w as int,
                Worker { cid: old(self).pool@[w as int].cid, state: State::WaitForReq },
            ),
            final(self).config == old(self).config,
            final(self).queue@ == old(self).queue@,
            final(self).shutting_down == old(self).shutting_down,
            final(self).submitted@ == old(self).submitted@,
            final(self).served@ == old(self).served@,
    {
        let ghost p0 = self.pool@;
        let mut worker = self.pool[w];
        let r = worker.respond(result);
        self.pool.set(w, worker);
        proof {
            lemma_live_update(p0, w as int, worker);
            assert(worker == (Worker { cid: p0[w as int].cid, state: State::WaitForReq }));
        }
        r
    }

    /// Whether every worker has taken its `Shutdown`.
    pub fn all_done(&self) -> (r: bool)
        ensures
            r == forall|i: int| 0 <= i < self.pool@.len() ==> #[trigger] self.pool@[i].state == State::Done,
    {
        let mut i: usize = 0;
        while i < self.pool.len()
            invariant
                0 <= i <= self.pool@.len(),
                forall|k: int| 0 <= k < i ==> #[trigger] self.pool@[k].state == State::Done,
            decreases self.pool@.len() - i,
        {
            if self.pool[i].state != State::Done {
                return false;
            }
            i += 1;
        }
        true
    }
}

/// Workers have distinct CIDs, so no two live VMs of one pool share a CID.
pub proof fn lemma_cids_distinct(p: WorkerPool, i: int, j: int)
    requires
        p.wf(),
        0 <= i < p.pool@.len(),
        0 <= j < p.pool@.len(),
        i != j,
    ensures
        p.pool@[i].cid != p.pool@[j].cid,
{
}

/// Once the queue is drained, the requests handed to workers are exactly the requests
/// queued: as many, in the same order, each with its own destination. None is lost,
/// none is taken twice, and no response can go to another request's destination.
pub proof fn lemma_drained_all_served(p: WorkerPool)
    requires
        p.wf(),
        p.queue@.len() == 0,
    ensures
        p.served@ == p.submitted@,
{
    assert(queued_dests(p.queue@) == Seq::<ReplyDest>::empty());
    assert(p.served@ + Seq::<ReplyDest>::empty() =~= p.served@);
}

/// Once shutdown has begun and the queue has been drained, every worker is done: the
/// `Shutdown` messages match the waiting workers one for one, so none is left waiting.
pub proof fn lemma_drained_means_done(p: WorkerPool)
    requires
        p.wf(),
        p.shutting_down,
        p.queue@.len() == 0,
    ensures
        forall|i: int| 0 <= i < p.pool@.len() ==> #[trigger] p.pool@[i].state == State::Done,
{
    lemma_live_none(p.pool@);
}

} // verus!
