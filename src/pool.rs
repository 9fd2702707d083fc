use vstd::prelude::*;

verus! {

/// The error returned when a pool is asked for zero workers.
#[derive(Debug)]
pub struct PoolCreationError {
    pub message: String,
}

impl PoolCreationError {
    /// An error that carries `message`.
    pub fn new(message: &str) -> (r: PoolCreationError)
        ensures
            r.message@ == message@,
    {
        PoolCreationError { message: message.to_owned() }
    }
}

/// What travels through the shared queue: a job to run, or the order to stop.
pub enum Message<J> {
    NewJob(J),
    Terminate,
}

/// What a worker does with the message it has just received.
pub enum Step<J> {
    Run(J),
    Stop,
}

/// A worker of the pool: its identifier and, until shutdown takes it, the
/// handle of its thread.
pub struct Worker<H> {
    pub id: usize,
    pub thread: Option<H>,
}

/// The message of the error for a pool of zero workers.
pub open spec fn size_error_text() -> Seq<char> {
    "Number of threads must be > 0"@
}

/// The roster that `new_workers` builds: worker `i` has identifier `i` and a
/// live thread handle.
pub open spec fn is_fresh_roster<H>(ws: Seq<Worker<H>>, size: nat) -> bool {
    &&& ws.len() == size
    &&& forall|i: int| 0 <= i < ws.len() ==> (#[trigger] ws[i]).id == i && ws[i].thread is Some
}

/// The roster after shutdown has taken every handle: identifiers kept,
/// no handle left.
pub open spec fn cleared<H>(ws: Seq<Worker<H>>) -> Seq<Worker<H>> {
    ws.map_values(|w: Worker<H>| Worker { id: w.id, thread: None })
}

/// What shutdown hands out, worker by worker in roster order: the identifier
/// and the handle, if one was still there.
pub open spec fn handed_out<H>(ws: Seq<Worker<H>>) -> Seq<(usize, Option<H>)> {
    ws.map_values(|w: Worker<H>| (w.id, w.thread))
}

/// The number of handles that shutdown joins.
pub open spec fn joins<H>(ws: Seq<Worker<H>>) -> nat
    decreases ws.len(),
{
    if ws.len() == 0 {
        0
    } else {
        joins(ws.drop_last()) + if ws.last().thread is Some { 1nat } else { 0nat }
    }
}

/// Builds the workers of a pool of `size` threads, starting each through
/// `spawn` with its identifier, in order `0..size`. Zero workers is refused.
pub fn new_workers<H, F: Fn(usize) -> H>(size: usize, spawn: F) -> (r: Result<
    Vec<Worker<H>>,
    PoolCreationError,
>)
    requires
        forall|i: usize| i < size ==> spawn.requires((i,)),
    ensures
        r is Err <==> size == 0,
        r matches Err(e) ==> e.message@ == size_error_text(),
        r matches Ok(ws) ==> {
            &&& is_fresh_roster(ws@, size as nat)
            &&& forall|i: int|
                0 <= i < size ==> spawn.ensures((i as usize,), (#[trigger] ws@[i]).thread->Some_0)
        },
{
    if size == 0 {
        return Err(PoolCreationError::new("Number of threads must be > 0"));
    }
    let mut workers: Vec<Worker<H>> = Vec::with_capacity(size);
    let mut id: usize = 0;
    while id < size
        invariant
            id <= size,
            forall|i: usize| i < size ==> spawn.requires((i,)),
            is_fresh_roster(workers@, id as nat),
            forall|i: int|
                0 <= i < id ==> spawn.ensures((i as usize,), (#[trigger] workers@[i]).thread->Some_0),
        decreases size - id,
    {
        let handle = spawn(id);
        workers.push(Worker { id, thread: Some(handle) });
        id = id + 1;
    }
    Ok(workers)
}

/// The decision a worker takes on a message: run the job, or stop for good.
pub fn dispatch<J>(message: Message<J>) -> (r: Step<J>)
    ensures
        message matches Message::NewJob(j) ==> r == Step::Run(j),
        message is Terminate ==> r is Stop,
{
    match message {
        Message::NewJob(job) => Step::Run(job),
        Message::Terminate => Step::Stop,
    }
}

/// The messages that start shutdown: one `Terminate` per worker.
pub fn terminate_messages<J, H>(workers: &Vec<Worker<H>>) -> (r: Vec<Message<J>>)
    ensures
        r.len() == workers.len(),
        forall|i: int| 0 <= i < r.len() ==> (#[trigger] r@[i]) is Terminate,
{
    let mut out: Vec<Message<J>> = Vec::new();
    let mut i: usize = 0;
    while i < workers.len()
        invariant
            i <= workers.len(),
            out.len() == i,
            forall|k: int| 0 <= k < out.len() ==> (#[trigger] out@[k]) is Terminate,
        decreases workers.len() - i,
    {
        out.push(Message::Terminate);
        i = i + 1;
    }
    out
}

/// Takes every worker's thread handle, in roster order, leaving none behind,
/// so that no handle can be joined twice.
pub fn take_threads<H>(workers: &mut Vec<Worker<H>>) -> (r: Vec<(usize, Option<H>)>)
    ensures
        r@ == handed_out(old(workers)@),
        final(workers)@ == cleared(old(workers)@),
{
    let mut rest: Vec<Worker<H>> = Vec::new();
    std::mem::swap(&mut rest, workers);
    let ghost orig = rest@;
    let mut out: Vec<(usize, Option<H>)> = Vec::new();
    let mut i: usize = 0;
    let n = rest.len();
    while rest.len() > 0
        invariant
            i + rest.len() == n,
            n == orig.len(),
            rest@ == orig.subrange(i as int, n as int),
            out@ == handed_out(orig.subrange(0, i as int)),
            workers@ == cleared(orig.subrange(0, i as int)),
        decreases rest.len(),
    {
        let w = rest.remove(0);
        workers.push(Worker { id: w.id, thread: None });
        out.push((w.id, w.thread));
        proof {
            assert(out@ =~= handed_out(orig.subrange(0, i + 1)));
            assert(workers@ =~= cleared(orig.subrange(0, i + 1)));
            assert(rest@ =~= orig.subrange(i + 1, n as int));
        }
        i = i + 1;
    }
    proof {
        assert(orig.subrange(0, n as int) =~= orig);
    }
    out
}

/// A freshly built roster carries distinct identifiers, all below `size`.
pub proof fn lemma_fresh_ids_distinct<H>(ws: Seq<Worker<H>>, size: nat)
    requires
        is_fresh_roster(ws, size),
    ensures
        forall|i: int, j: int|
            0 <= i < ws.len() && 0 <= j < ws.len() && i != j ==> (#[trigger] ws[i]).id
                != (#[trigger] ws[j]).id,
        forall|i: int| 0 <= i < ws.len() ==> (#[trigger] ws[i]).id < size,
{
}

/// On a fresh roster, shutdown hands out one live handle per worker, in
/// identifier order: every worker thread is joined, once.
pub proof fn lemma_teardown_joins_every_worker<H>(ws: Seq<Worker<H>>, size: nat)
    requires
        is_fresh_roster(ws, size),
    ensures
        handed_out(ws).len() == size,
        forall|i: int|
            0 <= i < size ==> (#[trigger] handed_out(ws)[i]).0 == i && handed_out(ws)[i].1 is Some,
        joins(ws) == size,
    decreases size,
{
    if size > 0 {
        let rest = ws.drop_last();
        assert(is_fresh_roster(rest, (size - 1) as nat));
        lemma_teardown_joins_every_worker(rest, (size - 1) as nat);
    }
}

/// Shutdown can be run again without fault: once the handles are taken, a
/// second pass hands out no handle at all, so nothing is joined twice.
pub proof fn lemma_teardown_idempotent<H>(ws: Seq<Worker<H>>)
    ensures
        cleared(cleared(ws)) == cleared(ws),
        forall|i: int|
            0 <= i < ws.len() ==> (#[trigger] handed_out(cleared(ws))[i]) == (ws[i].id, None::<H>),
        joins(cleared(ws)) == 0,
{
    assert(cleared(cleared(ws)) =~= cleared(ws));
    lemma_no_joins_when_cleared(ws);
}

proof fn lemma_no_joins_when_cleared<H>(ws: Seq<Worker<H>>)
    ensures
        joins(cleared(ws)) == 0,
    decreases ws.len(),
{
    if ws.len() > 0 {
        assert(cleared(ws).drop_last() =~= cleared(ws.drop_last()));
        lemma_no_joins_when_cleared(ws.drop_last());
    }
}

} // verus!
