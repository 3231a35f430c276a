//! The per-CPU sampling agent, modeled as a verified state transition.
//!
//! On the capture side one agent instance runs per CPU per sampling
//! interrupt, strictly sequentially on each CPU. It fills that CPU's
//! pre-allocated scratch record and pushes the record into that CPU's
//! output channel; no slot or channel is ever shared between CPUs, so an
//! invocation may touch only the state of its own CPU. The kernel helpers
//! that feed an invocation (task identity, task name, the two bounded
//! stack walks) run outside this library; one invocation's view of their
//! results arrives here as a [`SampleSnapshot`] of plain values, and the
//! transition is verified for every such snapshot.

use vstd::prelude::*;

use crate::event::{
    EventModel, StackTraceEvent, zero_event, MAX_STACK_DEPTH, TASK_COMM_LEN, copy_bytes,
    copy_words,
};

verus! {

/// What the interrupt context and the kernel helpers hand one agent
/// invocation: the sampled task's identity and name, and the outcome of the
/// two depth-bounded stack walks over this CPU's scratch buffers.
pub struct SampleSnapshot {
    /// Process identifier of the interrupted task.
    pub pid: u32,
    /// The task's name, NUL-padded to `TASK_COMM_LEN` bytes; `None` models a
    /// failed name lookup.
    pub comm: Option<Vec<u8>>,
    /// Byte count reported by the kernel-mode stack walk; zero or negative
    /// signals an unwind failure.
    pub kstack_sz: i64,
    /// The kernel stack buffer as the walk left it.
    pub kstack: Vec<u64>,
    /// Byte count reported by the user-mode stack walk.
    pub ustack_sz: i64,
    /// The user stack buffer as the walk left it.
    pub ustack: Vec<u64>,
}

impl SampleSnapshot {
    /// The snapshot's buffers have the record's fixed sizes.
    pub open spec fn wf(&self) -> bool {
        &&& (self.comm matches Some(c) ==> c@.len() == TASK_COMM_LEN)
        &&& self.kstack@.len() == MAX_STACK_DEPTH
        &&& self.ustack@.len() == MAX_STACK_DEPTH
    }
}

/// The process-wide capture-side state: one scratch record and one bounded
/// output channel per online CPU, each owned exclusively by that CPU.
pub struct ProfilerState {
    /// Per-CPU scratch records, reused across invocations.
    pub scratch: Vec<StackTraceEvent>,
    /// Per-CPU output channels, FIFO within each CPU.
    pub channels: Vec<Vec<StackTraceEvent>>,
}

/// The records a channel carries, oldest first, as models.
pub open spec fn channel_models(c: Vec<StackTraceEvent>) -> Seq<EventModel> {
    c@.map_values(|e: StackTraceEvent| e@)
}

impl ProfilerState {
    /// One scratch slot and one channel per CPU, and every scratch record
    /// keeps its fixed buffer sizes.
    pub open spec fn wf(&self) -> bool {
        &&& self.scratch@.len() == self.channels@.len()
        &&& forall|i: int| 0 <= i < self.scratch@.len() ==> (#[trigger] self.scratch@[i]).wf()
    }

    /// Number of CPUs this state was sized for.
    pub open spec fn n_cpus(&self) -> nat {
        self.scratch@.len()
    }

    /// Pre-allocate one zeroed scratch record and one empty channel for each
    /// of `n_cpus` CPUs.
    pub fn new(n_cpus: usize) -> (r: Self)
        ensures
            r.wf(),
            r.n_cpus() == n_cpus,
            forall|i: int|
                0 <= i < n_cpus ==> (#[trigger] r.scratch@[i])@ == zero_event(),
            forall|i: int|
                0 <= i < n_cpus ==> (#[trigger] r.channels@[i])@.len() == 0,
    {
        let mut scratch: Vec<StackTraceEvent> = Vec::new();
        let mut channels: Vec<Vec<StackTraceEvent>> = Vec::new();
        let mut i: usize = 0;
        while i < n_cpus
            invariant
                i <= n_cpus,
                scratch@.len() == i,
                channels@.len() == i,
                forall|j: int| 0 <= j < i ==> (#[trigger] scratch@[j])@ == zero_event(),
                forall|j: int| 0 <= j < i ==> (#[trigger] channels@[j])@.len() == 0,
            decreases n_cpus - i,
        {
            scratch.push(StackTraceEvent::zeroed());
            channels.push(Vec::new());
            i = i + 1;
        }
        let r = ProfilerState { scratch, channels };
        proof {
            assert(forall|i: int|
                0 <= i < n_cpus ==> (#[trigger] r.scratch@[i])@ == zero_event());
            assert(forall|i: int| 0 <= i < r.scratch@.len() ==> (#[trigger] r.scratch@[i]).wf());
        }
        r
    }
}

/// The record a successful invocation leaves in the scratch slot and emits:
/// every field taken from the snapshot, whatever the stack walks reported.
pub open spec fn agent_event(cpu_id: u32, sample: SampleSnapshot) -> EventModel {
    EventModel {
        pid: sample.pid,
        cpu_id: cpu_id,
        comm: (sample.comm->0)@,
        kstack_sz: sample.kstack_sz,
        ustack_sz: sample.ustack_sz,
        kstack: sample.kstack@,
        ustack: sample.ustack@,
    }
}

/// A successful invocation on `cpu_id`: that CPU's scratch record holds the
/// new sample, that CPU's channel grew by exactly that record, and no other
/// CPU's slot or channel changed.
pub open spec fn agent_step_ok(
    pre: ProfilerState,
    post: ProfilerState,
    cpu_id: u32,
    sample: SampleSnapshot,
) -> bool {
    let i = cpu_id as int;
    &&& post.scratch@.len() == pre.scratch@.len()
    &&& post.channels@.len() == pre.channels@.len()
    &&& post.scratch@[i]@ == agent_event(cpu_id, sample)
    &&& channel_models(post.channels@[i]) == channel_models(pre.channels@[i]).push(
        agent_event(cpu_id, sample),
    )
    &&& forall|j: int|
        0 <= j < pre.scratch@.len() && j != i ==> #[trigger] post.scratch@[j] == pre.scratch@[j]
    &&& forall|j: int|
        0 <= j < pre.channels@.len() && j != i ==> #[trigger] post.channels@[j]
            == pre.channels@[j]
}

/// An invocation aborted by a failed task-name lookup: the scratch slot
/// keeps the staged identity fields but the rest of the record, and every
/// channel, is untouched — no partial record is emitted.
pub open spec fn agent_step_comm_failed(
    pre: ProfilerState,
    post: ProfilerState,
    cpu_id: u32,
    sample: SampleSnapshot,
) -> bool {
    let i = cpu_id as int;
    &&& post.scratch@.len() == pre.scratch@.len()
    &&& post.channels@ == pre.channels@
    &&& post.scratch@[i]@ == EventModel {
        pid: sample.pid,
        cpu_id: cpu_id,
        ..pre.scratch@[i]@
    }
    &&& forall|j: int|
        0 <= j < pre.scratch@.len() && j != i ==> #[trigger] post.scratch@[j] == pre.scratch@[j]
}

/// One agent invocation on the CPU `cpu_id`, given what the kernel helpers
/// reported as `sample`.
///
/// If the CPU has no scratch slot the invocation is skipped entirely:
/// success, nothing emitted. If the task-name lookup failed the invocation
/// aborts with a local failure code and emits nothing. Otherwise the filled
/// record is emitted unconditionally — even when both stack walks reported
/// nothing; filtering empty samples is the consumers' concern.
pub fn try_ebpf_example(
    state: &mut ProfilerState,
    cpu_id: u32,
    sample: &SampleSnapshot,
) -> (r: Result<u32, u32>)
    requires
        old(state).wf(),
        sample.wf(),
    ensures
        final(state).wf(),
        final(state).n_cpus() == old(state).n_cpus(),
        (cpu_id as int) >= old(state).n_cpus() ==> r == Ok::<u32, u32>(0) && *final(state)
            == *old(state),
        (cpu_id as int) < old(state).n_cpus() && sample.comm is None ==> r == Err::<u32, u32>(1)
            && agent_step_comm_failed(*old(state), *final(state), cpu_id, *sample),
        (cpu_id as int) < old(state).n_cpus() && sample.comm is Some ==> r == Ok::<u32, u32>(0)
            && agent_step_ok(*old(state), *final(state), cpu_id, *sample),
{
    let idx = cpu_id as usize;
    if idx >= state.scratch.len() {
        // No scratch slot for this CPU: skip the invocation, not an error.
        return Ok(0);
    }
    let mut ev = state.scratch[idx].duplicate();
    ev.pid = sample.pid;
    ev.cpu_id = cpu_id;
    let comm = match &sample.comm {
        None => {
            state.scratch.set(idx, ev);
            return Err(1);
        },
        Some(c) => copy_bytes(c),
    };
    ev.comm = comm;
    // Defensive capture-size queries, as the capture API demands its buffer
    // size in a narrower width; statically they cannot fail.
    let _kcap = match StackTraceEvent::kstack_size() {
        Ok(cap) => cap,
        Err(code) => {
            return Err(code);
        },
    };
    let _ucap = match StackTraceEvent::ustack_size() {
        Ok(cap) => cap,
        Err(code) => {
            return Err(code);
        },
    };
    ev.kstack_sz = sample.kstack_sz;
    ev.ustack_sz = sample.ustack_sz;
    ev.kstack = copy_words(&sample.kstack);
    ev.ustack = copy_words(&sample.ustack);
    let out = ev.duplicate();
    state.scratch.set(idx, ev);
    let chan = &mut state.channels[idx];
    chan.push(out);
    proof {
        assert(channel_models(final(state).channels@[idx as int]) =~= channel_models(
            old(state).channels@[idx as int],
        ).push(agent_event(cpu_id, *sample)));
    }
    Ok(0)
}

/// The agent's entry point: the harness around one invocation. It returns a
/// bare result code in all paths — the capture side never unwinds and never
/// aborts anything beyond the current invocation.
pub fn ebpf_example(state: &mut ProfilerState, cpu_id: u32, sample: &SampleSnapshot) -> (r: u32)
    requires
        old(state).wf(),
        sample.wf(),
    ensures
        final(state).wf(),
        final(state).n_cpus() == old(state).n_cpus(),
        (cpu_id as int) >= old(state).n_cpus() ==> r == 0 && *final(state) == *old(state),
        (cpu_id as int) < old(state).n_cpus() && sample.comm is None ==> r == 1
            && agent_step_comm_failed(*old(state), *final(state), cpu_id, *sample),
        (cpu_id as int) < old(state).n_cpus() && sample.comm is Some ==> r == 0
            && agent_step_ok(*old(state), *final(state), cpu_id, *sample),
{
    match try_ebpf_example(state, cpu_id, sample) {
        Ok(code) => code,
        Err(code) => code,
    }
}

/// The capture side runs where unwinding is impossible: an unrecoverable
/// fault halts just the current instance. The halt is modeled as a bare
/// failure code handed to a harness that performs no further action — no
/// event is emitted and no shared state is touched.
pub fn panic() -> (r: u32)
    ensures
        r == 1,
{
    1
}

/// Per-CPU isolation: two successful invocations on distinct CPUs, with
/// distinct samples, never cross-contaminate — whichever order they land
/// in, each CPU's channel grew by exactly its own sample and each CPU's
/// scratch slot holds exactly its own sample.
pub proof fn lemma_per_cpu_isolation(
    s0: ProfilerState,
    s1: ProfilerState,
    s2: ProfilerState,
    cpu_a: u32,
    sample_a: SampleSnapshot,
    cpu_b: u32,
    sample_b: SampleSnapshot,
)
    requires
        s0.wf(),
        cpu_a != cpu_b,
        (cpu_a as int) < s0.n_cpus(),
        (cpu_b as int) < s0.n_cpus(),
        agent_step_ok(s0, s1, cpu_a, sample_a),
        agent_step_ok(s1, s2, cpu_b, sample_b),
    ensures
        channel_models(s2.channels@[cpu_a as int]) == channel_models(
            s0.channels@[cpu_a as int],
        ).push(agent_event(cpu_a, sample_a)),
        channel_models(s2.channels@[cpu_b as int]) == channel_models(
            s0.channels@[cpu_b as int],
        ).push(agent_event(cpu_b, sample_b)),
        s2.scratch@[cpu_a as int]@ == agent_event(cpu_a, sample_a),
        s2.scratch@[cpu_b as int]@ == agent_event(cpu_b, sample_b),
{
}

} // verus!
