//! The fixed-layout sample record shared by the sampling agent and the
//! userspace consumers, together with its mathematical model.

use vstd::prelude::*;

verus! {

/// Length in bytes of the fixed task-name buffer.
pub const TASK_COMM_LEN: usize = 16;

/// Maximum number of frames captured from one call stack.
pub const MAX_STACK_DEPTH: usize = 128;

/// Byte capacity of one fixed-depth stack buffer: `MAX_STACK_DEPTH`
/// 64-bit words.
pub const STACK_BYTES: usize = 1024;

/// Mathematical model of one sample record: what the agent writes and the
/// consumers read, with buffers as plain sequences.
#[verifier::ext_equal]
pub struct EventModel {
    /// Process identifier of the sampled task; 0 is not a valid process.
    pub pid: u32,
    /// Index of the CPU the sample was taken on.
    pub cpu_id: u32,
    /// NUL-padded task name, possibly truncated; always `TASK_COMM_LEN` bytes.
    pub comm: Seq<u8>,
    /// Byte length of the captured kernel stack; `<= 0` means absent or error.
    pub kstack_sz: i64,
    /// Byte length of the captured user stack; `<= 0` means absent or error.
    pub ustack_sz: i64,
    /// Kernel stack buffer; only the first `kstack_sz / 8` entries are meaningful.
    pub kstack: Seq<u64>,
    /// User stack buffer; only the first `ustack_sz / 8` entries are meaningful.
    pub ustack: Seq<u64>,
}

impl EventModel {
    /// The record's buffers have their fixed sizes.
    pub open spec fn wf(self) -> bool {
        &&& self.comm.len() == TASK_COMM_LEN
        &&& self.kstack.len() == MAX_STACK_DEPTH
        &&& self.ustack.len() == MAX_STACK_DEPTH
    }
}

/// One sample record. All fields have a compile-time fixed size, because the
/// capture stage runs under a statically bounded memory model: the record is
/// filled in pre-allocated per-CPU scratch storage and shipped to userspace
/// as raw bytes.
pub struct StackTraceEvent {
    /// Process identifier of the sampled task.
    pub pid: u32,
    /// Index of the CPU the sample was taken on.
    pub cpu_id: u32,
    /// NUL-padded task name; held in a vector whose length is always
    /// `TASK_COMM_LEN`.
    pub comm: Vec<u8>,
    /// Byte length of the captured kernel stack; `<= 0` means absent or error.
    pub kstack_sz: i64,
    /// Byte length of the captured user stack; `<= 0` means absent or error.
    pub ustack_sz: i64,
    /// Kernel stack buffer; its length is always `MAX_STACK_DEPTH`.
    pub kstack: Vec<u64>,
    /// User stack buffer; its length is always `MAX_STACK_DEPTH`.
    pub ustack: Vec<u64>,
}

impl View for StackTraceEvent {
    type V = EventModel;

    open spec fn view(&self) -> EventModel {
        EventModel {
            pid: self.pid,
            cpu_id: self.cpu_id,
            comm: self.comm@,
            kstack_sz: self.kstack_sz,
            ustack_sz: self.ustack_sz,
            kstack: self.kstack@,
            ustack: self.ustack@,
        }
    }
}

impl StackTraceEvent {
    /// The record's buffers have their fixed sizes.
    pub open spec fn wf(&self) -> bool {
        self@.wf()
    }

    /// Byte capacity of the kernel stack buffer, in the integer width the
    /// capture API expects. Fails with a distinct error code when the
    /// capacity cannot be represented in that width: a defensive check on a
    /// compile-time constant, not an expected runtime path.
    pub fn kstack_size() -> (r: Result<u32, u32>)
        ensures
            r == Ok::<u32, u32>(STACK_BYTES as u32),
    {
        Self::stack_buffer_size()
    }

    /// Byte capacity of the user stack buffer; see [`Self::kstack_size`].
    pub fn ustack_size() -> (r: Result<u32, u32>)
        ensures
            r == Ok::<u32, u32>(STACK_BYTES as u32),
    {
        Self::stack_buffer_size()
    }

    fn stack_buffer_size() -> (r: Result<u32, u32>)
        ensures
            r == Ok::<u32, u32>(STACK_BYTES as u32),
    {
        let bytes: usize = MAX_STACK_DEPTH * 8;
        if bytes <= u32::MAX as usize {
            Ok(bytes as u32)
        } else {
            Err(1)
        }
    }

    /// A record with every field zeroed: the initial content of a scratch
    /// slot before the first sample overwrites it.
    pub fn zeroed() -> (r: Self)
        ensures
            r.wf(),
            r@ == zero_event(),
    {
        let ev = StackTraceEvent {
            pid: 0,
            cpu_id: 0,
            comm: zero_bytes(TASK_COMM_LEN),
            kstack_sz: 0,
            ustack_sz: 0,
            kstack: zero_words(MAX_STACK_DEPTH),
            ustack: zero_words(MAX_STACK_DEPTH),
        };
        proof {
            assert(ev@ =~= zero_event());
        }
        ev
    }

    /// A field-for-field copy of the record.
    pub fn duplicate(&self) -> (r: Self)
        ensures
            r@ == self@,
    {
        let r = StackTraceEvent {
            pid: self.pid,
            cpu_id: self.cpu_id,
            comm: copy_bytes(&self.comm),
            kstack_sz: self.kstack_sz,
            ustack_sz: self.ustack_sz,
            kstack: copy_words(&self.kstack),
            ustack: copy_words(&self.ustack),
        };
        proof {
            assert(r@ =~= self@);
        }
        r
    }
}

/// The model of a zeroed record.
pub open spec fn zero_event() -> EventModel {
    EventModel {
        pid: 0,
        cpu_id: 0,
        comm: Seq::new(TASK_COMM_LEN as nat, |i: int| 0u8),
        kstack_sz: 0,
        ustack_sz: 0,
        kstack: Seq::new(MAX_STACK_DEPTH as nat, |i: int| 0u64),
        ustack: Seq::new(MAX_STACK_DEPTH as nat, |i: int| 0u64),
    }
}

fn zero_bytes(n: usize) -> (r: Vec<u8>)
    ensures
        r@ =~= Seq::new(n as nat, |i: int| 0u8),
{
    let mut v: Vec<u8> = Vec::new();
    let mut i: usize = 0;
    while i < n
        invariant
            i <= n,
            v@ =~= Seq::new(i as nat, |j: int| 0u8),
        decreases n - i,
    {
        v.push(0);
        i = i + 1;
    }
    v
}

fn zero_words(n: usize) -> (r: Vec<u64>)
    ensures
        r@ =~= Seq::new(n as nat, |i: int| 0u64),
{
    let mut v: Vec<u64> = Vec::new();
    let mut i: usize = 0;
    while i < n
        invariant
            i <= n,
            v@ =~= Seq::new(i as nat, |j: int| 0u64),
        decreases n - i,
    {
        v.push(0);
        i = i + 1;
    }
    v
}

/// A copy of a byte vector, element for element.
pub fn copy_bytes(v: &Vec<u8>) -> (r: Vec<u8>)
    ensures
        r@ == v@,
{
    let mut out: Vec<u8> = Vec::new();
    let mut i: usize = 0;
    while i < v.len()
        invariant
            i <= v@.len(),
            out@ =~= v@.take(i as int),
        decreases v@.len() - i,
    {
        out.push(v[i]);
        i = i + 1;
    }
    proof {
        assert(out@ =~= v@);
    }
    out
}

/// A copy of a word vector, element for element.
pub fn copy_words(v: &Vec<u64>) -> (r: Vec<u64>)
    ensures
        r@ == v@,
{
    let mut out: Vec<u64> = Vec::new();
    let mut i: usize = 0;
    while i < v.len()
        invariant
            i <= v@.len(),
            out@ =~= v@.take(i as int),
        decreases v@.len() - i,
    {
        out.push(v[i]);
        i = i + 1;
    }
    proof {
        assert(out@ =~= v@);
    }
    out
}

} // verus!
