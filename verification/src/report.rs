//! The userspace side of the pipeline: decode a raw record, apply the skip
//! invariant, resolve the meaningful stack prefixes through the
//! symbolization service, and assemble a line-oriented report.
//!
//! One consumer runs per CPU, each owning its buffers, so everything here is
//! a function of one record. The symbolization service is an outside
//! collaborator whose answers depend on the machine; its calls stand behind
//! trusted wrappers that promise only what the service documents (one answer
//! per address, in order), and all report assembly after a call is verified
//! for every possible answer.
//!
//! Steady-state handling never fails: an unresolvable address, a pid that
//! names no process, or a whole-request failure of the service all degrade
//! to frames rendered as unknown — the header and both sections are emitted
//! for every non-empty sample, and the remaining addresses and records are
//! never abandoned.

use vstd::prelude::*;
use vstd::string::StringExecFns;

use crate::codec::{decode_event, spec_decode, EVENT_BYTES};
use crate::event::{EventModel, StackTraceEvent, MAX_STACK_DEPTH};

verus! {

/// The symbolization service's verdict on one address: a resolved symbol
/// name, or an explicit unresolved marker.
pub enum FrameResolution {
    /// The address fell inside this symbol.
    Resolved(String),
    /// The address could not be resolved; rendered as unknown, never an error.
    Unknown,
}

/// Model of [`FrameResolution`], with the name as a character sequence.
#[verifier::ext_equal]
pub enum FrameModel {
    /// The address fell inside this symbol.
    Resolved(Seq<char>),
    /// The address could not be resolved.
    Unknown,
}

impl View for FrameResolution {
    type V = FrameModel;

    open spec fn view(&self) -> FrameModel {
        match self {
            FrameResolution::Resolved(name) => FrameModel::Resolved(name@),
            FrameResolution::Unknown => FrameModel::Unknown,
        }
    }
}

/// One line of the human-readable report.
pub enum ReportLine {
    /// The sample's header: task name, pid, originating CPU.
    Header {
        /// Task name, already decoded to displayable text.
        comm: String,
        /// Process identifier of the sampled task.
        pid: u32,
        /// CPU the sample was taken on.
        cpu_id: u32,
    },
    /// Opens the kernel stack section.
    KernelLabel,
    /// The kernel stack walk reported nothing.
    NoKernelStack,
    /// Opens the user stack section.
    UserLabel,
    /// The user stack walk reported nothing.
    NoUserspaceStack,
    /// One stack frame, innermost first within its section.
    Frame(FrameResolution),
}

/// Model of [`ReportLine`].
#[verifier::ext_equal]
pub enum LineModel {
    /// The sample's header: task name, pid, originating CPU.
    Header { comm: Seq<char>, pid: u32, cpu_id: u32 },
    /// Opens the kernel stack section.
    KernelLabel,
    /// The kernel stack walk reported nothing.
    NoKernelStack,
    /// Opens the user stack section.
    UserLabel,
    /// The user stack walk reported nothing.
    NoUserspaceStack,
    /// One stack frame.
    Frame(FrameModel),
}

impl View for ReportLine {
    type V = LineModel;

    open spec fn view(&self) -> LineModel {
        match self {
            ReportLine::Header { comm, pid, cpu_id } => LineModel::Header {
                comm: comm@,
                pid: *pid,
                cpu_id: *cpu_id,
            },
            ReportLine::KernelLabel => LineModel::KernelLabel,
            ReportLine::NoKernelStack => LineModel::NoKernelStack,
            ReportLine::UserLabel => LineModel::UserLabel,
            ReportLine::NoUserspaceStack => LineModel::NoUserspaceStack,
            ReportLine::Frame(f) => LineModel::Frame(f@),
        }
    }
}

/// The models of a vector of report lines.
pub open spec fn lines_model(v: Vec<ReportLine>) -> Seq<LineModel> {
    v@.map_values(|l: ReportLine| l@)
}

/// The models of a vector of frame resolutions.
pub open spec fn frames_model(v: Vec<FrameResolution>) -> Seq<FrameModel> {
    v@.map_values(|f: FrameResolution| f@)
}

// ---------------------------------------------------------------------------
// Task-name decoding
// ---------------------------------------------------------------------------

/// A task-name byte as it is rendered: printable ASCII stands for itself,
/// anything else is replaced by `?`.
pub open spec fn byte_vis(b: u8) -> u8 {
    if 0x20 <= b && b <= 0x7e {
        b
    } else {
        0x3f
    }
}

/// The rendered bytes of a NUL-padded name buffer, read from index `i`:
/// stop at the first NUL or at the end of the buffer, whichever comes first.
pub open spec fn spec_comm_bytes_from(s: Seq<u8>, i: int) -> Seq<u8>
    decreases s.len() - i,
{
    if i < 0 || i >= s.len() || s[i] == 0 {
        Seq::empty()
    } else {
        seq![byte_vis(s[i])] + spec_comm_bytes_from(s, i + 1)
    }
}

/// The displayable text of a name buffer.
pub open spec fn spec_comm_chars(s: Seq<u8>) -> Seq<char> {
    spec_comm_bytes_from(s, 0).map_values(|b: u8| b as char)
}

/// Every rendered name byte is printable ASCII.
proof fn lemma_comm_bytes_printable(s: Seq<u8>, i: int)
    ensures
        forall|k: int|
            0 <= k < spec_comm_bytes_from(s, i).len() ==> 0x20 <= #[trigger] spec_comm_bytes_from(
                s,
                i,
            )[k] < 0x80,
    decreases s.len() - i,
{
    if i < 0 || i >= s.len() || s[i] == 0 {
    } else {
        lemma_comm_bytes_printable(s, i + 1);
        assert forall|k: int|
            0 <= k < spec_comm_bytes_from(s, i).len() implies 0x20 <= #[trigger] spec_comm_bytes_from(
            s,
            i,
        )[k] < 0x80 by {
            if k == 0 {
                assert(spec_comm_bytes_from(s, i)[0] == byte_vis(s[i]));
            } else {
                assert(spec_comm_bytes_from(s, i)[k] == spec_comm_bytes_from(s, i + 1)[k - 1]);
            }
        }
    }
}

fn comm_bytes_from(comm: &Vec<u8>, i: usize) -> (r: Vec<u8>)
    requires
        i <= comm@.len(),
    ensures
        r@ == spec_comm_bytes_from(comm@, i as int),
    decreases comm@.len() - i,
{
    if i >= comm.len() {
        Vec::new()
    } else {
        let b = comm[i];
        if b == 0 {
            Vec::new()
        } else {
            let vis: u8 = if 0x20 <= b && b <= 0x7e {
                b
            } else {
                0x3f
            };
            let mut out: Vec<u8> = Vec::new();
            out.push(vis);
            let mut rest = comm_bytes_from(comm, i + 1);
            out.append(&mut rest);
            proof {
                assert(out@ =~= spec_comm_bytes_from(comm@, i as int));
            }
            out
        }
    }
}

/// Relies on `String::from_utf8_lossy`: ASCII bytes decode to themselves,
/// one character per byte, with nothing replaced.
#[verifier::external_body]
fn ascii_string(bytes: &Vec<u8>) -> (r: String)
    requires
        forall|i: int| 0 <= i < bytes@.len() ==> bytes@[i] < 0x80,
    ensures
        r@.len() == bytes@.len(),
        forall|i: int| 0 <= i < bytes@.len() ==> r@[i] == bytes@[i] as char,
{
    String::from_utf8_lossy(bytes.as_slice()).into_owned()
}

/// The task name as displayable text: read up to the first NUL or to the
/// end of the fixed buffer — never past it — replacing every byte outside
/// printable ASCII, and never failing.
pub fn comm_string(comm: &Vec<u8>) -> (r: String)
    ensures
        r@ == spec_comm_chars(comm@),
{
    let bytes = comm_bytes_from(comm, 0);
    proof {
        lemma_comm_bytes_printable(comm@, 0);
    }
    let s = ascii_string(&bytes);
    proof {
        assert(s@ =~= spec_comm_chars(comm@));
    }
    s
}

/// Truncation safety: a name buffer with no terminating NUL renders to
/// exactly one character per buffer byte — the whole fixed buffer and
/// nothing more.
pub proof fn lemma_comm_truncation(s: Seq<u8>)
    requires
        forall|i: int| 0 <= i < s.len() ==> s[i] != 0,
    ensures
        spec_comm_chars(s).len() == s.len(),
{
    lemma_comm_bytes_len_no_nul(s, 0);
}

proof fn lemma_comm_bytes_len_no_nul(s: Seq<u8>, i: int)
    requires
        0 <= i <= s.len(),
        forall|k: int| 0 <= k < s.len() ==> s[k] != 0,
    ensures
        spec_comm_bytes_from(s, i).len() == s.len() - i,
    decreases s.len() - i,
{
    if i < s.len() {
        lemma_comm_bytes_len_no_nul(s, i + 1);
    }
}

// ---------------------------------------------------------------------------
// Decimal rendering
// ---------------------------------------------------------------------------

/// The character for one decimal digit.
pub open spec fn digit_char(d: int) -> char {
    if d == 0 {
        '0'
    } else if d == 1 {
        '1'
    } else if d == 2 {
        '2'
    } else if d == 3 {
        '3'
    } else if d == 4 {
        '4'
    } else if d == 5 {
        '5'
    } else if d == 6 {
        '6'
    } else if d == 7 {
        '7'
    } else if d == 8 {
        '8'
    } else {
        '9'
    }
}

/// The decimal rendering of a non-negative number, most significant digit
/// first, with no leading zero except for the number 0 itself.
pub open spec fn spec_dec_chars(n: int) -> Seq<char>
    decreases n,
{
    if n < 10 {
        seq![digit_char(n)]
    } else {
        spec_dec_chars(n / 10).push(digit_char(n % 10))
    }
}

fn digit_str(d: u32) -> (s: &'static str)
    requires
        d < 10,
    ensures
        s@ == seq![digit_char(d as int)],
{
    let r: &'static str = if d == 0 {
        "0"
    } else if d == 1 {
        "1"
    } else if d == 2 {
        "2"
    } else if d == 3 {
        "3"
    } else if d == 4 {
        "4"
    } else if d == 5 {
        "5"
    } else if d == 6 {
        "6"
    } else if d == 7 {
        "7"
    } else if d == 8 {
        "8"
    } else {
        "9"
    };
    proof {
        reveal_strlit("0");
        reveal_strlit("1");
        reveal_strlit("2");
        reveal_strlit("3");
        reveal_strlit("4");
        reveal_strlit("5");
        reveal_strlit("6");
        reveal_strlit("7");
        reveal_strlit("8");
        reveal_strlit("9");
        assert(r@ =~= seq![digit_char(d as int)]);
    }
    r
}

/// The decimal text of a number, digit by digit.
pub fn dec_string(n: u32) -> (s: String)
    ensures
        s@ == spec_dec_chars(n as int),
    decreases n,
{
    if n < 10 {
        digit_str(n).to_owned()
    } else {
        proof {
            assert(n / 10 < n) by (nonlinear_arith)
                requires
                    n >= 10,
            ;
        }
        let mut s = dec_string(n / 10);
        s.append(digit_str(n % 10));
        proof {
            assert(s@ =~= spec_dec_chars(n as int));
        }
        s
    }
}

// ---------------------------------------------------------------------------
// Report shape
// ---------------------------------------------------------------------------

/// The skip invariant's guard: both stack walks reported nothing.
pub open spec fn spec_skip(m: EventModel) -> bool {
    m.kstack_sz <= 0 && m.ustack_sz <= 0
}

/// How many captured addresses of one stack are meaningful: `sz / 8`,
/// clamped to the fixed buffer depth, and none when the walk failed.
pub open spec fn spec_frames(sz: i64) -> int {
    if sz <= 0 {
        0
    } else if sz as int / 8 > MAX_STACK_DEPTH {
        MAX_STACK_DEPTH as int
    } else {
        sz as int / 8
    }
}

/// `n` frames all marked unknown: what a degraded resolution looks like.
pub open spec fn unknown_seq(n: int) -> Seq<FrameModel> {
    Seq::new(n as nat, |i: int| FrameModel::Unknown)
}

/// Exec counterpart of [`spec_frames`].
pub fn frame_count(sz: i64) -> (n: usize)
    ensures
        n == spec_frames(sz),
{
    if sz <= 0 {
        0
    } else if sz >= 1024 {
        MAX_STACK_DEPTH
    } else {
        (sz / 8) as usize
    }
}

fn unknown_frames(n: usize) -> (r: Vec<FrameResolution>)
    ensures
        frames_model(r) == unknown_seq(n as int),
{
    let mut r: Vec<FrameResolution> = Vec::new();
    let mut i: usize = 0;
    while i < n
        invariant
            i <= n,
            r@.len() == i,
            forall|k: int| 0 <= k < i ==> #[trigger] r@[k] is Unknown,
        decreases n - i,
    {
        r.push(FrameResolution::Unknown);
        i = i + 1;
    }
    proof {
        assert(frames_model(r) =~= unknown_seq(n as int));
    }
    r
}

/// One report line per resolution, in stack order.
pub open spec fn spec_frame_lines(rs: Seq<FrameModel>) -> Seq<LineModel> {
    rs.map_values(|f: FrameModel| LineModel::Frame(f))
}

/// One stack's section of the report: its label and one line per frame when
/// the walk succeeded, a single absence line otherwise.
pub open spec fn spec_stack_section(sz: i64, rs: Seq<FrameModel>, kernel: bool) -> Seq<
    LineModel,
> {
    if sz > 0 {
        seq![
            if kernel {
                LineModel::KernelLabel
            } else {
                LineModel::UserLabel
            },
        ] + spec_frame_lines(rs)
    } else {
        seq![
            if kernel {
                LineModel::NoKernelStack
            } else {
                LineModel::NoUserspaceStack
            },
        ]
    }
}

/// The whole report for one record, given the service's resolutions: empty
/// under the skip invariant, else a header followed by the kernel section
/// and the user section.
pub open spec fn spec_report(m: EventModel, kres: Seq<FrameModel>, ures: Seq<FrameModel>) -> Seq<
    LineModel,
> {
    if spec_skip(m) {
        Seq::empty()
    } else {
        seq![
            LineModel::Header { comm: spec_comm_chars(m.comm), pid: m.pid, cpu_id: m.cpu_id },
        ] + spec_stack_section(m.kstack_sz, kres, true) + spec_stack_section(
            m.ustack_sz,
            ures,
            false,
        )
    }
}

/// Skip invariant: a record whose two stack walks both reported nothing
/// yields no report line at all, whatever the resolver would have answered.
pub proof fn lemma_skip_invariant(m: EventModel, kres: Seq<FrameModel>, ures: Seq<FrameModel>)
    requires
        m.kstack_sz <= 0,
        m.ustack_sz <= 0,
    ensures
        spec_report(m, kres, ures).len() == 0,
{
}

fn push_stack_section(out: &mut Vec<ReportLine>, sz: i64, rs: Vec<FrameResolution>, kernel: bool)
    ensures
        lines_model(*final(out)) == lines_model(*old(out)) + spec_stack_section(
            sz,
            frames_model(rs),
            kernel,
        ),
{
    if sz > 0 {
        out.push(
            if kernel {
                ReportLine::KernelLabel
            } else {
                ReportLine::UserLabel
            },
        );
        let mut rest = rs;
        let ghost all = frames_model(rs);
        let ghost done: int = 0;
        proof {
            assert(rest@ =~= rs@.skip(0));
            assert(lines_model(*out) =~= lines_model(*old(out)) + spec_stack_section(
                sz,
                all,
                kernel,
            ).take(1 + done));
        }
        while rest.len() > 0
            invariant
                0 <= done <= all.len(),
                all == frames_model(rs),
                all.len() == rs@.len(),
                rest@ =~= rs@.skip(done),
                lines_model(*out) == lines_model(*old(out)) + spec_stack_section(
                    sz,
                    all,
                    kernel,
                ).take(1 + done),
                sz > 0,
            decreases rest@.len(),
        {
            proof {
                assert(rest@[0] == rs@[done]);
            }
            let ghost pre_lines = lines_model(*out);
            let f = rest.remove(0);
            proof {
                assert(f@ == all[done]);
            }
            out.push(ReportLine::Frame(f));
            proof {
                let sect = spec_stack_section(sz, all, kernel);
                assert(lines_model(*out) =~= pre_lines.push(LineModel::Frame(f@)));
                assert(sect[1 + done] == spec_frame_lines(all)[done]);
                assert(spec_frame_lines(all)[done] == LineModel::Frame(all[done]));
                assert(sect.take(1 + done + 1) =~= sect.take(1 + done).push(sect[1 + done]));
                done = done + 1;
                assert(lines_model(*out) =~= lines_model(*old(out)) + sect.take(1 + done));
                assert(rest@ =~= rs@.skip(done));
            }
        }
        proof {
            assert(done == all.len());
            assert(spec_stack_section(sz, all, kernel).take(1 + done) =~= spec_stack_section(
                sz,
                all,
                kernel,
            ));
        }
    } else {
        out.push(
            if kernel {
                ReportLine::NoKernelStack
            } else {
                ReportLine::NoUserspaceStack
            },
        );
        proof {
            assert(lines_model(*out) =~= lines_model(*old(out)) + spec_stack_section(
                sz,
                frames_model(rs),
                kernel,
            ));
        }
    }
}

/// Assemble the report for one record from the resolutions the
/// symbolization service returned — exactly the shape of [`spec_report`]:
/// nothing under the skip invariant; otherwise the header, then each
/// kernel frame in stack order (unresolved ones marked unknown, each on its
/// own), then the user section the same way.
pub fn build_report(
    ev: &StackTraceEvent,
    kres: Vec<FrameResolution>,
    ures: Vec<FrameResolution>,
) -> (r: Vec<ReportLine>)
    ensures
        lines_model(r) == spec_report(ev@, frames_model(kres), frames_model(ures)),
{
    if ev.kstack_sz <= 0 && ev.ustack_sz <= 0 {
        // Skip invariant: an empty sample yields no report line.
        let r: Vec<ReportLine> = Vec::new();
        proof {
            assert(lines_model(r) =~= spec_report(ev@, frames_model(kres), frames_model(ures)));
        }
        return r;
    }
    let mut out: Vec<ReportLine> = Vec::new();
    out.push(
        ReportLine::Header { comm: comm_string(&ev.comm), pid: ev.pid, cpu_id: ev.cpu_id },
    );
    push_stack_section(&mut out, ev.kstack_sz, kres, true);
    push_stack_section(&mut out, ev.ustack_sz, ures, false);
    proof {
        assert(lines_model(out) =~= spec_report(ev@, frames_model(kres), frames_model(ures)));
    }
    out
}

// ---------------------------------------------------------------------------
// Symbolization
// ---------------------------------------------------------------------------

/// Declares blazesym's error type so the wrappers below can return it; it
/// is carried opaquely, and a failed request degrades to unknown frames in
/// verified code.
#[verifier::external_type_specification]
#[verifier::external_body]
pub struct ExBlazesymError(blazesym::Error);

/// Relies on blazesym's `Symbolizer::symbolize` with a kernel source (the
/// running kernel's own symbol table, no process scope): on success it
/// returns exactly one answer per input address, in input order, and an
/// unresolvable address becomes an unresolved marker, not an error.
#[verifier::external_body]
fn symbolize_kernel_addrs(addrs: &Vec<u64>) -> (r: Result<Vec<FrameResolution>, blazesym::Error>)
    ensures
        r matches Ok(v) ==> v@.len() == addrs@.len(),
{
    let src = blazesym::symbolize::source::Source::Kernel(blazesym::symbolize::source::Kernel::default());
    let symbolizer = blazesym::symbolize::Symbolizer::new();
    let input = blazesym::symbolize::Input::AbsAddr(addrs.as_slice());
    let syms = symbolizer.symbolize(&src, input)?;
    Ok(syms.into_iter().map(|s| match s {
        blazesym::symbolize::Symbolized::Sym(sym) => {
            FrameResolution::Resolved(sym.name.into_owned())
        },
        blazesym::symbolize::Symbolized::Unknown(_) => FrameResolution::Unknown,
    }).collect())
}

/// Relies on blazesym's `Symbolizer::symbolize` with a process source bound
/// to `pid` (that process's loaded modules): on success it returns exactly
/// one answer per input address, in input order, and an unresolvable
/// address becomes an unresolved marker, not an error. Process 0 is
/// excluded: it does not name a process.
#[verifier::external_body]
fn symbolize_process_addrs(pid: u32, addrs: &Vec<u64>) -> (r: Result<
    Vec<FrameResolution>,
    blazesym::Error,
>)
    requires
        pid != 0,
    ensures
        r matches Ok(v) ==> v@.len() == addrs@.len(),
{
    let nz = core::num::NonZeroU32::new(pid).unwrap();
    let process = blazesym::symbolize::source::Process::new(blazesym::Pid::Pid(nz));
    let src = blazesym::symbolize::source::Source::Process(process);
    let symbolizer = blazesym::symbolize::Symbolizer::new();
    let input = blazesym::symbolize::Input::AbsAddr(addrs.as_slice());
    let syms = symbolizer.symbolize(&src, input)?;
    Ok(syms.into_iter().map(|s| match s {
        blazesym::symbolize::Symbolized::Sym(sym) => {
            FrameResolution::Resolved(sym.name.into_owned())
        },
        blazesym::symbolize::Symbolized::Unknown(_) => FrameResolution::Unknown,
    }).collect())
}

/// The meaningful prefix of one captured stack, exactly as it is handed to
/// the symbolization service: the first `sz / 8` addresses, clamped to the
/// buffer depth, in stack order (innermost first).
pub fn stack_prefix(stack: &Vec<u64>, sz: i64) -> (addrs: Vec<u64>)
    requires
        stack@.len() == MAX_STACK_DEPTH,
    ensures
        addrs@ == stack@.take(spec_frames(sz)),
{
    let n = frame_count(sz);
    let mut addrs: Vec<u64> = Vec::new();
    let mut i: usize = 0;
    while i < n
        invariant
            i <= n,
            n <= stack@.len(),
            addrs@ =~= stack@.take(i as int),
        decreases n - i,
    {
        addrs.push(stack[i]);
        i = i + 1;
    }
    proof {
        assert(addrs@ =~= stack@.take(spec_frames(sz)));
    }
    addrs
}

/// Resolve the meaningful prefix of one captured stack — exactly the
/// addresses `stack[0 .. sz / 8]` (clamped to the buffer depth), in stack
/// order — in one symbolization request. `pid` of `None` asks for
/// kernel-scoped resolution; `Some(p)` for resolution against process `p`'s
/// loaded modules. A non-positive `sz` resolves nothing; a whole-request
/// failure of the service degrades every frame to unknown, so one answer
/// per meaningful address always comes back.
pub fn show_stack_trace(stack: &Vec<u64>, sz: i64, pid: Option<u32>) -> (r: Vec<FrameResolution>)
    requires
        stack@.len() == MAX_STACK_DEPTH,
        pid matches Some(p) ==> p != 0,
    ensures
        frames_model(r).len() == spec_frames(sz),
{
    if sz <= 0 {
        return Vec::new();
    }
    let n = frame_count(sz);
    let addrs = stack_prefix(stack, sz);
    let res = match pid {
        None => symbolize_kernel_addrs(&addrs),
        Some(p) => symbolize_process_addrs(p, &addrs),
    };
    match res {
        Ok(v) => v,
        Err(_) => unknown_frames(n),
    }
}

// ---------------------------------------------------------------------------
// The per-record handler
// ---------------------------------------------------------------------------

/// What handling one record guarantees, for every answer the symbolization
/// service may give. Handling always succeeds:
/// - the skip invariant: an empty sample yields no report line;
/// - the report has exactly the shape of [`spec_report`] for some pair of
///   resolution lists of the meaningful lengths — so a non-empty sample
///   always gets its one header and both sections, whatever the service
///   answered or failed to answer;
/// - a record that asks for process-scoped resolution of process 0 (which
///   no process has) gets its whole user section degraded to unknown
///   frames, nothing dropped.
pub open spec fn handler_post(m: EventModel, r: Vec<ReportLine>) -> bool {
    &&& (spec_skip(m) ==> r@.len() == 0)
    &&& exists|kres: Seq<FrameModel>, ures: Seq<FrameModel>|
        {
            &&& kres.len() == spec_frames(m.kstack_sz)
            &&& ures.len() == spec_frames(m.ustack_sz)
            &&& lines_model(r) == #[trigger] spec_report(m, kres, ures)
        }
    &&& (m.ustack_sz > 0 && m.pid == 0 ==> exists|kres: Seq<FrameModel>|
        {
            &&& kres.len() == spec_frames(m.kstack_sz)
            &&& lines_model(r) == #[trigger] spec_report(
                m,
                kres,
                unknown_seq(spec_frames(m.ustack_sz)),
            )
        })
}

/// Handle one decoded record: apply the skip invariant, resolve the
/// meaningful prefix of each captured stack in its proper scope, and
/// assemble the report. Kernel addresses are always resolved against the
/// kernel's own symbol table, with no process scope; a user stack whose
/// record names process 0 has no process scope to resolve against, so its
/// frames degrade to unknown. Handling one record never fails.
pub fn event_handler(event: &StackTraceEvent) -> (r: Vec<ReportLine>)
    requires
        event.wf(),
    ensures
        handler_post(event@, r),
{
    if event.kstack_sz <= 0 && event.ustack_sz <= 0 {
        // Skip invariant: both stacks absent, no report line at all.
        let empty: Vec<ReportLine> = Vec::new();
        proof {
            let kres = Seq::<FrameModel>::empty();
            let ures = Seq::<FrameModel>::empty();
            assert(lines_model(empty) =~= spec_report(event@, kres, ures));
        }
        return empty;
    }
    let kres = show_stack_trace(&event.kstack, event.kstack_sz, None);
    let ures = if event.ustack_sz <= 0 {
        Vec::new()
    } else if event.pid == 0 {
        // No process is identified by 0: every user frame is unknown.
        unknown_frames(frame_count(event.ustack_sz))
    } else {
        show_stack_trace(&event.ustack, event.ustack_sz, Some(event.pid))
    };
    proof {
        assert(frames_model(kres).len() == spec_frames(event@.kstack_sz));
        assert(frames_model(ures).len() == spec_frames(event@.ustack_sz));
    }
    let lines = build_report(event, kres, ures);
    proof {
        assert(spec_report(event@, frames_model(kres), frames_model(ures)) == lines_model(
            lines,
        ));
    }
    lines
}

/// Handle one raw buffer from a CPU's channel: a buffer too small to hold a
/// record is dropped silently (no report line); otherwise the decoded
/// record is handled as by [`event_handler`]. Never fails, never aborts the
/// consumer loop.
pub fn handle_raw_event(buf: &Vec<u8>) -> (r: Vec<ReportLine>)
    ensures
        buf@.len() < EVENT_BYTES ==> r@.len() == 0,
        buf@.len() >= EVENT_BYTES ==> handler_post(spec_decode(buf@), r),
{
    match decode_event(buf) {
        None => Vec::new(),
        Some(ev) => event_handler(&ev),
    }
}

// ---------------------------------------------------------------------------
// Rendering
// ---------------------------------------------------------------------------

/// The text of one report line, as the sink prints it.
pub open spec fn spec_render_line(l: LineModel) -> Seq<char> {
    match l {
        LineModel::Header { comm, pid, cpu_id } => "COMM: "@ + comm + " (pid="@ + spec_dec_chars(
            pid as int,
        ) + ") @ CPU "@ + spec_dec_chars(cpu_id as int),
        LineModel::KernelLabel => "Kernel:"@,
        LineModel::NoKernelStack => "No Kernel Stack"@,
        LineModel::UserLabel => "Userspace:"@,
        LineModel::NoUserspaceStack => "No Userspace Stack"@,
        LineModel::Frame(FrameModel::Resolved(name)) => "  "@ + name,
        LineModel::Frame(FrameModel::Unknown) => "  unknown"@,
    }
}

impl ReportLine {
    /// Render the line to its exact report text.
    pub fn render(&self) -> (s: String)
        ensures
            s@ == spec_render_line(self@),
    {
        match self {
            ReportLine::Header { comm, pid, cpu_id } => {
                let mut s = "COMM: ".to_owned();
                s.append(comm.as_str());
                s.append(" (pid=");
                let p = dec_string(*pid);
                s.append(p.as_str());
                s.append(") @ CPU ");
                let c = dec_string(*cpu_id);
                s.append(c.as_str());
                proof {
                    assert(s@ =~= spec_render_line(self@));
                }
                s
            },
            ReportLine::KernelLabel => "Kernel:".to_owned(),
            ReportLine::NoKernelStack => "No Kernel Stack".to_owned(),
            ReportLine::UserLabel => "Userspace:".to_owned(),
            ReportLine::NoUserspaceStack => "No Userspace Stack".to_owned(),
            ReportLine::Frame(FrameResolution::Resolved(name)) => {
                let mut s = "  ".to_owned();
                s.append(name.as_str());
                proof {
                    assert(s@ =~= spec_render_line(self@));
                }
                s
            },
            ReportLine::Frame(FrameResolution::Unknown) => "  unknown".to_owned(),
        }
    }
}

} // verus!
