use profile_pipeline::codec::encode_event;
use profile_pipeline::event::StackTraceEvent;
use profile_pipeline::report::{
    build_report, comm_string, dec_string, event_handler, handle_raw_event, stack_prefix,
    FrameResolution, ReportLine,
};

fn comm_bytes(name: &str) -> Vec<u8> {
    let mut v: Vec<u8> = name.as_bytes().to_vec();
    while v.len() < 16 {
        v.push(0);
    }
    v
}

fn worker_event(kstack_sz: i64, ustack_sz: i64) -> StackTraceEvent {
    StackTraceEvent {
        pid: 42,
        cpu_id: 1,
        comm: comm_bytes("worker"),
        kstack_sz,
        ustack_sz,
        kstack: vec![0xffff_8000_1234_0000u64; 128],
        ustack: vec![0x5555_0000u64; 128],
    }
}

#[test]
fn comm_decodes_up_to_first_nul() {
    assert_eq!(comm_string(&comm_bytes("worker")), "worker");
    assert_eq!(comm_string(&comm_bytes("")), "");
}

#[test]
fn comm_without_nul_decodes_all_sixteen_bytes() {
    // Truncation safety: no terminating NUL, exactly the buffer's 16 bytes
    // come out, and nothing past the buffer is read.
    let comm: Vec<u8> = b"0123456789abcdef".to_vec();
    let s = comm_string(&comm);
    assert_eq!(s.len(), 16);
    assert_eq!(s, "0123456789abcdef");
}

#[test]
fn unprintable_comm_bytes_are_replaced() {
    let mut comm = comm_bytes("ab");
    comm[1] = 0xff;
    assert_eq!(comm_string(&comm), "a?");
    let mut tab = comm_bytes("xy");
    tab[0] = 0x09;
    assert_eq!(comm_string(&tab), "?y");
}

#[test]
fn decimal_rendering_is_exact() {
    assert_eq!(dec_string(0), "0");
    assert_eq!(dec_string(7), "7");
    assert_eq!(dec_string(42), "42");
    assert_eq!(dec_string(u32::MAX), "4294967295");
}

#[test]
fn header_renders_as_the_report_prints_it() {
    let line = ReportLine::Header { comm: String::from("worker"), pid: 42, cpu_id: 1 };
    assert_eq!(line.render(), "COMM: worker (pid=42) @ CPU 1");
    assert_eq!(ReportLine::KernelLabel.render(), "Kernel:");
    assert_eq!(ReportLine::NoKernelStack.render(), "No Kernel Stack");
    assert_eq!(ReportLine::UserLabel.render(), "Userspace:");
    assert_eq!(ReportLine::NoUserspaceStack.render(), "No Userspace Stack");
    assert_eq!(ReportLine::Frame(FrameResolution::Resolved(String::from("vfs_read"))).render(), "  vfs_read");
    assert_eq!(ReportLine::Frame(FrameResolution::Unknown).render(), "  unknown");
}

#[test]
fn stack_prefix_hands_over_exactly_the_meaningful_addresses() {
    let mut stack = vec![0u64; 128];
    for (i, slot) in stack.iter_mut().enumerate() {
        *slot = 0x1000 + i as u64;
    }
    // 16 bytes -> the first two addresses, in stack order
    assert_eq!(stack_prefix(&stack, 16), vec![0x1000, 0x1001]);
    // byte counts round down
    assert_eq!(stack_prefix(&stack, 17), vec![0x1000, 0x1001]);
    // non-positive sizes hand over nothing
    assert_eq!(stack_prefix(&stack, 0), Vec::<u64>::new());
    assert_eq!(stack_prefix(&stack, -14), Vec::<u64>::new());
    // oversized counts clamp to the whole fixed buffer
    assert_eq!(stack_prefix(&stack, i64::MAX), stack);
}

#[test]
fn kernel_only_event_reports_header_frames_and_absence_line() {
    // Scenario: pid=42, cpu=1, comm "worker", kstack_sz=16, ustack_sz=0,
    // two kernel addresses.
    let ev = worker_event(16, 0);
    let kres = vec![
        FrameResolution::Resolved(String::from("vfs_read")),
        FrameResolution::Unknown,
    ];
    let lines = build_report(&ev, kres, Vec::new());
    assert_eq!(lines.len(), 5);
    assert!(matches!(&lines[0], ReportLine::Header { comm, pid: 42, cpu_id: 1 } if comm == "worker"));
    assert_eq!(lines[0].render(), "COMM: worker (pid=42) @ CPU 1");
    assert!(matches!(lines[1], ReportLine::KernelLabel));
    assert!(matches!(&lines[2], ReportLine::Frame(FrameResolution::Resolved(n)) if n == "vfs_read"));
    assert!(matches!(lines[3], ReportLine::Frame(FrameResolution::Unknown)));
    assert!(matches!(lines[4], ReportLine::NoUserspaceStack));
}

#[test]
fn unresolved_addresses_degrade_to_unknown_and_do_not_stop_the_rest() {
    // A mocked service that cannot resolve some addresses: each unresolved
    // one is marked unknown on its own and the following frames still appear.
    let ev = worker_event(24, 0);
    let kres = vec![
        FrameResolution::Unknown,
        FrameResolution::Resolved(String::from("schedule")),
        FrameResolution::Unknown,
    ];
    let lines = build_report(&ev, kres, Vec::new());
    assert_eq!(lines.len(), 6);
    assert!(matches!(lines[2], ReportLine::Frame(FrameResolution::Unknown)));
    assert!(matches!(&lines[3], ReportLine::Frame(FrameResolution::Resolved(n)) if n == "schedule"));
    assert!(matches!(lines[4], ReportLine::Frame(FrameResolution::Unknown)));
    // and the next event is still handled
    let ev2 = worker_event(8, 0);
    let lines2 = build_report(&ev2, vec![FrameResolution::Unknown], Vec::new());
    assert_eq!(lines2.len(), 4);
}

#[test]
fn empty_sample_produces_no_report_line() {
    // Scenario: kstack_sz=0, ustack_sz=-14 — no report line at all.
    let ev = worker_event(0, -14);
    assert!(event_handler(&ev).is_empty());
    assert!(build_report(&ev, Vec::new(), Vec::new()).is_empty());
}

#[test]
fn skip_invariant_covers_all_nonpositive_combinations() {
    for (k, u) in [(0i64, 0i64), (-8, 0), (0, -8), (i64::MIN, -1)] {
        let ev = worker_event(k, u);
        assert!(event_handler(&ev).is_empty(), "kstack_sz={k} ustack_sz={u}");
    }
}

#[test]
fn user_stack_with_pid_zero_degrades_to_unknown_frames() {
    // Process 0 names no process, so there is no scope to resolve against;
    // the header and the whole user section are still emitted, with every
    // frame unknown — the sample is never dropped.
    let mut ev = worker_event(0, 16);
    ev.pid = 0;
    let lines = event_handler(&ev);
    assert_eq!(lines.len(), 5);
    assert!(matches!(&lines[0], ReportLine::Header { comm, pid: 0, cpu_id: 1 } if comm == "worker"));
    assert!(matches!(lines[1], ReportLine::NoKernelStack));
    assert!(matches!(lines[2], ReportLine::UserLabel));
    assert!(matches!(lines[3], ReportLine::Frame(FrameResolution::Unknown)));
    assert!(matches!(lines[4], ReportLine::Frame(FrameResolution::Unknown)));
}

#[test]
fn raw_buffer_too_small_is_dropped_silently() {
    assert!(handle_raw_event(&vec![0u8; 100]).is_empty());
}

#[test]
fn raw_empty_sample_round_trips_to_no_report() {
    let ev = worker_event(-3, 0);
    let bytes = encode_event(&ev);
    assert!(handle_raw_event(&bytes).is_empty());
}

#[test]
fn kernel_symbolization_goes_through_the_real_service() {
    // Exercises the kernel-scope symbolization wrapper end to end. Whether
    // or not the running system lets us read kernel symbols, handling never
    // fails and the report keeps its shape: the header, the kernel label,
    // one line per meaningful address (unknown where the service could not
    // answer) and the user-absence line.
    let ev = worker_event(16, 0);
    let lines = event_handler(&ev);
    assert_eq!(lines.len(), 5);
    assert!(matches!(&lines[0], ReportLine::Header { comm, pid: 42, cpu_id: 1 } if comm == "worker"));
    assert!(matches!(lines[1], ReportLine::KernelLabel));
    assert!(matches!(lines[2], ReportLine::Frame(_)));
    assert!(matches!(lines[3], ReportLine::Frame(_)));
    assert!(matches!(lines[4], ReportLine::NoUserspaceStack));
}
