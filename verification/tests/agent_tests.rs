use profile_pipeline::agent::{ebpf_example, try_ebpf_example, ProfilerState, SampleSnapshot};

fn comm_bytes(name: &str) -> Vec<u8> {
    let mut v: Vec<u8> = name.as_bytes().to_vec();
    while v.len() < 16 {
        v.push(0);
    }
    v
}

fn snapshot(pid: u32, tag: u64) -> SampleSnapshot {
    SampleSnapshot {
        pid,
        comm: Some(comm_bytes("task")),
        kstack_sz: 24,
        kstack: vec![tag; 128],
        ustack_sz: -1,
        ustack: vec![tag + 1; 128],
    }
}

#[test]
fn successful_invocation_emits_one_record() {
    let mut state = ProfilerState::new(2);
    let sample = snapshot(7, 0x1000);
    let r = try_ebpf_example(&mut state, 0, &sample);
    assert_eq!(r, Ok(0));
    assert_eq!(state.channels[0].len(), 1);
    assert_eq!(state.channels[1].len(), 0);
    let ev = &state.channels[0][0];
    assert_eq!(ev.pid, 7);
    assert_eq!(ev.cpu_id, 0);
    assert_eq!(ev.comm, comm_bytes("task"));
    assert_eq!(ev.kstack_sz, 24);
    assert_eq!(ev.ustack_sz, -1);
    assert_eq!(ev.kstack, vec![0x1000u64; 128]);
    // the scratch slot holds the same record
    assert_eq!(state.scratch[0].pid, 7);
    assert_eq!(state.scratch[0].kstack, vec![0x1000u64; 128]);
}

#[test]
fn empty_sample_is_still_emitted() {
    // Filtering empty samples is the consumers' concern, not the agent's.
    let mut state = ProfilerState::new(1);
    let mut sample = snapshot(9, 0x2000);
    sample.kstack_sz = 0;
    sample.ustack_sz = -14;
    let r = try_ebpf_example(&mut state, 0, &sample);
    assert_eq!(r, Ok(0));
    assert_eq!(state.channels[0].len(), 1);
    assert_eq!(state.channels[0][0].kstack_sz, 0);
    assert_eq!(state.channels[0][0].ustack_sz, -14);
}

#[test]
fn per_cpu_isolation_under_interleaving() {
    // Two CPUs, two distinct patterns, interleaved invocations: each channel
    // and each scratch slot reflects only its own CPU's writes.
    let mut state = ProfilerState::new(2);
    let sample_a = snapshot(1, 0xaaaa);
    let sample_b = snapshot(2, 0xbbbb);
    assert_eq!(try_ebpf_example(&mut state, 0, &sample_a), Ok(0));
    assert_eq!(try_ebpf_example(&mut state, 1, &sample_b), Ok(0));
    assert_eq!(try_ebpf_example(&mut state, 0, &sample_a), Ok(0));
    assert_eq!(state.channels[0].len(), 2);
    assert_eq!(state.channels[1].len(), 1);
    assert!(state.channels[0].iter().all(|e| e.pid == 1 && e.kstack == vec![0xaaaau64; 128]));
    assert!(state.channels[1].iter().all(|e| e.pid == 2 && e.kstack == vec![0xbbbbu64; 128]));
    assert_eq!(state.scratch[0].pid, 1);
    assert_eq!(state.scratch[1].pid, 2);
}

#[test]
fn failed_comm_lookup_aborts_without_emitting() {
    let mut state = ProfilerState::new(1);
    let mut sample = snapshot(5, 0x3000);
    sample.comm = None;
    let r = try_ebpf_example(&mut state, 0, &sample);
    assert_eq!(r, Err(1));
    // nothing emitted, but the staged identity fields reached the slot
    assert_eq!(state.channels[0].len(), 0);
    assert_eq!(state.scratch[0].pid, 5);
    assert_eq!(state.scratch[0].cpu_id, 0);
    // the rest of the slot keeps its previous (zeroed) content
    assert_eq!(state.scratch[0].kstack, vec![0u64; 128]);
}

#[test]
fn missing_scratch_slot_skips_the_invocation() {
    let mut state = ProfilerState::new(2);
    let sample = snapshot(5, 0x4000);
    let r = try_ebpf_example(&mut state, 7, &sample);
    assert_eq!(r, Ok(0));
    assert_eq!(state.channels[0].len(), 0);
    assert_eq!(state.channels[1].len(), 0);
}

#[test]
fn entry_point_returns_a_bare_code() {
    let mut state = ProfilerState::new(1);
    let good = snapshot(6, 0x5000);
    assert_eq!(ebpf_example(&mut state, 0, &good), 0);
    let mut bad = snapshot(6, 0x5000);
    bad.comm = None;
    assert_eq!(ebpf_example(&mut state, 0, &bad), 1);
    // only the successful invocation emitted
    assert_eq!(state.channels[0].len(), 1);
}

#[test]
fn fault_handler_yields_a_failure_code() {
    assert_eq!(profile_pipeline::agent::panic(), 1);
}
