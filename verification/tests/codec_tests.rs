use profile_pipeline::codec::{decode_event, encode_event, EVENT_BYTES};
use profile_pipeline::event::StackTraceEvent;

fn comm_bytes(name: &str) -> Vec<u8> {
    let mut v: Vec<u8> = name.as_bytes().to_vec();
    while v.len() < 16 {
        v.push(0);
    }
    v
}

fn sample_event() -> StackTraceEvent {
    let mut kstack = vec![0u64; 128];
    let mut ustack = vec![0u64; 128];
    for i in 0..128 {
        kstack[i] = 0xffff_8000_0000_0000u64 + (i as u64) * 0x10;
        ustack[i] = 0x0000_5555_0000_0000u64 + (i as u64) * 0x8;
    }
    kstack[127] = u64::MAX;
    StackTraceEvent {
        pid: 4242,
        cpu_id: 3,
        comm: comm_bytes("worker"),
        kstack_sz: 16,
        ustack_sz: -14,
        kstack,
        ustack,
    }
}

#[test]
fn stack_size_queries_report_fixed_capacity() {
    assert_eq!(StackTraceEvent::kstack_size(), Ok(1024));
    assert_eq!(StackTraceEvent::ustack_size(), Ok(1024));
}

#[test]
fn zeroed_event_has_fixed_buffer_sizes() {
    let ev = StackTraceEvent::zeroed();
    assert_eq!(ev.pid, 0);
    assert_eq!(ev.cpu_id, 0);
    assert_eq!(ev.comm.len(), 16);
    assert_eq!(ev.kstack.len(), 128);
    assert_eq!(ev.ustack.len(), 128);
    assert!(ev.comm.iter().all(|b| *b == 0));
    assert!(ev.kstack.iter().all(|w| *w == 0));
}

#[test]
fn encoded_record_has_fixed_size_and_layout() {
    let ev = sample_event();
    let bytes = encode_event(&ev);
    assert_eq!(bytes.len(), EVENT_BYTES);
    // pid at offset 0, little endian
    assert_eq!(&bytes[0..4], &4242u32.to_le_bytes());
    // cpu_id at offset 4
    assert_eq!(&bytes[4..8], &3u32.to_le_bytes());
    // comm at offset 8
    assert_eq!(&bytes[8..24], ev.comm.as_slice());
    // kstack_sz at offset 24 as two's-complement little endian
    assert_eq!(&bytes[24..32], &16i64.to_le_bytes());
    // ustack_sz at offset 32, negative value
    assert_eq!(&bytes[32..40], &(-14i64).to_le_bytes());
    // first kstack word at offset 40
    assert_eq!(&bytes[40..48], &ev.kstack[0].to_le_bytes());
    // last ustack word at the end
    assert_eq!(&bytes[2080..2088], &ev.ustack[127].to_le_bytes());
}

#[test]
fn layout_round_trip_preserves_every_field() {
    let ev = sample_event();
    let bytes = encode_event(&ev);
    let back = decode_event(&bytes).expect("full-size buffer must decode");
    assert_eq!(back.pid, ev.pid);
    assert_eq!(back.cpu_id, ev.cpu_id);
    assert_eq!(back.comm, ev.comm);
    assert_eq!(back.kstack_sz, ev.kstack_sz);
    assert_eq!(back.ustack_sz, ev.ustack_sz);
    assert_eq!(back.kstack, ev.kstack);
    assert_eq!(back.ustack, ev.ustack);
}

#[test]
fn round_trip_holds_at_signed_extremes() {
    let mut ev = sample_event();
    ev.kstack_sz = i64::MIN;
    ev.ustack_sz = i64::MAX;
    let back = decode_event(&encode_event(&ev)).expect("decode");
    assert_eq!(back.kstack_sz, i64::MIN);
    assert_eq!(back.ustack_sz, i64::MAX);
}

#[test]
fn undersized_buffer_is_rejected() {
    let ev = sample_event();
    let mut bytes = encode_event(&ev);
    bytes.pop();
    assert!(decode_event(&bytes).is_none());
    assert!(decode_event(&Vec::new()).is_none());
}

#[test]
fn oversized_buffer_decodes_from_its_prefix() {
    let ev = sample_event();
    let mut bytes = encode_event(&ev);
    bytes.push(0xab);
    bytes.push(0xcd);
    let back = decode_event(&bytes).expect("decode");
    assert_eq!(back.pid, ev.pid);
    assert_eq!(back.ustack, ev.ustack);
}
