use read_to_end::buffer::ByteBuffer;
use read_to_end::drain::DrainStatus;
use read_to_end::read_to_end::ReadToEnd;
use read_to_end::scripted::{ScriptStep, ScriptedSource};

fn scripted(steps: Vec<ScriptStep>, preinit: bool) -> ScriptedSource {
    ScriptedSource::new(steps, preinit)
}

#[test]
fn scenario_chunk_suspend_chunk_eos() {
    let steps = vec![
        ScriptStep::Chunk(vec![1, 2, 3, 4, 5]),
        ScriptStep::Suspend,
        ScriptStep::Chunk(vec![10, 11, 12, 13, 14, 15, 16, 17, 18, 19]),
        ScriptStep::Chunk(vec![]),
    ];
    let mut op = ReadToEnd::new(scripted(steps, true), ByteBuffer::new());
    let r1 = op.poll();
    assert!(matches!(r1, DrainStatus::Pending));
    assert_eq!(op.buffer_len(), 5);
    let r2 = op.poll();
    assert!(matches!(r2, DrainStatus::Done));
    assert_eq!(op.buffer_len(), 15);
    let (_, bytes) = op.into_parts();
    assert_eq!(bytes, vec![1, 2, 3, 4, 5, 10, 11, 12, 13, 14, 15, 16, 17, 18, 19]);
}

#[test]
fn scenario_chunk_then_error() {
    let steps = vec![ScriptStep::Chunk(vec![7, 8, 9]), ScriptStep::Fail(42)];
    let mut op = ReadToEnd::new(scripted(steps, true), ByteBuffer::new());
    let r = op.poll();
    match r {
        DrainStatus::Failed(e) => assert_eq!(e, 42),
        _ => panic!("expected the scripted error"),
    }
    assert_eq!(op.buffer_len(), 3);
    let (_, bytes) = op.into_parts();
    assert_eq!(bytes, vec![7, 8, 9]);
}

#[test]
fn scenario_immediate_eos_leaves_buffer_unchanged() {
    let steps = vec![ScriptStep::Chunk(vec![])];
    let mut op = ReadToEnd::new(scripted(steps, true), ByteBuffer::from_vec(vec![1, 2]));
    let r = op.poll();
    assert!(matches!(r, DrainStatus::Done));
    assert_eq!(op.buffer_len(), 2);
    let (_, bytes) = op.into_parts();
    assert_eq!(bytes, vec![1, 2]);
}

#[test]
fn scenario_large_chunk_without_preinit() {
    let payload: Vec<u8> = (0..1000u32).map(|i| (i % 251) as u8).collect();
    let steps = vec![ScriptStep::Chunk(payload.clone())];
    let mut op = ReadToEnd::new(scripted(steps, false), ByteBuffer::new());
    let r = op.poll();
    assert!(matches!(r, DrainStatus::Done));
    assert_eq!(op.buffer_len(), 1000);
    // Growth doubles from the 32-byte start: 32, 64, ..., 1024.
    assert_eq!(op.buffer_capacity(), 1024);
    let (_, bytes) = op.into_parts();
    assert_eq!(bytes, payload);
}

#[test]
fn content_is_original_plus_all_chunks_in_order() {
    let steps = vec![
        ScriptStep::Chunk(vec![3, 4]),
        ScriptStep::Suspend,
        ScriptStep::Suspend,
        ScriptStep::Chunk(vec![5, 6, 7]),
        ScriptStep::Chunk(vec![8]),
    ];
    let mut op = ReadToEnd::new(scripted(steps, true), ByteBuffer::from_vec(vec![1, 2]));
    let r = op.poll_to_completion();
    assert!(matches!(r, DrainStatus::Done));
    let (_, bytes) = op.into_parts();
    assert_eq!(bytes, vec![1, 2, 3, 4, 5, 6, 7, 8]);
}

#[test]
fn error_after_suspensions_keeps_committed_bytes_only() {
    let steps = vec![
        ScriptStep::Chunk(vec![1]),
        ScriptStep::Suspend,
        ScriptStep::Chunk(vec![2, 3]),
        ScriptStep::Fail(7),
        ScriptStep::Chunk(vec![99]),
    ];
    let mut op = ReadToEnd::new(scripted(steps, true), ByteBuffer::new());
    let r = op.poll_to_completion();
    match r {
        DrainStatus::Failed(e) => assert_eq!(e, 7),
        _ => panic!("expected the scripted error"),
    }
    let (_, bytes) = op.into_parts();
    assert_eq!(bytes, vec![1, 2, 3]);
}

#[test]
fn exhausted_script_reports_eos_again() {
    let mut op = ReadToEnd::new(scripted(vec![], true), ByteBuffer::new());
    assert!(matches!(op.poll(), DrainStatus::Done));
    assert_eq!(op.buffer_len(), 0);
    // Polling again after a terminal outcome stays at end-of-stream and
    // does not disturb the buffer.
    assert!(matches!(op.poll(), DrainStatus::Done));
    assert_eq!(op.buffer_len(), 0);
}

#[test]
fn suspension_only_script_then_eos() {
    let steps = vec![ScriptStep::Suspend, ScriptStep::Suspend];
    let mut op = ReadToEnd::new(scripted(steps, true), ByteBuffer::new());
    assert!(matches!(op.poll(), DrainStatus::Pending));
    assert!(matches!(op.poll(), DrainStatus::Pending));
    assert!(matches!(op.poll(), DrainStatus::Done));
    assert_eq!(op.buffer_len(), 0);
}

#[test]
fn chunk_split_across_small_destinations() {
    // 100 bytes arrive through a 32-byte first destination; the tail of
    // the chunk is delivered by the following attempts.
    let payload: Vec<u8> = (0..100u32).map(|i| i as u8).collect();
    let steps = vec![ScriptStep::Chunk(payload.clone()), ScriptStep::Chunk(vec![])];
    let mut op = ReadToEnd::new(scripted(steps, true), ByteBuffer::new());
    assert!(matches!(op.poll(), DrainStatus::Done));
    let (_, bytes) = op.into_parts();
    assert_eq!(bytes, payload);
}
