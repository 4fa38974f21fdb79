use gfx_core::command::{AccessInfo, AccessGuard};
use gfx_core::handle::RawBuffer;
use gfx_core::mapping::MappingGates;
use gfx_core::SubmissionError;

fn sorted(mut v: Vec<u64>) -> Vec<u64> {
    v.sort();
    v
}

#[test]
fn new_access_info_is_empty() {
    let info = AccessInfo::new();
    assert!(!info.has_mapped_reads());
    assert!(!info.has_mapped_writes());
    assert!(info.mapped_reads().is_empty());
    assert!(info.mapped_writes().is_empty());
}

#[test]
fn unmapped_buffers_are_not_recorded() {
    let mut info = AccessInfo::new();
    info.buffer_read(&RawBuffer::new(1, false));
    info.buffer_write(&RawBuffer::new(2, false));
    assert!(!info.has_mapped_reads());
    assert!(!info.has_mapped_writes());
}

#[test]
fn mapped_buffers_are_recorded_once() {
    let mut info = AccessInfo::new();
    info.buffer_read(&RawBuffer::new(3, true));
    info.buffer_read(&RawBuffer::new(3, true));
    info.buffer_read(&RawBuffer::new(4, true));
    info.buffer_write(&RawBuffer::new(5, true));
    assert!(info.has_mapped_reads());
    assert!(info.has_mapped_writes());
    assert_eq!(sorted(info.mapped_reads()), vec![3, 4]);
    assert_eq!(info.mapped_writes(), vec![5]);
}

#[test]
fn clear_forgets_everything() {
    let mut info = AccessInfo::new();
    info.buffer_read(&RawBuffer::new(3, true));
    info.buffer_write(&RawBuffer::new(5, true));
    info.clear();
    assert!(!info.has_mapped_reads());
    assert!(!info.has_mapped_writes());
}

#[test]
fn clone_and_equality() {
    let mut info = AccessInfo::new();
    info.buffer_read(&RawBuffer::new(3, true));
    info.buffer_write(&RawBuffer::new(5, true));
    let copy = info.clone();
    assert!(copy == info);
    let mut other = AccessInfo::new();
    other.buffer_read(&RawBuffer::new(5, true));
    other.buffer_write(&RawBuffer::new(3, true));
    assert!(other != info);
}

#[test]
fn taking_and_releasing_accesses() {
    let mut gates = MappingGates::new();
    let mut info = AccessInfo::new();
    info.buffer_read(&RawBuffer::new(1, true));
    info.buffer_write(&RawBuffer::new(2, true));
    info.buffer_read(&RawBuffer::new(7, false));
    let guard = info.take_accesses(&mut gates).ok().unwrap();
    assert!(gates.is_accessed(1));
    assert!(gates.is_accessed(2));
    assert!(!gates.is_accessed(7));
    guard.release(&mut gates);
    assert!(!gates.is_accessed(1));
    assert!(!gates.is_accessed(2));
}

#[test]
fn held_accesses_exclude_overlapping_commands() {
    let mut gates = MappingGates::new();
    let mut first = AccessInfo::new();
    first.buffer_write(&RawBuffer::new(1, true));
    let mut second = AccessInfo::new();
    second.buffer_read(&RawBuffer::new(1, true));
    let guard = first.take_accesses(&mut gates).ok().unwrap();
    match second.take_accesses(&mut gates) {
        Err(e) => assert_eq!(e, SubmissionError::AccessOverlap),
        Ok(_) => panic!("overlapping accesses were taken twice"),
    }
    guard.release(&mut gates);
    let again = second.take_accesses(&mut gates).ok().unwrap();
    assert!(gates.is_accessed(1));
    again.release(&mut gates);
    assert!(!gates.is_accessed(1));
}

#[test]
fn disjoint_accesses_coexist() {
    let mut gates = MappingGates::new();
    let mut first = AccessInfo::new();
    first.buffer_write(&RawBuffer::new(1, true));
    let mut second = AccessInfo::new();
    second.buffer_read(&RawBuffer::new(2, true));
    let a = first.take_accesses(&mut gates).ok().unwrap();
    let b = second.take_accesses(&mut gates).ok().unwrap();
    assert!(gates.is_accessed(1) && gates.is_accessed(2));
    a.release(&mut gates);
    b.release(&mut gates);
    assert!(!gates.is_accessed(1) && !gates.is_accessed(2));
}

#[test]
fn reading_and_writing_one_buffer_overlaps() {
    let mut gates = MappingGates::new();
    let mut info = AccessInfo::new();
    info.buffer_read(&RawBuffer::new(9, true));
    info.buffer_write(&RawBuffer::new(9, true));
    let res = info.take_accesses(&mut gates);
    assert!(matches!(res, Err(SubmissionError::AccessOverlap)));
    // the read access was taken before the write failed, and stays taken
    assert!(gates.is_accessed(9));
}

#[test]
fn guard_hands_out_reads_then_writes() {
    let mut gates = MappingGates::new();
    let mut info = AccessInfo::new();
    info.buffer_read(&RawBuffer::new(1, true));
    info.buffer_read(&RawBuffer::new(2, true));
    info.buffer_write(&RawBuffer::new(3, true));
    let mut guard: AccessGuard = info.take_accesses(&mut gates).ok().unwrap();
    let mut reads = Vec::new();
    let mut it = guard.access_mapped_reads();
    while let Some(b) = it.next() {
        reads.push(b);
    }
    assert_eq!(sorted(reads), vec![1, 2]);
    let mut writes = guard.access_mapped_writes();
    assert_eq!(writes.next(), Some(3));
    assert_eq!(writes.next(), None);
    let mut all = Vec::new();
    let mut chain = guard.access_mapped();
    while let Some(b) = chain.next() {
        all.push(b);
    }
    assert_eq!(all.len(), 3);
    assert_eq!(all[2], 3);
    assert_eq!(sorted(all[..2].to_vec()), vec![1, 2]);
    assert!(guard.has_mapped_reads());
    guard.release(&mut gates);
}

#[test]
fn gates_take_and_release() {
    let mut gates = MappingGates::new();
    assert!(gates.take_access(4));
    assert!(!gates.take_access(4));
    gates.release_access(4);
    assert!(!gates.is_accessed(4));
    assert!(gates.take_access(4));
}

#[test]
fn listings_follow_one_order() {
    let mut gates = MappingGates::new();
    let mut info = AccessInfo::new();
    for id in 1..20u64 {
        info.buffer_read(&RawBuffer::new(id, true));
        info.buffer_write(&RawBuffer::new(100 + id, true));
    }
    let reads = info.mapped_reads();
    let writes = info.mapped_writes();
    assert_eq!(info.mapped_reads(), reads);
    assert_eq!(info.mapped_writes(), writes);
    let mut guard = info.take_accesses(&mut gates).ok().unwrap();
    assert_eq!(guard.mapped_reads(), reads);
    let mut handed = Vec::new();
    let mut it = guard.access_mapped_reads();
    while let Some(b) = it.next() {
        handed.push(b);
    }
    assert_eq!(handed, reads);
    let mut chain = guard.access_mapped();
    let mut all = Vec::new();
    while let Some(b) = chain.next() {
        all.push(b);
    }
    let mut expected = reads.clone();
    expected.extend(writes.iter().copied());
    assert_eq!(all, expected);
    // exhausted hand-outs give nothing for ever
    assert_eq!(chain.next(), None);
    assert_eq!(chain.next(), None);
    assert_eq!(it.next(), None);
    guard.release(&mut gates);
}

#[test]
fn failed_taking_keeps_the_accesses_before_the_overlap() {
    let mut gates = MappingGates::new();
    let mut info = AccessInfo::new();
    for id in 1..10u64 {
        info.buffer_read(&RawBuffer::new(id, true));
    }
    let reads = info.mapped_reads();
    let blocked = reads[4];
    assert!(gates.take_access(blocked));
    assert!(info.take_accesses(&mut gates).is_err());
    for (k, b) in reads.iter().enumerate() {
        assert_eq!(gates.is_accessed(*b), k <= 4, "buffer {}", b);
    }
}

#[test]
fn recorded_buffers_are_the_mapped_ones() {
    let mut info = AccessInfo::new();
    info.buffer_write(&RawBuffer::new(8, true));
    info.clear();
    let buffers = [RawBuffer::new(1, true), RawBuffer::new(2, false), RawBuffer::new(1, true), RawBuffer::new(3, true)];
    for b in buffers.iter() {
        info.buffer_read(b);
        info.buffer_write(b);
    }
    assert_eq!(sorted(info.mapped_reads()), vec![1, 3]);
    assert_eq!(sorted(info.mapped_writes()), vec![1, 3]);
}
