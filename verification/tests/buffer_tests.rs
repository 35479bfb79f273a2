use async_logger::buf::{DoubleBuffer, FixedBuffer};
use async_logger::count_down_latch::CountDownLatch;
use async_logger::writer::{RollingPolicy, RollingSink};

#[test]
fn fixed_buffer_starts_empty() {
    let b = FixedBuffer::<16>::new();
    assert_eq!(b.avail(), 16);
    assert_eq!(b.data().len(), 0);
}

#[test]
fn fixed_buffer_append() {
    let mut b = FixedBuffer::<8>::new();
    let n = b.append(b"hello");
    assert_eq!(n, 5);
    assert_eq!(b.avail(), 3);
    assert_eq!(b.data().as_slice(), b"hello");
}

#[test]
fn fixed_buffer_append_overflow() {
    let mut b = FixedBuffer::<8>::new();
    let n = b.append(b"hello world");
    assert_eq!(n, 8);
    assert_eq!(b.avail(), 0);
    assert_eq!(b.data().as_slice(), b"hello wo");
}

#[test]
fn double_buffer_writes_in_seal_order() {
    let mut db = DoubleBuffer::<16>::default();
    let mut sealed = 0;
    for line in [
        b"aaaaaaaaaaaa" as &[u8],
        b"bbbbbbbbbbbb",
        b"cccccccccccc",
        b"dddddddddddd",
    ] {
        if db.append(line) {
            sealed += 1;
        }
    }
    assert_eq!(sealed, 3);
    assert_eq!(db.pending_count(), 3);
    let mut backup2 = Some(FixedBuffer::new());
    let out = db.drain(FixedBuffer::new(), &mut backup2);
    assert_eq!(out.len(), 4);
    let mut all: Vec<u8> = Vec::new();
    for b in &out {
        all.extend_from_slice(b.data().as_slice());
    }
    assert_eq!(
        all,
        b"aaaaaaaaaaaabbbbbbbbbbbbccccccccccccdddddddddddd".to_vec()
    );
    assert_eq!(db.pending_count(), 0);
}

#[test]
fn exact_fit_line_stays_in_place() {
    let mut db = DoubleBuffer::<8>::default();
    let sealed = db.append(b"12345678");
    assert!(!sealed);
    assert_eq!(db.pending_count(), 0);
    let sealed_next = db.append(b"next");
    assert!(sealed_next);
    assert_eq!(db.pending_count(), 1);
}

#[test]
fn drain_consumes_second_backup_only_when_spare_missing() {
    let mut db = DoubleBuffer::<8>::default();
    db.append(b"0123456789");
    let mut backup2 = Some(FixedBuffer::new());
    let out = db.drain(FixedBuffer::new(), &mut backup2);
    assert_eq!(out.len(), 2);
    assert!(backup2.is_none());

    let mut backup2 = Some(FixedBuffer::new());
    let out = db.drain(FixedBuffer::new(), &mut backup2);
    assert_eq!(out.len(), 1);
    assert!(backup2.is_some());
}

#[test]
fn latch_opens_once_count_reaches_zero() {
    let mut latch = CountDownLatch::new(1);
    assert!(!latch.wait());
    assert!(latch.count_down());
    assert!(latch.wait());

    let mut two = CountDownLatch::new(2);
    assert!(!two.count_down());
    assert!(!two.wait());
    assert!(two.count_down());
    assert!(two.wait());
}

#[test]
fn policy_rotates_at_threshold() {
    let mut p = RollingPolicy::new(8);
    assert!(!p.should_rotate());
    p.note_write(7);
    assert!(!p.should_rotate());
    p.note_write(1);
    assert!(p.should_rotate());
    p.on_rotated();
    assert!(!p.should_rotate());
}

#[test]
fn sink_rolls_into_new_segment() {
    let mut sink = RollingSink::new(8);
    assert!(!sink.append(b"abcdefg\n"));
    assert_eq!(sink.segment_count(), 1);
    assert!(sink.append(b"hijklmn\n"));
    assert_eq!(sink.segment_count(), 2);
    assert_eq!(sink.segment(0).as_slice(), b"abcdefg\n");
    assert_eq!(sink.segment(1).as_slice(), b"hijklmn\n");
    sink.flush();
    sink.flush();
    assert_eq!(sink.flush_count(), 2);
}

#[test]
fn sink_small_writes_share_a_segment() {
    let mut sink = RollingSink::new(100);
    sink.append(b"one ");
    sink.append(b"two ");
    sink.append(b"three");
    assert_eq!(sink.segment_count(), 1);
    assert_eq!(sink.segment(0).as_slice(), b"one two three");
}

#[test]
fn log_file_name_joins_parts() {
    let name = async_logger::writer::log_file_name("/tmp/async", "20240101-000000");
    assert_eq!(name, "/tmp/async-20240101-000000.log");
}

#[test]
fn next_log_file_name_is_stamped() {
    let name = async_logger::writer::next_log_file_name("/tmp/async");
    assert!(name.starts_with("/tmp/async-"));
    assert!(name.ends_with(".log"));
    assert!(name.len() > "/tmp/async-.log".len());
}
