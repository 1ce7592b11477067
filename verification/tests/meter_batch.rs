use phm_worker::meter_batch::{
    flush_batch, run_meter_batch_reporter, FlushStep, MeterBatchReporter, PendingBatch,
    ReporterEvent, BATCH_RETRY_INTERVAL_NANOS, BATCH_RETRY_INTERVAL_SECS, FLUSH_INTERVAL_SECS,
    MAX_BATCH_RETENTION_NANOS, MAX_BATCH_RETENTION_SECS, MAX_BATCH_RETRY_ATTEMPTS,
};

const SECOND: u128 = 1_000_000_000;

fn batch(points: Vec<u32>) -> PendingBatch<u32> {
    let mut buffer = points;
    flush_batch(&mut buffer).unwrap()
}

fn retried(step: FlushStep<u32>) -> PendingBatch<u32> {
    match step {
        FlushStep::Retry { batch, after_secs } => {
            assert_eq!(after_secs, 5);
            batch
        }
        FlushStep::Delivered => panic!("delivered"),
        FlushStep::Dropped { .. } => panic!("dropped"),
    }
}

#[test]
fn limits_are_these() {
    assert_eq!(FLUSH_INTERVAL_SECS, 5);
    assert_eq!(BATCH_RETRY_INTERVAL_SECS, 5);
    assert_eq!(MAX_BATCH_RETRY_ATTEMPTS, 12);
    assert_eq!(MAX_BATCH_RETENTION_SECS, 300);
    assert_eq!(BATCH_RETRY_INTERVAL_NANOS, SECOND * BATCH_RETRY_INTERVAL_SECS as u128);
    assert_eq!(MAX_BATCH_RETENTION_NANOS, SECOND * MAX_BATCH_RETENTION_SECS as u128);
}

#[test]
fn empty_buffer_is_not_flushed() {
    let mut buffer: Vec<u32> = vec![];
    assert!(flush_batch(&mut buffer).is_none());
}

#[test]
fn flush_takes_the_whole_buffer() {
    let mut buffer = vec![1, 2, 3];
    let batch = flush_batch(&mut buffer).unwrap();
    assert!(buffer.is_empty());
    assert_eq!(*batch.points(), vec![1, 2, 3]);
    assert_eq!(batch.failures(), 0);
}

#[test]
fn success_delivers_at_any_time() {
    assert!(matches!(batch(vec![1]).attempted(true, 0), FlushStep::Delivered));
    assert!(matches!(batch(vec![1]).attempted(true, u128::MAX), FlushStep::Delivered));
    let kept = retried(batch(vec![1]).attempted(false, 1));
    assert!(matches!(kept.attempted(true, 2), FlushStep::Delivered));
}

#[test]
fn failed_batch_is_kept_and_retried() {
    let kept = retried(batch(vec![7, 8]).attempted(false, 1));
    assert_eq!(*kept.points(), vec![7, 8]);
    assert_eq!(kept.failures(), 1);
    let kept = retried(kept.attempted(false, 295 * SECOND - 1));
    assert_eq!(*kept.points(), vec![7, 8]);
    assert_eq!(kept.failures(), 2);
}

#[test]
fn too_many_failures_drop_a_batch() {
    let mut kept = batch(vec![1, 2]);
    for n in 1..12 {
        kept = retried(kept.attempted(false, n));
        assert_eq!(kept.failures() as u128, n);
    }
    match kept.attempted(false, 12) {
        FlushStep::Dropped { failures, count } => {
            assert_eq!(failures, 12);
            assert_eq!(count, 2);
        }
        _ => panic!("kept"),
    }
}

#[test]
fn too_much_time_drops_a_batch() {
    for elapsed_ns in [295 * SECOND, 298 * SECOND, MAX_BATCH_RETENTION_NANOS, u128::MAX] {
        match batch(vec![1, 2, 3]).attempted(false, elapsed_ns) {
            FlushStep::Dropped { failures, count } => {
                assert_eq!(failures, 1);
                assert_eq!(count, 3);
            }
            _ => panic!("kept"),
        }
    }
}

#[test]
fn no_send_begins_past_the_retention() {
    let mut kept = batch(vec![1]);
    let mut begins: u128 = 0;
    loop {
        let ends = begins + 40 * SECOND;
        match kept.attempted(false, ends) {
            FlushStep::Retry { batch, after_secs } => {
                begins = ends + after_secs as u128 * SECOND;
                assert!(begins < MAX_BATCH_RETENTION_NANOS);
                kept = batch;
            }
            FlushStep::Dropped { failures, .. } => {
                assert_eq!(failures, 7);
                return;
            }
            FlushStep::Delivered => panic!("delivered"),
        }
    }
}

#[test]
fn reporter_flushes_every_point_once() {
    let mut reporter = MeterBatchReporter::new();
    let mut batches: Vec<Vec<u32>> = vec![];
    let events = vec![
        ReporterEvent::Tick,
        ReporterEvent::Received(1),
        ReporterEvent::Received(2),
        ReporterEvent::Tick,
        ReporterEvent::Tick,
        ReporterEvent::Received(3),
        ReporterEvent::Closed,
    ];
    let mut stopped = false;
    for event in events {
        assert!(!stopped);
        let step = run_meter_batch_reporter(&mut reporter, event);
        if let Some(batch) = step.flush {
            batches.push(batch.points().clone());
        }
        stopped = step.stop;
    }
    assert!(stopped);
    assert_eq!(batches, vec![vec![1, 2], vec![3]]);
}

#[test]
fn reporter_ends_without_an_empty_flush() {
    let mut reporter: MeterBatchReporter<u32> = MeterBatchReporter::new();
    let step = run_meter_batch_reporter(&mut reporter, ReporterEvent::Closed);
    assert!(step.flush.is_none());
    assert!(step.stop);
}
