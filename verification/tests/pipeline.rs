use gane::pipeline::batch::{BatchJob, BatchScheduler, BatchStatus};
use gane::pipeline::fields::Fields;
use gane::pipeline::ingestion::{DataFormat, IngestionEngine, Record, SourceConfig, SourceType};
use gane::pipeline::stream::{window_admits, WatermarkTracker, WindowType};
use gane::pipeline::transform::{TransformOp, TransformPipeline};

fn make_fields(pairs: &[(&str, &str)]) -> Fields {
    let mut f = Fields::new();
    for (k, v) in pairs {
        f.insert(k.to_string(), v.to_string());
    }
    f
}

#[test]
fn test_rename_field() {
    let mut pipe = TransformPipeline::new("test");
    pipe.add_op(TransformOp::Rename { from: "lat".to_string(), to: "latitude".to_string() });
    let result = pipe.apply(make_fields(&[("lat", "40.7")])).unwrap();
    assert_eq!(result.get("latitude").unwrap(), "40.7");
    assert!(!result.contains_key("lat"));
}

#[test]
fn test_drop_field() {
    let mut pipe = TransformPipeline::new("test");
    pipe.add_op(TransformOp::Drop("secret".to_string()));
    let result = pipe.apply(make_fields(&[("name", "a"), ("secret", "x")])).unwrap();
    assert!(!result.contains_key("secret"));
    assert!(result.contains_key("name"));
}

#[test]
fn test_add_constant() {
    let mut pipe = TransformPipeline::new("test");
    pipe.add_op(TransformOp::AddConstant { key: "version".to_string(), value: "2.0".to_string() });
    let result = pipe.apply(make_fields(&[])).unwrap();
    assert_eq!(result.get("version").unwrap(), "2.0");
}

#[test]
fn test_uppercase() {
    let mut pipe = TransformPipeline::new("test");
    pipe.add_op(TransformOp::Uppercase("city".to_string()));
    let result = pipe.apply(make_fields(&[("city", "tokyo")])).unwrap();
    assert_eq!(result.get("city").unwrap(), "TOKYO");
}

#[test]
fn test_lowercase() {
    let mut pipe = TransformPipeline::new("test");
    pipe.add_op(TransformOp::Lowercase("code".to_string()));
    let result = pipe.apply(make_fields(&[("code", "ABC")])).unwrap();
    assert_eq!(result.get("code").unwrap(), "abc");
}

#[test]
fn test_trim() {
    let mut pipe = TransformPipeline::new("test");
    pipe.add_op(TransformOp::Trim("name".to_string()));
    let result = pipe.apply(make_fields(&[("name", "  hello  ")])).unwrap();
    assert_eq!(result.get("name").unwrap(), "hello");
}

#[test]
fn test_filter_equals_keeps() {
    let mut pipe = TransformPipeline::new("test");
    pipe.add_op(TransformOp::FilterEquals { field: "type".to_string(), value: "gnss".to_string() });
    let result = pipe.apply(make_fields(&[("type", "gnss")]));
    assert!(result.is_some());
}

#[test]
fn test_filter_equals_drops() {
    let mut pipe = TransformPipeline::new("test");
    pipe.add_op(TransformOp::FilterEquals { field: "type".to_string(), value: "gnss".to_string() });
    let result = pipe.apply(make_fields(&[("type", "imu")]));
    assert!(result.is_none());
    assert_eq!(pipe.records_dropped(), 1);
}

#[test]
fn test_filter_exists_drops_missing() {
    let mut pipe = TransformPipeline::new("test");
    pipe.add_op(TransformOp::FilterExists("required_field".to_string()));
    let result = pipe.apply(make_fields(&[("other", "val")]));
    assert!(result.is_none());
}

#[test]
fn test_concat_fields() {
    let mut pipe = TransformPipeline::new("test");
    pipe.add_op(TransformOp::Concat {
        field_a: "first".to_string(),
        field_b: "last".to_string(),
        output: "full_name".to_string(),
        separator: " ".to_string(),
    });
    let result = pipe.apply(make_fields(&[("first", "John"), ("last", "Doe")])).unwrap();
    assert_eq!(result.get("full_name").unwrap(), "John Doe");
}

#[test]
fn test_chained_operations() {
    let mut pipe = TransformPipeline::new("chain");
    pipe.add_op(TransformOp::Rename { from: "lat".to_string(), to: "latitude".to_string() });
    pipe.add_op(TransformOp::Uppercase("city".to_string()));
    pipe.add_op(TransformOp::Drop("temp".to_string()));
    let result = pipe
        .apply(make_fields(&[("lat", "40.7"), ("city", "nyc"), ("temp", "x")]))
        .unwrap();
    assert_eq!(result.get("latitude").unwrap(), "40.7");
    assert_eq!(result.get("city").unwrap(), "NYC");
    assert!(!result.contains_key("temp"));
    assert!(!result.contains_key("lat"));
}

#[test]
fn test_batch_processing() {
    let mut pipe = TransformPipeline::new("batch");
    pipe.add_op(TransformOp::FilterEquals { field: "status".to_string(), value: "active".to_string() });
    let batch = vec![
        make_fields(&[("status", "active"), ("id", "1")]),
        make_fields(&[("status", "inactive"), ("id", "2")]),
        make_fields(&[("status", "active"), ("id", "3")]),
    ];
    let results = pipe.apply_batch(batch);
    assert_eq!(results.len(), 2);
    assert_eq!(pipe.records_processed(), 3);
    assert_eq!(pipe.records_dropped(), 1);
}

#[test]
fn transform_concat_with_missing_fields_uses_empty() {
    let mut pipe = TransformPipeline::new("concat");
    pipe.add_op(TransformOp::Concat {
        field_a: "a".to_string(),
        field_b: "b".to_string(),
        output: "out".to_string(),
        separator: "-".to_string(),
    });
    let result = pipe.apply(make_fields(&[("b", "x")])).unwrap();
    assert_eq!(result.get("out").unwrap(), "-x");
}

#[test]
fn transform_rename_missing_is_noop() {
    let mut pipe = TransformPipeline::new("r");
    pipe.add_op(TransformOp::Rename { from: "a".to_string(), to: "b".to_string() });
    let result = pipe.apply(make_fields(&[("c", "1")])).unwrap();
    assert_eq!(result.len(), 1);
    assert!(!result.contains_key("b"));
    assert_eq!(pipe.name(), "r");
    assert_eq!(pipe.op_count(), 1);
}

#[test]
fn transform_filter_stops_later_ops() {
    let mut pipe = TransformPipeline::new("f");
    pipe.add_op(TransformOp::FilterExists("x".to_string()));
    pipe.add_op(TransformOp::AddConstant { key: "k".to_string(), value: "v".to_string() });
    assert!(pipe.apply(make_fields(&[("y", "1")])).is_none());
    let kept = pipe.apply(make_fields(&[("x", "1")])).unwrap();
    assert_eq!(kept.get("k").unwrap(), "v");
    assert_eq!(pipe.records_processed(), 2);
    assert_eq!(pipe.records_dropped(), 1);
}

#[test]
fn fields_insert_replaces_and_clone_copies() {
    let mut f = Fields::new();
    assert_eq!(f.insert("a".to_string(), "1".to_string()), None);
    assert_eq!(f.insert("a".to_string(), "2".to_string()), Some("1".to_string()));
    assert_eq!(f.len(), 1);
    let g = f.clone();
    assert_eq!(g.get("a").unwrap(), "2");
    assert_eq!(f.remove("a"), Some("2".to_string()));
    assert_eq!(f.len(), 0);
    assert_eq!(g.len(), 1);
}

fn make_source(id: &str, active: bool) -> SourceConfig {
    SourceConfig {
        id: id.to_string(),
        source_type: SourceType::HttpApi,
        format: DataFormat::Json,
        active,
        batch_size: 100,
        uri: "http://localhost".to_string(),
    }
}

fn make_record(id: &str, source_id: &str, bytes: usize) -> Record {
    Record {
        id: id.to_string(),
        source_id: source_id.to_string(),
        ingested_at_ms: 1000,
        fields: Fields::new(),
        byte_size: bytes,
    }
}

#[test]
fn test_register_and_ingest() {
    let mut engine = IngestionEngine::new();
    engine.register_source(make_source("s1", true)).unwrap();
    let records = vec![make_record("r1", "s1", 100), make_record("r2", "s1", 200)];
    let count = engine.ingest("s1", records).unwrap();
    assert_eq!(count, 2);
    assert_eq!(engine.total_records(), 2);
    assert_eq!(engine.total_bytes(), 300);
    assert_eq!(engine.buffered_records(), 2);
}

#[test]
fn test_ingest_inactive_source_rejected() {
    let mut engine = IngestionEngine::new();
    engine.register_source(make_source("s1", false)).unwrap();
    let err = engine.ingest("s1", vec![make_record("r1", "s1", 50)]).unwrap_err();
    assert!(err.contains("not active"));
}

#[test]
fn test_ingest_unknown_source_rejected() {
    let mut engine = IngestionEngine::new();
    let err = engine.ingest("missing", vec![make_record("r1", "missing", 50)]).unwrap_err();
    assert!(err.contains("not found"));
}

#[test]
fn test_batch_size_exceeded() {
    let mut engine = IngestionEngine::new();
    let mut src = make_source("s1", true);
    src.batch_size = 1;
    engine.register_source(src).unwrap();
    let err = engine
        .ingest("s1", vec![make_record("r1", "s1", 50), make_record("r2", "s1", 50)])
        .unwrap_err();
    assert!(err.contains("exceeds max"));
}

#[test]
fn ingestion_error_messages_are_exact() {
    let mut engine = IngestionEngine::new();
    let mut src = make_source("s1", true);
    src.batch_size = 1;
    engine.register_source(src).unwrap();
    let err = engine
        .ingest("s1", vec![make_record("r1", "s1", 50), make_record("r2", "s1", 50)])
        .unwrap_err();
    assert_eq!(err, "Batch size 2 exceeds max 1 for source 's1'");
    assert_eq!(engine.ingest("x", vec![]).unwrap_err(), "Source 'x' not found");
    assert_eq!(
        engine.register_source(make_source("s1", true)).unwrap_err(),
        "Source 's1' already registered"
    );
    engine.set_source_active("s1", false).unwrap();
    assert_eq!(engine.ingest("s1", vec![]).unwrap_err(), "Source 's1' is not active");
    assert_eq!(engine.total_records(), 0);
    assert_eq!(engine.buffered_records(), 0);
}

#[test]
fn test_drain_records() {
    let mut engine = IngestionEngine::new();
    engine.register_source(make_source("s1", true)).unwrap();
    engine.ingest("s1", vec![make_record("r1", "s1", 100)]).unwrap();
    let drained = engine.drain_records();
    assert_eq!(drained.len(), 1);
    assert_eq!(engine.buffered_records(), 0);
    assert_eq!(engine.total_records(), 1);
}

#[test]
fn test_register_duplicate_source_rejected() {
    let mut engine = IngestionEngine::new();
    engine.register_source(make_source("s1", true)).unwrap();
    let err = engine.register_source(make_source("s1", true)).unwrap_err();
    assert!(err.contains("already registered"));
}

#[test]
fn test_unregister_source() {
    let mut engine = IngestionEngine::new();
    engine.register_source(make_source("s1", true)).unwrap();
    let removed = engine.unregister_source("s1").unwrap();
    assert_eq!(removed.id, "s1");
    assert_eq!(engine.source_count(), 0);
}

#[test]
fn test_set_source_active() {
    let mut engine = IngestionEngine::new();
    engine.register_source(make_source("s1", true)).unwrap();
    engine.set_source_active("s1", false).unwrap();
    assert!(!engine.get_source("s1").unwrap().active);
    let err = engine.ingest("s1", vec![make_record("r1", "s1", 50)]).unwrap_err();
    assert!(err.contains("not active"));
}

#[test]
fn test_error_recording() {
    let mut engine = IngestionEngine::new();
    engine.record_error("s1", "connection timeout", 1000);
    engine.record_error("s1", "parse error", 2000);
    assert_eq!(engine.error_count(), 2);
}

#[test]
fn test_active_sources_count() {
    let mut engine = IngestionEngine::new();
    engine.register_source(make_source("s1", true)).unwrap();
    engine.register_source(make_source("s2", false)).unwrap();
    engine.register_source(make_source("s3", true)).unwrap();
    assert_eq!(engine.active_sources(), 2);
    assert_eq!(engine.source_count(), 3);
}

#[test]
fn test_batch_job_cancel() {
    let mut job = BatchJob::new("j1", "Cancel me", 100);
    job.start(1000);
    job.cancel(2000);
    assert_eq!(job.status, BatchStatus::Cancelled);
    assert!(job.is_terminal());
}

#[test]
fn test_batch_job_lifecycle() {
    let mut job = BatchJob::new("j1", "Test batch", 1000);
    assert_eq!(job.status, BatchStatus::Pending);
    assert!(!job.is_terminal());
    assert_eq!(job.duration_ms(), None);
    job.start(1000);
    assert_eq!(job.status, BatchStatus::Running);
    assert_eq!(job.duration_ms(), Some(0));
    job.record_progress(500, 2);
    job.set_checkpoint(500);
    assert_eq!(job.processed_records, 500);
    assert_eq!(job.failed_records, 2);
    assert_eq!(job.checkpoint, Some(500));
    assert!((percent(job.processed_records, job.total_records) - 50.0).abs() < 0.01);
    job.record_progress(500, 1);
    job.complete(2000);
    assert_eq!(job.status, BatchStatus::Completed);
    assert!(job.is_terminal());
    assert_eq!(job.duration_ms(), Some(1000));
    let rps = job.processed_records as f64 / (job.duration_ms().unwrap() as f64 / 1000.0);
    assert!((rps - 1000.0).abs() < 0.01);
}

/// Processed share of a job in percent, 100 for an empty job (as the job reports it).
fn percent(processed: u64, total: u64) -> f64 {
    if total == 0 {
        100.0
    } else {
        processed as f64 / total as f64 * 100.0
    }
}

#[test]
fn test_batch_job_failure() {
    let mut job = BatchJob::new("j1", "Failing batch", 100);
    job.start(1000);
    job.record_progress(50, 50);
    job.fail("disk full", 5000);
    assert_eq!(job.status, BatchStatus::Failed);
    assert!(job.is_terminal());
    assert_eq!(job.error.as_deref(), Some("disk full"));
    assert_eq!(job.duration_ms(), Some(4000));
    let failure_rate = job.failed_records as f64 / job.processed_records as f64;
    assert!((failure_rate - 1.0).abs() < f64::EPSILON);
}

#[test]
fn test_zero_total_records() {
    let job = BatchJob::new("j1", "Empty", 0);
    assert_eq!(job.total_records, 0);
    assert_eq!(job.processed_records, 0);
    assert!((percent(job.processed_records, job.total_records) - 100.0).abs() < f64::EPSILON);
    assert_eq!(job.failed_records, 0);
}

#[test]
fn test_tumbling_window_rejects_late() {
    // A tumbling window of 1000 ms starting at 100 does not admit an event at 50.
    assert!(!window_admits(WindowType::Tumbling, 100, 1000, None, 50));
}

#[test]
fn test_batch_scheduler_submit_and_run() {
    let mut sched = BatchScheduler::new(2);
    sched.submit(BatchJob::new("j1", "Batch 1", 100)).unwrap();
    sched.submit(BatchJob::new("j2", "Batch 2", 200)).unwrap();
    sched.submit(BatchJob::new("j3", "Batch 3", 300)).unwrap();

    assert_eq!(sched.pending_jobs().len(), 3);
    assert!(sched.can_start());

    sched.get_mut("j1").unwrap().start(1000);
    sched.get_mut("j2").unwrap().start(1000);
    assert_eq!(sched.running_count(), 2);
    assert!(!sched.can_start());

    sched.get_mut("j1").unwrap().complete(2000);
    assert!(sched.can_start());
    assert_eq!(sched.completed_jobs().len(), 1);
}

#[test]
fn test_batch_scheduler_duplicate_rejected() {
    let mut sched = BatchScheduler::new(2);
    sched.submit(BatchJob::new("j1", "Batch 1", 100)).unwrap();
    let err = sched.submit(BatchJob::new("j1", "Dupe", 200)).unwrap_err();
    assert!(err.contains("already exists"));
    assert_eq!(err, "Job 'j1' already exists");
}

#[test]
fn test_prune_terminal() {
    let mut sched = BatchScheduler::new(5);
    sched.submit(BatchJob::new("j1", "Batch 1", 100)).unwrap();
    sched.submit(BatchJob::new("j2", "Batch 2", 200)).unwrap();
    sched.submit(BatchJob::new("j3", "Batch 3", 300)).unwrap();
    sched.get_mut("j1").unwrap().start(1000);
    sched.get_mut("j1").unwrap().complete(2000);
    sched.get_mut("j2").unwrap().start(1000);
    sched.get_mut("j2").unwrap().fail("err", 2000);

    let pruned = sched.prune_terminal();
    assert_eq!(pruned, 2);
    assert_eq!(sched.job_count(), 1);
    assert!(sched.get("j3").is_some());
    assert!(sched.get("j1").is_none());
}

#[test]
fn test_watermark_accepts_in_order() {
    let mut wm = WatermarkTracker::new(100);
    assert!(wm.process(1000));
    assert!(wm.process(2000));
    assert!(wm.process(3000));
    assert_eq!(wm.watermark(), 3000);
    assert_eq!(wm.events_accepted(), 3);
}

#[test]
fn test_watermark_drops_too_late() {
    let mut wm = WatermarkTracker::new(100);
    wm.process(1000);
    wm.process(2000);
    assert!(!wm.process(1800));
    assert_eq!(wm.late_events_dropped(), 1);
}

#[test]
fn test_watermark_accepts_slightly_late() {
    let mut wm = WatermarkTracker::new(100);
    wm.process(1000);
    wm.process(2000);
    assert!(wm.process(1950));
    assert_eq!(wm.watermark(), 2000);
}

#[test]
fn window_admission_rules() {
    // Tumbling window [0, 1000).
    assert!(window_admits(WindowType::Tumbling, 0, 1000, None, 0));
    assert!(window_admits(WindowType::Tumbling, 0, 1000, Some(500), 999));
    assert!(!window_admits(WindowType::Tumbling, 0, 1000, None, 1000));
    assert!(!window_admits(WindowType::Sliding, 100, 1000, None, 50));
    // Session window with a gap of 500.
    assert!(window_admits(WindowType::Session, 0, 500, None, 0));
    assert!(window_admits(WindowType::Session, 0, 500, Some(300), 700));
    assert!(!window_admits(WindowType::Session, 0, 500, Some(700), 1300));
}

#[test]
fn trim_strips_unicode_white_space_only_at_the_ends() {
    let mut pipe = TransformPipeline::new("test");
    pipe.add_op(TransformOp::Trim("name".to_string()));
    let result = pipe.apply(make_fields(&[("name", "\t\u{3000}a b\u{a0}\n")])).unwrap();
    assert_eq!(result.get("name").unwrap(), "a b");
    let result = pipe.apply(make_fields(&[("name", " \r\n ")])).unwrap();
    assert_eq!(result.get("name").unwrap(), "");
}
