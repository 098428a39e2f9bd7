use basilisk::metrics::Metrics;

#[test]
fn metrics_disabled_by_default() {
    let metrics = Metrics::new();
    assert!(!metrics.is_enabled());
}

#[test]
fn metrics_enable() {
    let mut metrics = Metrics::new();
    metrics.set_enabled(true);
    assert!(metrics.is_enabled());
}

#[test]
fn metrics_frame_time() {
    let mut metrics = Metrics::new();
    metrics.set_enabled(true);

    for _ in 0..10 {
        metrics.frame_start();
        let t = std::time::Instant::now();
        while t.elapsed() < std::time::Duration::from_micros(100) {}
        metrics.frame_end();
    }

    let (sum, count) = metrics.frame_time_total();
    assert!(sum > 0 && count == 10);
    assert_eq!(metrics.total_frames(), 10);
}

#[test]
fn metrics_summary() {
    let metrics = Metrics::new();
    let summary = metrics.summary(0, 0);
    assert!(summary.contains("disabled"));
}

#[test]
fn metrics_summary_enabled_format() {
    let mut metrics = Metrics::new();
    metrics.set_enabled(true);
    metrics.frame_times = vec![1_000_000, 3_000_000];
    metrics.total_frames = 2;
    let summary = metrics.summary(3 * 1024 * 1024 / 2, 1_500_000_000);
    assert_eq!(summary, "FPS: 500.0 | Frame: 2.00ms (min 1.00, max 3.00) | Input latency: 0.00ms | Memory: 1.5MB | Frames: 2 | Uptime: 1.5s");
}

#[test]
fn metrics_keeps_last_hundred_samples() {
    let mut metrics = Metrics::new();
    metrics.set_enabled(true);
    for _ in 0..150 {
        metrics.frame_start();
        metrics.frame_end();
    }
    assert_eq!(metrics.frame_times.len(), 100);
    assert_eq!(metrics.total_frames(), 150);
}

#[test]
fn metrics_reset() {
    let mut metrics = Metrics::new();
    metrics.set_enabled(true);

    for _ in 0..10 {
        metrics.frame_start();
        metrics.frame_end();
    }

    assert_eq!(metrics.total_frames(), 10);

    metrics.reset();
    assert_eq!(metrics.total_frames(), 0);
}

#[test]
fn metrics_frame_end_without_start_changes_nothing() {
    let mut metrics = Metrics::new();
    metrics.frame_end();
    assert_eq!(metrics.total_frames(), 0);
    metrics.set_enabled(true);
    metrics.frame_end();
    assert_eq!(metrics.total_frames(), 0);
    assert!(metrics.last_frame_start.is_none());
    metrics.frame_start();
    metrics.frame_end();
    metrics.frame_end();
    assert_eq!(metrics.total_frames(), 1);
}
