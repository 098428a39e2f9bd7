use std::time::{Duration, Instant};

use basilisk::bell::{Bell, BellConfig};

fn wait(ms: u64) {
    let start = Instant::now();
    while start.elapsed() < Duration::from_millis(ms) {}
}

fn intensity(r: (u128, u128)) -> f32 {
    r.0 as f32 / r.1 as f32
}

#[test]
fn bell_config_default() {
    let config = BellConfig::default();
    assert!(config.audible);
    assert!(config.visual);
}

#[test]
fn bell_new() {
    let bell = Bell::default();
    assert!(!bell.is_visual_active());
}

#[test]
fn bell_visual_active() {
    let mut bell = Bell::default();
    bell.ring();

    assert!(bell.is_visual_active());
}

#[test]
fn bell_visual_expires() {
    let config = BellConfig {
        audible: false,
        visual: true,
        visual_duration_ms: 10,
        min_interval_ms: 0,
    };
    let mut bell = Bell::new(config);
    bell.ring();

    assert!(bell.is_visual_active());

    wait(20);
    bell.update();

    assert!(!bell.is_visual_active());
}

#[test]
fn bell_rate_limiting() {
    let config = BellConfig {
        audible: false,
        visual: true,
        visual_duration_ms: 100,
        min_interval_ms: 100,
    };
    let mut bell = Bell::new(config);

    bell.ring();
    let first_until = bell.visual_active_until;

    bell.ring();

    assert_eq!(bell.visual_active_until, first_until);
}

#[test]
fn bell_intensity() {
    let config = BellConfig {
        audible: false,
        visual: true,
        visual_duration_ms: 100,
        min_interval_ms: 0,
    };
    let mut bell = Bell::new(config);

    assert!((intensity(bell.visual_intensity()) - 1.0).abs() < 0.01);

    bell.ring();
    assert!(intensity(bell.visual_intensity()) > 1.0);
}

#[test]
fn bell_set_config() {
    let mut bell = Bell::default();

    bell.set_audible(false);
    assert!(!bell.config().audible);

    bell.set_visual(false);
    assert!(!bell.config().visual);
}

#[test]
fn bell_disabled_visual() {
    let config = BellConfig {
        audible: false,
        visual: false,
        visual_duration_ms: 100,
        min_interval_ms: 0,
    };
    let mut bell = Bell::new(config);

    bell.ring();

    assert!(!bell.is_visual_active());
}

#[test]
fn bell_ring_at_exact_times() {
    let mut bell = Bell::new(BellConfig { audible: true, visual: true, visual_duration_ms: 5, min_interval_ms: 2 });
    assert!(bell.ring_at(1_000_000));
    assert_eq!(bell.visual_active_until, Some(6_000_000));
    // 1 ms later is inside the 2 ms interval: swallowed.
    assert!(!bell.ring_at(2_000_000));
    assert_eq!(bell.last_bell, Some(1_000_000));
    assert!(bell.is_visual_active_at(5_999_999));
    assert!(!bell.is_visual_active_at(6_000_000));
    // Half of the flash left: 1 + 0.3 * 0.5.
    assert_eq!(bell.visual_intensity_at(3_500_000), (10 * 5_000_000 + 3 * 2_500_000, 10 * 5_000_000));
    bell.update_at(6_000_000);
    assert_eq!(bell.visual_active_until, None);
}
