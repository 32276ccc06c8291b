use vmod_reqwest::health::{count_low_bits, is_healthy, probe_passed, record_outcome, seed_history};
use vmod_reqwest::probe::{backend_healthy, build_probe_state, sanitize, starts_with_slash, ProbeRequest, ProbeSpec};

fn spec(request: ProbeRequest, window: u32, threshold: u32, initial: u32) -> ProbeSpec {
    ProbeSpec {
        request,
        timeout_ms: 0,
        interval_ms: 0,
        window,
        threshold,
        exp_status: 0,
        initial,
    }
}

#[test]
fn verdict_counts_low_window_bits() {
    assert!(is_healthy(0b101101, 6, 3));
    assert!(!is_healthy(0b101101, 6, 5));
    // bits above the window do not count
    assert!(!is_healthy(0b1111_0000_0001, 6, 2));
    assert_eq!(count_low_bits(0b1111_0000_0001, 6), 1);
}

#[test]
fn count_low_bits_exact() {
    assert_eq!(count_low_bits(0, 64), 0);
    assert_eq!(count_low_bits(u64::MAX, 64), 64);
    assert_eq!(count_low_bits(u64::MAX, 0), 0);
    assert_eq!(count_low_bits(0b1011, 3), 2);
    assert_eq!(count_low_bits(1u64 << 63, 64), 1);
    assert_eq!(count_low_bits(1u64 << 63, 63), 0);
}

#[test]
fn same_low_bits_same_verdict() {
    let a = 0b0110_1101u64;
    let b = a | (0xffu64 << 40);
    for t in 0..10 {
        assert_eq!(is_healthy(a, 8, t), is_healthy(b, 8, t));
    }
}

#[test]
fn seed_sets_initial_low_bits() {
    assert_eq!(seed_history(0), 0);
    assert_eq!(seed_history(2), 0b11);
    assert_eq!(seed_history(63), u64::MAX >> 1);
    assert_eq!(seed_history(64), u64::MAX);
    assert_eq!(seed_history(1000), u64::MAX);
}

#[test]
fn record_shifts_and_reports_flips() {
    assert_eq!(record_outcome(0b11, true, 8, 3), (0b111, true));
    assert_eq!(record_outcome(0b111, true, 8, 3), (0b1111, false));
    assert_eq!(record_outcome(0b111, false, 8, 3), (0b1110, false));
    assert_eq!(record_outcome(1u64 << 63, true, 64, 1), (1, false));
    // the oldest outcome leaves the window: 0b1000_0011 -> 0b0000_0110 in 8 bits
    assert_eq!(record_outcome(0b1000_0011, false, 8, 3), (0b1_0000_0110, true));
}

#[test]
fn fresh_backend_with_two_initial_passes() {
    let s = sanitize(spec(ProbeRequest::Url("/h".to_string()), 8, 3, 2));
    assert_eq!((s.window, s.threshold, s.initial), (8, 3, 2));
    let h = seed_history(s.initial);
    assert_eq!(h, 0b11);
    // two seeded passes are one short of the threshold of three
    assert!(!is_healthy(h, s.window, s.threshold));
    // the first passing probe makes it healthy
    let (h, flipped) = record_outcome(h, true, s.window, s.threshold);
    assert!(flipped);
    assert!(is_healthy(h, s.window, s.threshold));
}

#[test]
fn seeded_backend_at_threshold_is_healthy() {
    let h = seed_history(3);
    assert!(is_healthy(h, 8, 3));
    assert!(!is_healthy(h, 2, 3));
}

#[test]
fn probe_pass_is_expected_status() {
    assert!(probe_passed(Some(200), 200));
    assert!(!probe_passed(Some(503), 200));
    assert!(!probe_passed(None, 200));
    assert!(probe_passed(Some(204), 204));
}

#[test]
fn sanitize_defaults() {
    let s = sanitize(spec(ProbeRequest::Url("/".to_string()), 0, 0, 0));
    assert_eq!(s.timeout_ms, 2000);
    assert_eq!(s.interval_ms, 5000);
    assert_eq!(s.window, 8);
    assert_eq!(s.threshold, 3);
    assert_eq!(s.exp_status, 200);
    assert_eq!(s.initial, 2);
}

#[test]
fn sanitize_keeps_set_fields_and_clamps() {
    let mut p = spec(ProbeRequest::Url("/".to_string()), 100, 5, 9);
    p.timeout_ms = 300;
    p.interval_ms = 700;
    p.exp_status = 204;
    let s = sanitize(p);
    assert_eq!(s.timeout_ms, 300);
    assert_eq!(s.interval_ms, 700);
    assert_eq!(s.window, 64);
    assert_eq!(s.threshold, 5);
    assert_eq!(s.exp_status, 204);
    assert_eq!(s.initial, 5);
}

#[test]
fn probe_state_joins_base_url() {
    let st = build_probe_state(spec(ProbeRequest::Url("/health".to_string()), 0, 0, 0), Some("http://example.com"))
        .unwrap();
    assert_eq!(st.url.as_str(), "http://example.com/health");
    assert_eq!(st.spec.window, 8);
    let load = |st: &vmod_reqwest::probe::ProbeState| st.history.load(std::sync::atomic::Ordering::Relaxed);
    assert!(!backend_healthy(Some(&st), load(&st)));
    let h = st.start();
    assert_eq!(h, 0b11);
    assert_eq!(load(&st), 0b11);
    assert!(!backend_healthy(Some(&st), load(&st)));
    let (h, flipped) = st.record(h, true);
    assert_eq!(h, 0b111);
    assert!(flipped);
    assert!(backend_healthy(Some(&st), load(&st)));
    assert!(backend_healthy(None, 0));
}

#[test]
fn probe_state_absolute_url() {
    let st = build_probe_state(spec(ProbeRequest::Url("http://example.org/ping".to_string()), 0, 0, 0), None)
        .unwrap();
    assert_eq!(st.url.as_str(), "http://example.org/ping");
}

#[test]
fn probe_state_errors() {
    let e = build_probe_state(spec(ProbeRequest::Text("GET / HTTP/1.1".to_string()), 0, 0, 0), None);
    assert_eq!(e.err().unwrap(), "can't use a probe without .url");
    let e = build_probe_state(spec(ProbeRequest::Url("/health".to_string()), 0, 0, 0), None);
    assert_eq!(
        e.err().unwrap(),
        "client has no .base_url, and the probe doesn't have a fully-qualified URL as .url"
    );
    let e = build_probe_state(spec(ProbeRequest::Url("not a url".to_string()), 0, 0, 0), None);
    assert!(e.is_err());
}

#[test]
fn slash_detection() {
    assert!(starts_with_slash("/a"));
    assert!(!starts_with_slash(""));
    assert!(!starts_with_slash("http://x/"));
    assert!(!starts_with_slash("é/"));
}
