use terrarium::timer::{FpsCounter, Timer};

#[test]
fn fps_counter_starts_at_zero() {
    let c = FpsCounter::new();
    assert_eq!(c.fps(), 0);
    let d = FpsCounter::default();
    assert_eq!(d.fps(), 0);
}

#[test]
fn fps_counter_reports_frames_once_a_second_passed() {
    let mut c = FpsCounter::new();
    assert!(!c.record_frame(0));
    assert!(!c.record_frame(0));
    assert_eq!(c.fps(), 0);
    assert!(c.record_frame(1));
    assert_eq!(c.fps(), 3);
    assert!(!c.record_frame(0));
    assert_eq!(c.fps(), 3);
    assert!(c.record_frame(5));
    assert_eq!(c.fps(), 2);
}

#[test]
fn end_frame_right_after_start_does_not_report() {
    let mut c = FpsCounter::new();
    assert_eq!(c.end_frame(), Ok(0));
    assert_eq!(c.fps(), 0);
}

#[test]
fn timer_measures_from_its_start() {
    let mut t = Timer::new();
    let e = t.elapsed().unwrap();
    assert!(e.as_secs() < 60);
    t.reset();
    assert!(t.elapsed().is_ok());
    let u = t.clone();
    assert!(u.elapsed().is_ok());
}

#[test]
fn short_frames_then_a_long_one_count_every_frame() {
    let mut c = FpsCounter::new();
    for _ in 0..5 {
        assert!(!c.record_frame(0));
        assert_eq!(c.fps(), 0);
    }
    assert!(c.record_frame(1));
    assert_eq!(c.fps(), 6);
}
