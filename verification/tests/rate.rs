use plotly_client::rate::DataRateCounter;
use plotly_client::rate::RateUnit;

#[test]
fn window_accumulates_then_reports_the_total() {
    let mut c = DataRateCounter::new(1_000_000, 0);
    assert!(c.update(100, 10_000).is_none());
    assert!(c.update(200, 20_000).is_none());
    let s = c
        .update(300, 1_000_000)
        .expect("the boundary call must report the closed window");
    assert_eq!(s.bytes, 600);
    assert_eq!(s.elapsed_micros, 1_000_000);
    assert_eq!(s.unit, RateUnit::Kbps);
    assert_eq!(c.count, 0);
    assert_eq!(c.window_start, 1_000_000);
}

#[test]
fn empty_window_reports_nothing_but_still_restarts() {
    let mut c = DataRateCounter::new(1_000_000, 0);
    assert!(c.update(0, 2_000_000).is_none());
    assert_eq!(c.count, 0);
    assert_eq!(c.window_start, 2_000_000);
}

#[test]
fn unit_scales_with_the_window_total() {
    let mut c = DataRateCounter::new(1_000, 0);
    let s = c.update(100, 1_000).unwrap();
    assert_eq!(s.unit, RateUnit::Bps);
    assert_eq!(s.unit.label(), "bps");
    let s = c.update(1_000, 3_000).unwrap();
    assert_eq!(s.unit, RateUnit::Kbps);
    assert_eq!(s.unit.label(), "kbps");
    let s = c.update(200_000, 5_000).unwrap();
    assert_eq!(s.unit, RateUnit::Mbps);
    assert_eq!(s.unit.label(), "mbps");
}

#[test]
fn default_counter_uses_the_one_second_window() {
    let c = DataRateCounter::default();
    assert_eq!(c.window_micros, 1_000_000);
    assert_eq!(c.count, 0);
    assert_eq!(c.window_start, 0);
}
