use heater_panel::api::camera;
use heater_panel::camera::{view_avg, Camera, PanelConfig};

// A 4x4 test panel: the yellow lamp region is the top-left 2x2 square,
// the green one the bottom-right 2x2 square.
fn config() -> PanelConfig {
    PanelConfig {
        width: 4,
        height: 4,
        yellow_pos: (0, 0, 2, 2),
        green_pos: (2, 2, 2, 2),
        yellow_threshold: (150, 60, 10),
        green_threshold: (150, 60, 10),
    }
}

// A frame whose yellow region reads (200, 80, 20) on average and whose
// green region reads (10, 10, 10): yellow on, green off.
fn frame_yellow_only() -> Vec<u8> {
    let mut data = vec![10u8; 4 * 4 * 3];
    for y in 0..2usize {
        for x in 0..2usize {
            let idx = 3 * (y * 4 + x);
            data[idx] = 200;
            data[idx + 1] = 80;
            data[idx + 2] = 20;
        }
    }
    data
}

#[test]
fn config_checks() {
    assert!(config().check());

    let mut zero_area = config();
    zero_area.yellow_pos = (0, 0, 0, 2);
    assert!(!zero_area.check());

    let mut out_of_bounds = config();
    out_of_bounds.green_pos = (3, 3, 2, 2);
    assert!(!out_of_bounds.check());
}

#[test]
fn mean_of_uniform_region_is_the_value() {
    let data = frame_yellow_only();
    assert_eq!(view_avg(&data, 4, 0, 0, 2, 2), (200, 80, 20));
    assert_eq!(view_avg(&data, 4, 2, 2, 2, 2), (10, 10, 10));
}

#[test]
fn mean_is_the_integer_mean() {
    // One channel with samples 1, 2, 3, 4: the sum is 10 and the mean 2.
    let mut data = vec![0u8; 4 * 4 * 3];
    data[3 * (0 * 4 + 0)] = 1;
    data[3 * (0 * 4 + 1)] = 2;
    data[3 * (1 * 4 + 0)] = 3;
    data[3 * (1 * 4 + 1)] = 4;
    assert_eq!(view_avg(&data, 4, 0, 0, 2, 2), (2, 0, 0));
}

#[test]
fn threshold_is_strict_on_every_channel() {
    assert!(heater_panel::camera::test((101, 101, 101), (100, 100, 100)));
    // A mean exactly at the threshold reads as off.
    assert!(!heater_panel::camera::test((100, 101, 101), (100, 100, 100)));
    assert!(!heater_panel::camera::test((101, 100, 101), (100, 100, 100)));
    assert!(!heater_panel::camera::test((101, 101, 100), (100, 100, 100)));
    assert!(!heater_panel::camera::test((0, 0, 0), (100, 100, 100)));
}

#[test]
fn fresh_sensor_reports_both_lamps_off() {
    let cam = Camera::new(0);
    assert!(!cam.yellow());
    assert!(!cam.green());
    assert_eq!(cam.age(0), 0);
}

#[test]
fn successful_cycle_replaces_the_whole_snapshot() {
    let cfg = config();
    assert!(cfg.check());
    let mut cam = Camera::new(0);
    cam.update(&cfg, Some(frame_yellow_only()), 7);
    assert!(cam.yellow());
    assert!(!cam.green());
    assert_eq!(cam.age(9), 2);
}

#[test]
fn capture_failure_keeps_the_snapshot_and_age_grows() {
    let cfg = config();
    assert!(cfg.check());
    let mut cam = Camera::new(0);
    cam.update(&cfg, Some(frame_yellow_only()), 7);

    cam.update(&cfg, None, 12);
    let r = camera(&cam, 12);
    assert!(r.yellow);
    assert!(!r.green);
    assert_eq!(r.age, 5);

    let later = camera(&cam, 16);
    assert!(later.yellow);
    assert!(!later.green);
    assert_eq!(later.age, 9);
}

#[test]
fn malformed_frame_keeps_the_snapshot() {
    let cfg = config();
    assert!(cfg.check());
    let mut cam = Camera::new(0);
    cam.update(&cfg, Some(frame_yellow_only()), 3);

    // One byte short of a full frame: the decode is rejected.
    let mut short = frame_yellow_only();
    short.pop();
    cam.update(&cfg, Some(short), 8);
    assert!(cam.yellow());
    assert!(!cam.green());
    assert_eq!(cam.age(8), 5);

    // A full frame of another color is accepted and replaces it.
    let dark = vec![0u8; 4 * 4 * 3];
    cam.update(&cfg, Some(dark), 9);
    assert!(!cam.yellow());
    assert!(!cam.green());
    assert_eq!(cam.age(9), 0);
}

#[test]
fn five_second_cadence_end_to_end() {
    let cfg = config();
    assert!(cfg.check());

    // Cycle 1 at t = 0 reads yellow on, green off.
    let mut cam = Camera::new(0);
    cam.update(&cfg, Some(frame_yellow_only()), 0);

    // No capture happens before t = 5; a read at t = 2 reports age 2 and
    // the cycle-1 values.
    let r = camera(&cam, 2);
    assert!(r.yellow);
    assert!(!r.green);
    assert_eq!(r.age, 2);

    // The capture at t = 5 fails; the cycle-1 values stay readable at
    // t = 7 with age 7.
    cam.update(&cfg, None, 5);
    let r = camera(&cam, 7);
    assert!(r.yellow);
    assert!(!r.green);
    assert_eq!(r.age, 7);
}

#[test]
fn mock_cycle_publishes_a_fresh_capture_time() {
    let mut cam = Camera::new(0);
    cam.update_mock(42);
    assert_eq!(cam.age(42), 0);
    assert_eq!(cam.age(45), 3);
}
