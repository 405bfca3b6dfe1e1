use garbg::x11::compositor::Compositor;
use garbg::x11::monitors::{Monitor, OutputReport, ScreenReport};

fn make_monitor(name: &str, x: i16, y: i16, width: u16, height: u16) -> Monitor {
    Monitor {
        name: name.to_string(),
        x,
        y,
        width,
        height,
        primary: false,
    }
}

#[test]
fn test_calculate_bounds_single() {
    let monitors = vec![make_monitor("DP-1", 0, 0, 1920, 1080)];
    let (w, h) = Compositor::calculate_bounds(&monitors);
    assert_eq!(w, 1920);
    assert_eq!(h, 1080);
}

#[test]
fn test_calculate_bounds_dual_horizontal() {
    let monitors = vec![
        make_monitor("DP-1", 0, 0, 1920, 1080),
        make_monitor("DP-2", 1920, 0, 1920, 1080),
    ];
    let (w, h) = Compositor::calculate_bounds(&monitors);
    assert_eq!(w, 3840);
    assert_eq!(h, 1080);
}

#[test]
fn test_calculate_bounds_dual_vertical() {
    let monitors = vec![
        make_monitor("DP-1", 0, 0, 1920, 1080),
        make_monitor("DP-2", 0, 1080, 1920, 1080),
    ];
    let (w, h) = Compositor::calculate_bounds(&monitors);
    assert_eq!(w, 1920);
    assert_eq!(h, 2160);
}

#[test]
fn test_calculate_bounds_mixed() {
    let monitors = vec![
        make_monitor("DP-1", 0, 0, 2560, 1440),
        make_monitor("DP-2", 2560, 200, 1920, 1080),
    ];
    let (w, h) = Compositor::calculate_bounds(&monitors);
    assert_eq!(w, 4480);
    assert_eq!(h, 1440); // max(1440, 200+1080) = max(1440, 1280) = 1440
}

#[test]
fn calculate_bounds_empty_is_zero() {
    let monitors: Vec<Monitor> = Vec::new();
    assert_eq!(Compositor::calculate_bounds(&monitors), (0, 0));
}

#[test]
fn monitors_sorted_left_to_right_keeping_ties() {
    let out = |output: u32, name: &str, x: i16, y: i16| {
        Some(OutputReport { output, name: name.to_string(), connected: true, crtc: 60 + output, geometry: Some((x, y, 1920, 1080)) })
    };
    let report = ScreenReport { primary: 2, outputs: vec![out(1, "B", 1920, 0), out(2, "A", 0, 0), out(3, "C", 1920, 1080)] };
    let sorted = Monitor::get_all(Ok(report)).unwrap();
    let names: Vec<&str> = sorted.iter().map(|m| m.name.as_str()).collect();
    assert_eq!(names, vec!["A", "B", "C"]);
    let primaries: Vec<bool> = sorted.iter().map(|m| m.primary).collect();
    assert_eq!(primaries, vec![true, false, false]);
}

#[test]
fn only_connected_outputs_with_crtc_become_monitors() {
    let report = ScreenReport {
        primary: 9,
        outputs: vec![
            Some(OutputReport { output: 1, name: "DP-1".to_string(), connected: true, crtc: 0, geometry: None }),
            Some(OutputReport { output: 2, name: "HDMI-1".to_string(), connected: false, crtc: 70, geometry: Some((0, 0, 1280, 720)) }),
            None,
            Some(OutputReport { output: 4, name: "eDP-1".to_string(), connected: true, crtc: 71, geometry: None }),
            Some(OutputReport { output: 5, name: "DP-2".to_string(), connected: true, crtc: 72, geometry: Some((2560, 0, 2560, 1440)) }),
        ],
    };
    let monitors = Monitor::get_all(Ok(report)).unwrap();
    assert_eq!(monitors.len(), 1);
    assert_eq!(monitors[0].name, "DP-2");
    assert_eq!((monitors[0].x, monitors[0].y, monitors[0].width, monitors[0].height), (2560, 0, 2560, 1440));
    assert!(!monitors[0].primary);
    assert_eq!(Monitor::get_all(Err("Failed to get screen resources".to_string())).err(), Some("Failed to get screen resources".to_string()));
    assert!(Monitor::is_active_output(true, 3));
    assert!(!Monitor::is_active_output(true, 0));
    assert!(!Monitor::is_active_output(false, 3));
}

#[test]
fn monitor_fallbacks() {
    let none = Monitor::monitors_or_fallback(None, None);
    assert_eq!(none.len(), 1);
    assert_eq!((none[0].name.as_str(), none[0].width, none[0].height, none[0].x, none[0].y, none[0].primary), ("default", 1920, 1080, 0, 0, true));
    let failed = Monitor::monitors_or_fallback(None, Some((2560, 1440)));
    assert_eq!((failed[0].name.as_str(), failed[0].width, failed[0].height), ("default", 2560, 1440));
    let empty = Monitor::monitors_or_fallback(Some(Vec::new()), Some((800, 600)));
    assert_eq!((empty.len(), empty[0].width, empty[0].height), (1, 800, 600));
    let found = Monitor::monitors_or_fallback(Some(vec![make_monitor("DP-1", 0, 0, 1920, 1080)]), Some((800, 600)));
    assert_eq!(found.len(), 1);
    assert_eq!(found[0].name, "DP-1");
}
