use garbg::config::ScaleMode;
use garbg::daemon::animation_loop::{
    animation_deadline_after_command, animation_timer_armed, slideshow_timer_armed, Backoff, ConnectionWatch, DeadlineUpdate,
};
use garbg::daemon::state::pick_image;
use garbg::daemon::display_env::{display_env_updates, lines_of};
use garbg::daemon::pid::{is_daemon_running_by_pid, parse_pid, parse_u32, pid_status, pid_text, PidStatus};
use garbg::state::{detect_source_type, PlaylistState, SourceType};
use garbg::time_span::TimeSpan;

#[test]
fn pid_file_text_round_trips() {
    for pid in [0u32, 7, 10, 1234, 4_294_967_295] {
        let text = pid_text(pid);
        assert_eq!(text, pid.to_string());
        assert_eq!(parse_pid(&text), Ok(pid));
        assert_eq!(parse_pid(&format!(" \t{}\r\n", text)), Ok(pid));
    }
}

#[test]
fn scale_mode_names_read_back() {
    for m in [ScaleMode::Fill, ScaleMode::Fit, ScaleMode::Stretch, ScaleMode::Center, ScaleMode::Tile] {
        assert_eq!(ScaleMode::parse(m.name()), Ok(m));
        assert_eq!(ScaleMode::parse(&m.name().to_uppercase()), Ok(m));
    }
    assert_eq!(ScaleMode::parse("Stretch"), Ok(ScaleMode::Stretch));
}

#[test]
fn pid_parsing_follows_from_str() {
    assert_eq!(parse_pid("  4242\n"), Ok(4242));
    assert_eq!(parse_u32("+17"), Some(17));
    assert_eq!(parse_u32("+"), None);
    assert_eq!(parse_u32(""), None);
    assert_eq!(parse_u32("-1"), None);
    assert_eq!(parse_u32("4294967296"), None);
    assert_eq!(parse_u32("12a"), None);
    assert_eq!(parse_pid(" abc \n"), Err("Invalid PID in file: abc".to_string()));
    for s in ["0", "+5", "99999999999", "42", "00012"] {
        assert_eq!(parse_u32(s), s.parse::<u32>().ok());
    }
}

#[test]
fn pid_status_decisions() {
    assert_eq!(pid_status(None, true), PidStatus::NoPidFile);
    assert_eq!(pid_status(Some(5), true), PidStatus::Running(5));
    assert_eq!(pid_status(Some(5), false), PidStatus::Stale(5));
    assert!(is_daemon_running_by_pid(Some(5), true));
    assert!(!is_daemon_running_by_pid(Some(5), false));
    assert!(!is_daemon_running_by_pid(None, false));
}

#[test]
fn systemd_environment_lines() {
    assert_eq!(lines_of("a\r\nb\n\nc"), vec!["a", "b", "", "c"]);
    assert_eq!(lines_of("x\n"), vec!["x"]);
    assert!(lines_of("").is_empty());
    let out = "HOME=/home/me\nDISPLAY=:1\nXAUTHORITY=/run/user/1000/xauth\nDISPLAY=:1\n";
    let updates = display_env_updates(out, ":0", "/run/user/1000/xauth");
    assert_eq!(updates, vec![("DISPLAY".to_string(), ":1".to_string())]);
    let none = display_env_updates("DISPLAY=:0\n", ":0", "");
    assert!(none.is_empty());
}

fn playlist(n: usize, shuffled: bool) -> PlaylistState {
    let images: Vec<String> = (0..n).map(|i| format!("/w/{}.png", i)).collect();
    PlaylistState::new("/w".to_string(), SourceType::Local, images, shuffled, ScaleMode::Fill)
}

#[test]
fn next_then_prev_returns_to_start() {
    let mut p = playlist(3, false);
    assert_eq!(p.current(), Some("/w/0.png"));
    assert_eq!(p.next(), "/w/1.png");
    assert_eq!(p.prev(), "/w/0.png");
    assert_eq!(p.prev(), "/w/2.png");
    assert_eq!(p.next(), "/w/0.png");
}

#[test]
fn full_cycle_returns_to_start() {
    let mut p = playlist(4, false);
    p.next();
    for _ in 0..4 {
        p.next();
    }
    assert_eq!(p.current_index, 1);
}

#[test]
fn shuffled_wrap_keeps_images() {
    let mut p = playlist(5, true);
    for _ in 0..5 {
        p.next();
    }
    assert_eq!(p.current_index, 0);
    assert_eq!(p.current(), Some("/w/0.png"));
    let mut imgs = p.images.clone();
    imgs.sort();
    assert_eq!(imgs, (0..5).map(|i| format!("/w/{}.png", i)).collect::<Vec<_>>());
}

#[test]
fn reshuffle_keeps_current_image_first() {
    for _ in 0..20 {
        let mut p = playlist(6, true);
        p.next();
        p.next();
        p.next();
        assert_eq!(p.current(), Some("/w/3.png"));
        p.reshuffle();
        assert_eq!(p.current_index, 0);
        assert_eq!(p.current(), Some("/w/3.png"));
        let mut imgs = p.images.clone();
        imgs.sort();
        assert_eq!(imgs, (0..6).map(|i| format!("/w/{}.png", i)).collect::<Vec<_>>());
    }
    let mut empty = playlist(0, true);
    empty.reshuffle();
    assert_eq!(empty.current_index, 0);
    assert!(empty.is_empty());
}

#[test]
fn empty_playlist_stays_put() {
    let mut p = playlist(0, false);
    assert_eq!(p.next(), "");
    assert_eq!(p.prev(), "");
    assert!(p.is_empty());
}

#[test]
fn source_types() {
    assert_eq!(detect_source_type("github://u/r"), SourceType::GitHub);
    assert_eq!(detect_source_type("https://github.com/u/r"), SourceType::GitHub);
    assert_eq!(detect_source_type("https://example.com/w/"), SourceType::Http);
    assert_eq!(detect_source_type("/home/me/w"), SourceType::Local);
}

#[test]
fn backoff_doubles_to_cap_and_resets() {
    let mut b = Backoff::new(TimeSpan::from_secs(1), TimeSpan::from_secs(5));
    b.fail();
    assert_eq!(b.current, TimeSpan::from_secs(2));
    b.fail();
    b.fail();
    assert_eq!(b.current, TimeSpan::from_secs(5));
    b.reset();
    assert_eq!(b.current, TimeSpan::from_secs(1));
}

#[test]
fn connection_watch_backs_off_and_recovers() {
    let secs = TimeSpan::from_secs;
    let mut x11 = ConnectionWatch::new(true, secs(1), secs(30));
    assert!(!x11.health_check_due(secs(4), secs(5)));
    assert!(x11.health_check_due(secs(5), secs(5)));
    assert_eq!(x11.reconnect_delay(secs(0)), None);
    x11.lost();
    assert!(!x11.health_check_due(secs(9), secs(5)));
    assert_eq!(x11.reconnect_delay(TimeSpan::from_millis(400)), Some(TimeSpan::from_millis(600)));
    x11.attempted(false);
    x11.attempted(false);
    assert_eq!(x11.reconnect_delay(secs(1)), Some(secs(3)));
    for _ in 0..5 {
        x11.attempted(false);
    }
    assert_eq!(x11.backoff.current, secs(30));
    assert_eq!(x11.reconnect_delay(secs(31)), Some(TimeSpan::zero()));
    x11.attempted(true);
    assert!(!x11.needs_reconnect);
    assert_eq!(x11.backoff.current, secs(1));
    let mut gar = ConnectionWatch::new(false, secs(1), secs(60));
    assert!(gar.needs_reconnect);
    gar.attempted(false);
    assert_eq!(gar.backoff.current, secs(2));
    gar.heard();
    assert_eq!(gar.backoff.current, secs(1));
}

#[test]
fn reconnect_settings_and_waits() {
    let mut gar = ConnectionWatch::for_gar(false);
    assert!(gar.needs_reconnect);
    let mut waits = Vec::new();
    for _ in 0..8 {
        waits.push(gar.backoff.current.secs);
        gar.attempted(false);
    }
    assert_eq!(waits, vec![1, 2, 4, 8, 16, 32, 60, 60]);
    gar.attempted(true);
    assert!(!gar.needs_reconnect);
    assert_eq!(gar.backoff.current, TimeSpan::from_secs(1));
    let mut x11 = ConnectionWatch::for_x11();
    assert!(!x11.needs_reconnect);
    assert!(x11.health_check_due(TimeSpan::from_secs(5), ConnectionWatch::x11_health_interval()));
    x11.lost();
    for _ in 0..6 {
        x11.attempted(false);
    }
    assert_eq!(x11.backoff.current, TimeSpan::from_secs(30));
}

#[test]
fn timers_and_image_fallback() {
    assert!(animation_timer_armed(true, false, true));
    assert!(!animation_timer_armed(true, true, true));
    assert!(!animation_timer_armed(true, false, false));
    assert!(slideshow_timer_armed(true, false, false));
    assert!(!slideshow_timer_armed(true, false, true));
    assert!(!slideshow_timer_armed(false, false, false));
    assert_eq!(animation_deadline_after_command(false, true), DeadlineUpdate::StartNow);
    assert_eq!(animation_deadline_after_command(true, true), DeadlineUpdate::Keep);
    assert_eq!(animation_deadline_after_command(true, false), DeadlineUpdate::Clear);
    assert_eq!(pick_image(Some(Ok(1)), Some(2)), Some(1));
    assert_eq!(pick_image(Some(Err("bad".to_string())), Some(2)), Some(2));
    assert_eq!(pick_image::<i32>(None, None), None);
    assert_eq!(pick_image::<i32>(Some(Err("bad".to_string())), None), None);
}
