//! Follow-mode tracking and level reading.

use voxtype_ctl::follow::{FollowTracker, observed_state};
use voxtype_ctl::level::Level;

#[test]
fn observed_state_trusts_files_only_while_alive() {
    assert_eq!(observed_state(true, Some("recording\n")), "recording");
    assert_eq!(observed_state(true, Some("  idle  ")), "idle");
    assert_eq!(observed_state(false, Some("recording")), "stopped");
    assert_eq!(observed_state(true, None), "stopped");
    assert_eq!(observed_state(false, None), "stopped");
}

#[test]
fn step_reports_only_changes() {
    let mut t = FollowTracker::new("idle".to_string());
    // same state, no level: nothing to report
    assert!(t.step(true, Some("idle\n"), None).is_none());
    // state moved: report it
    let (st, lv) = t.step(true, Some("recording\n"), None).unwrap();
    assert_eq!(st, "recording");
    assert!(lv.is_none());
    // same state, same absent level: quiet again
    assert!(t.step(true, Some("recording"), None).is_none());
}

#[test]
fn step_reports_level_movement_while_recording() {
    let mut t = FollowTracker::new("idle".to_string());
    let (_, lv) = t.step(true, Some("recording"), Some("0.25")).unwrap();
    assert_eq!(lv.unwrap().render(), "0.25");
    // the level moved, the state did not
    let (st, lv) = t.step(true, Some("recording"), Some("0.5")).unwrap();
    assert_eq!(st, "recording");
    assert_eq!(lv.unwrap().render(), "0.5");
    // same level text again: quiet
    assert!(t.step(true, Some("recording"), Some("0.5")).is_none());
    // equal value under another spelling: still quiet
    assert!(t.step(true, Some("recording"), Some("0.50")).is_none());
}

#[test]
fn step_ignores_levels_outside_recording() {
    let mut t = FollowTracker::new("recording".to_string());
    let (st, lv) = t.step(true, Some("transcribing"), Some("0.5")).unwrap();
    assert_eq!(st, "transcribing");
    assert!(lv.is_none(), "level is meaningful only while recording");
}

#[test]
fn step_treats_bad_levels_as_absent() {
    let mut t = FollowTracker::new("idle".to_string());
    let (_, lv) = t.step(true, Some("recording"), Some("1.5")).unwrap();
    assert!(lv.is_none(), "a level above one is absent, never clamped");
    assert!(t.step(true, Some("recording"), Some("not a number")).is_none());
    assert!(t.step(true, Some("recording"), Some("-0.1")).is_none());
}

#[test]
fn dead_daemon_reads_as_one_stop() {
    let mut t = FollowTracker::new("recording".to_string());
    // liveness fails: one synthetic stop, whatever the file says
    let (st, lv) = t.step(false, Some("recording"), Some("0.9")).unwrap();
    assert_eq!(st, "stopped");
    assert!(lv.is_none());
    // still down: never repeated
    assert!(t.step(false, Some("recording"), Some("0.9")).is_none());
    assert!(t.step(false, None, None).is_none());
    // back up: reported again
    let (st, _) = t.step(true, Some("idle"), None).unwrap();
    assert_eq!(st, "idle");
}

#[test]
fn poll_timeout_adapts_to_recording() {
    let t = FollowTracker::new("recording".to_string());
    assert_eq!(t.next_timeout_ms(), 50);
    let t = FollowTracker::new("idle".to_string());
    assert_eq!(t.next_timeout_ms(), 500);
    let t = FollowTracker::new("stopped".to_string());
    assert_eq!(t.next_timeout_ms(), 500);
}

#[test]
fn levels_parse_and_render_canonically() {
    assert_eq!(Level::parse("0.42").unwrap().render(), "0.42");
    assert_eq!(Level::parse("0.730").unwrap().render(), "0.73");
    assert_eq!(Level::parse(" 0.5 ").unwrap().render(), "0.5");
    assert_eq!(Level::parse("1.000").unwrap().render(), "1");
    assert_eq!(Level::parse("1").unwrap().render(), "1");
    assert_eq!(Level::parse("0").unwrap().render(), "0");
    assert_eq!(Level::parse("0.000").unwrap().render(), "0");
    assert_eq!(Level::parse(".5").unwrap().render(), "0.5");
    assert_eq!(Level::parse("00.25").unwrap().render(), "0.25");
    assert!(Level::parse("1.5").is_none());
    assert!(Level::parse("2").is_none());
    assert!(Level::parse("-0.1").is_none());
    assert!(Level::parse("1e-1").is_none());
    assert!(Level::parse("").is_none());
    assert!(Level::parse(".").is_none());
    assert!(Level::parse("0..5").is_none());
}
