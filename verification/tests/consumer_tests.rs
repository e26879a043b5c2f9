//! Consumer-side reading of status lines, tray and overlay decisions, and
//! notification text.

use voxtype_ctl::notification::{escape_quotes, notification_script};
use voxtype_ctl::overlay::{OverlayAction, OverlayState, apply_overlay_action, overlay_transition};
use voxtype_ctl::status::{ResolvedIcons, format_state_json};
use voxtype_ctl::tray::{TrayStatus, record_menu_label, record_menu_icon, tooltip_description,
    tooltip_title, tray_status};
use voxtype_ctl::{TrayState, get_app_bundle_path, status_class, status_level};

#[test]
fn test_quote_escaping() {
    // Test that quotes are properly escaped for AppleScript
    let title = r#"Test "title""#;
    let escaped = escape_quotes(title);
    assert_eq!(escaped, r#"Test \"title\""#);
}

#[test]
fn notification_script_embeds_escaped_texts() {
    let script = notification_script("Voxtype", r#"done "now""#);
    assert_eq!(
        script,
        r#"display notification "done \"now\"" with title "Voxtype""#
    );
}

#[test]
fn class_is_read_back_from_any_formatted_line() {
    let icons = ResolvedIcons {
        idle: "i".to_string(),
        recording: "r".to_string(),
        transcribing: "t".to_string(),
        stopped: "s".to_string(),
    };
    for state in ["idle", "recording", "transcribing", "stopped", "outputting"] {
        let line = format_state_json(state, &icons, None);
        assert_eq!(status_class(&line).as_deref(), Some(state));
    }
    assert_eq!(status_class(r#"{"class":"stopped"}"#).as_deref(), Some("stopped"));
    assert!(status_class("not json at all").is_none());
    assert!(status_class(r#"{"text":"x"}"#).is_none());
}

#[test]
fn level_is_read_back_from_a_recording_line() {
    let icons = ResolvedIcons {
        idle: "i".to_string(),
        recording: "r".to_string(),
        transcribing: "t".to_string(),
        stopped: "s".to_string(),
    };
    let lvl = voxtype_ctl::Level::parse("0.42").unwrap();
    let line = voxtype_ctl::format_state_json_with_level("recording", &icons, None, Some(&lvl));
    assert_eq!(status_level(&line).unwrap().render(), "0.42");
    let line = format_state_json("idle", &icons, None);
    assert!(status_level(&line).is_none());
}

#[test]
fn tray_state_follows_the_class() {
    assert_eq!(TrayState::from_class("recording"), TrayState::Recording);
    assert_eq!(TrayState::from_class("transcribing"), TrayState::Transcribing);
    assert_eq!(TrayState::from_class("idle"), TrayState::Idle);
    assert_eq!(TrayState::from_class("stopped"), TrayState::Stopped);
    assert_eq!(TrayState::from_class("anything else"), TrayState::Stopped);
}

#[test]
fn tray_texts_name_each_state() {
    assert_eq!(TrayState::Idle.icon_name(), "audio-input-microphone-symbolic");
    assert_eq!(TrayState::Recording.icon_name(), "media-record-symbolic");
    assert_eq!(TrayState::Transcribing.icon_name(), "view-refresh-symbolic");
    assert_eq!(TrayState::Stopped.icon_name(), "microphone-sensitivity-muted-symbolic");
    assert_eq!(TrayState::Idle.label(), "Prêt");
    assert_eq!(TrayState::Stopped.label(), "Daemon inactif");
    assert_eq!(TrayState::Idle.tooltip_body(), "Maintenez la touche pour dicter");
}

#[test]
fn tray_attention_and_tooltip() {
    assert_eq!(tray_status(&TrayState::Recording, ""), TrayStatus::NeedsAttention);
    assert_eq!(tray_status(&TrayState::Idle, ""), TrayStatus::Active);
    assert_eq!(tray_status(&TrayState::Idle, "0.6.0"), TrayStatus::NeedsAttention);
    assert_eq!(tooltip_title(&TrayState::Idle), "Voxtype — Prêt");
    assert_eq!(
        tooltip_description(&TrayState::Idle, ""),
        "Maintenez la touche pour dicter"
    );
    assert_eq!(
        tooltip_description(&TrayState::Idle, "0.6.0"),
        "Maintenez la touche pour dicter\nMise à jour disponible : 0.6.0"
    );
    assert_eq!(record_menu_label(&TrayState::Recording), "⏹ Arrêter l'enregistrement");
    assert_eq!(record_menu_label(&TrayState::Idle), "🎙 Enregistrer");
    assert_eq!(record_menu_icon(&TrayState::Recording), "media-playback-stop-symbolic");
    assert_eq!(record_menu_icon(&TrayState::Idle), "media-record-symbolic");
}

#[test]
fn overlay_reacts_to_classes() {
    assert!(matches!(
        overlay_transition(&OverlayState::Hidden, "recording"),
        OverlayAction::ShowRecording
    ));
    assert!(matches!(
        overlay_transition(&OverlayState::Recording, "recording"),
        OverlayAction::Keep
    ));
    assert!(matches!(
        overlay_transition(&OverlayState::Recording, "transcribing"),
        OverlayAction::ShowTranscribing
    ));
    assert!(matches!(
        overlay_transition(&OverlayState::Transcribing, "idle"),
        OverlayAction::Hide
    ));
    assert!(matches!(
        overlay_transition(&OverlayState::Hidden, "idle"),
        OverlayAction::Keep
    ));
    match overlay_transition(&OverlayState::Recording, "stopped") {
        OverlayAction::ShowError(m) => {
            assert_eq!(m, "Daemon inactif — systemctl --user start voxtype")
        },
        _ => panic!("a stop while recording shows the error note"),
    }
    assert!(matches!(
        overlay_transition(&OverlayState::Hidden, "stopped"),
        OverlayAction::Keep
    ));
    assert!(matches!(
        overlay_transition(&OverlayState::Hidden, "weird"),
        OverlayAction::Keep
    ));
}

#[test]
fn overlay_actions_move_the_state() {
    let s = apply_overlay_action(OverlayState::Hidden, &OverlayAction::ShowRecording);
    assert!(matches!(s, OverlayState::Recording));
    let s = apply_overlay_action(s, &OverlayAction::ShowTranscribing);
    assert!(matches!(s, OverlayState::Transcribing));
    let s = apply_overlay_action(s, &OverlayAction::Hide);
    assert!(matches!(s, OverlayState::Hidden));
}

#[test]
fn fixed_paths_are_stable() {
    assert_eq!(get_app_bundle_path(), "/Applications/Voxtype.app/Contents/MacOS/voxtype");
    assert_eq!(voxtype_ctl::paths::pid_file_name(), "pid");
    assert_eq!(voxtype_ctl::paths::audio_level_file_name(), "audio_level");
}
