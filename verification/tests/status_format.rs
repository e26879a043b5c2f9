//! The status schema: field presence, echoes, escaping and round trips.

use voxtype_ctl::level::Level;
use voxtype_ctl::status::{ExtendedStatusInfo, ResolvedIcons, WaybarStatus, format_state_json,
    format_state_json_with_level};

/// Helper: create default test icons (emoji theme)
fn test_icons() -> ResolvedIcons {
    ResolvedIcons {
        idle: "🎙️".to_string(),
        recording: "🎤".to_string(),
        transcribing: "⏳".to_string(),
        stopped: "".to_string(),
    }
}

#[test]
fn test_json_idle_has_four_standard_fields() {
    let icons = test_icons();
    let json = format_state_json("idle", &icons, None);
    let parsed: serde_json::Value = serde_json::from_str(&json).expect("valid JSON");
    assert!(parsed["text"].is_string(), "text field missing");
    assert!(parsed["alt"].is_string(), "alt field missing");
    assert!(parsed["class"].is_string(), "class field missing");
    assert!(parsed["tooltip"].is_string(), "tooltip field missing");
}

#[test]
fn test_json_recording_has_four_standard_fields() {
    let icons = test_icons();
    let json = format_state_json("recording", &icons, None);
    let parsed: serde_json::Value = serde_json::from_str(&json).expect("valid JSON");
    assert_eq!(parsed["class"], "recording");
    assert_eq!(parsed["alt"], "recording");
    assert!(parsed["text"].is_string());
    assert!(parsed["tooltip"].is_string());
}

#[test]
fn test_json_transcribing_has_four_standard_fields() {
    let icons = test_icons();
    let json = format_state_json("transcribing", &icons, None);
    let parsed: serde_json::Value = serde_json::from_str(&json).expect("valid JSON");
    assert_eq!(parsed["class"], "transcribing");
    assert_eq!(parsed["alt"], "transcribing");
}

#[test]
fn test_json_stopped_has_four_standard_fields() {
    let icons = test_icons();
    let json = format_state_json("stopped", &icons, None);
    let parsed: serde_json::Value = serde_json::from_str(&json).expect("valid JSON");
    assert_eq!(parsed["class"], "stopped");
    assert_eq!(parsed["tooltip"], "Voxtype not running");
}

#[test]
fn test_json_no_extended_fields_without_flag() {
    let icons = test_icons();
    let json = format_state_json("idle", &icons, None);
    let parsed: serde_json::Value = serde_json::from_str(&json).expect("valid JSON");
    assert!(parsed.get("model").is_none(), "model should be absent without --extended");
    assert!(parsed.get("device").is_none(), "device should be absent without --extended");
    assert!(parsed.get("backend").is_none(), "backend should be absent without --extended");
}

#[test]
fn test_json_extended_fields_present_with_flag() {
    let icons = test_icons();
    let ext = ExtendedStatusInfo {
        model: "base".to_string(),
        device: "default".to_string(),
        backend: "CPU (native)".to_string(),
    };
    let json = format_state_json("idle", &icons, Some(&ext));
    let parsed: serde_json::Value = serde_json::from_str(&json).expect("valid JSON");
    assert_eq!(parsed["model"], "base");
    assert_eq!(parsed["device"], "default");
    assert_eq!(parsed["backend"], "CPU (native)");
}

#[test]
fn test_json_extended_tooltip_includes_extra_info() {
    let icons = test_icons();
    let ext = ExtendedStatusInfo {
        model: "large-v3".to_string(),
        device: "pulse".to_string(),
        backend: "GPU (Vulkan)".to_string(),
    };
    let json = format_state_json("idle", &icons, Some(&ext));
    let parsed: serde_json::Value = serde_json::from_str(&json).expect("valid JSON");
    let tooltip = parsed["tooltip"].as_str().unwrap();
    assert!(tooltip.contains("Model: large-v3"), "tooltip should include model");
    assert!(tooltip.contains("Device: pulse"), "tooltip should include device");
    assert!(tooltip.contains("Backend: GPU (Vulkan)"), "tooltip should include backend");
}

#[test]
fn test_json_stopped_state_class() {
    let icons = test_icons();
    let json = format_state_json("stopped", &icons, None);
    let parsed: serde_json::Value = serde_json::from_str(&json).expect("valid JSON");
    assert_eq!(parsed["class"], "stopped");
    assert_eq!(parsed["alt"], "stopped");
}

#[test]
fn test_json_special_chars_in_model_name() {
    let icons = test_icons();
    let ext = ExtendedStatusInfo {
        model: r#"model "with" quotes & backslash \"#.to_string(),
        device: "device/with/slashes".to_string(),
        backend: "backend<with>angles".to_string(),
    };
    let json = format_state_json("idle", &icons, Some(&ext));
    // Must be parseable as valid JSON despite special characters
    let parsed: serde_json::Value =
        serde_json::from_str(&json).expect("JSON with special chars must be valid");
    assert!(parsed["model"].as_str().unwrap().contains("quotes"));
}

#[test]
fn test_json_unicode_in_icon_text() {
    let icons = ResolvedIcons {
        idle: "🎙️ prêt".to_string(),
        recording: "🎤".to_string(),
        transcribing: "⏳".to_string(),
        stopped: "⛔".to_string(),
    };
    let json = format_state_json("idle", &icons, None);
    let parsed: serde_json::Value =
        serde_json::from_str(&json).expect("JSON with unicode must be valid");
    assert!(parsed["text"].as_str().unwrap().contains("prêt"));
}

#[test]
fn test_json_class_values_are_state_names() {
    let icons = test_icons();
    for state in &["idle", "recording", "transcribing", "stopped"] {
        let json = format_state_json(state, &icons, None);
        let parsed: serde_json::Value = serde_json::from_str(&json).expect("valid JSON");
        assert_eq!(parsed["class"].as_str().unwrap(), *state,
            "class field should equal the state name for state '{}'", state);
        assert_eq!(parsed["alt"].as_str().unwrap(), *state,
            "alt field should equal the state name for state '{}'", state);
    }
}

#[test]
fn test_json_unknown_state_falls_back_to_idle_icon() {
    let icons = test_icons();
    let json = format_state_json("outputting", &icons, None);
    let parsed: serde_json::Value = serde_json::from_str(&json).expect("valid JSON");
    // Unknown states use idle icon
    assert_eq!(parsed["text"].as_str().unwrap(), icons.idle);
    assert_eq!(parsed["tooltip"], "Unknown state");
    // But class/alt reflect the actual state string
    assert_eq!(parsed["class"], "outputting");
}

#[test]
fn test_waybar_status_struct_serialization_roundtrip() {
    let status = WaybarStatus {
        text: "🎙️".to_string(),
        alt: "idle".to_string(),
        class: "idle".to_string(),
        tooltip: "Ready".to_string(),
        level: None,
        extended: None,
    };
    let json = status.render();
    let parsed: serde_json::Value = serde_json::from_str(&json).unwrap();
    // Optional fields should be absent when None
    assert!(parsed.get("model").is_none());
    assert!(parsed.get("device").is_none());
    assert!(parsed.get("backend").is_none());
    assert!(parsed.get("level").is_none());
    // Required fields present
    assert_eq!(parsed["text"], "🎙️");
    assert_eq!(parsed["alt"], "idle");
    assert_eq!(parsed["class"], "idle");
    assert_eq!(parsed["tooltip"], "Ready");
}

#[test]
fn test_json_unknown_state_with_extended() {
    let icons = test_icons();
    let ext = ExtendedStatusInfo {
        model: "base".to_string(),
        device: "default".to_string(),
        backend: "CPU (native)".to_string(),
    };
    let json = format_state_json("outputting", &icons, Some(&ext));
    let parsed: serde_json::Value = serde_json::from_str(&json).expect("valid JSON");
    // Unknown state uses idle icon even with extended
    assert_eq!(parsed["text"].as_str().unwrap(), icons.idle);
    assert_eq!(parsed["class"], "outputting");
    assert_eq!(parsed["model"], "base");
}

#[test]
fn test_json_empty_icon_strings() {
    let icons = ResolvedIcons {
        idle: "".to_string(),
        recording: "".to_string(),
        transcribing: "".to_string(),
        stopped: "".to_string(),
    };
    let json = format_state_json("idle", &icons, None);
    let parsed: serde_json::Value =
        serde_json::from_str(&json).expect("valid JSON even with empty icons");
    assert_eq!(parsed["text"], "");
    assert_eq!(parsed["class"], "idle");
}

#[test]
fn test_json_field_order_stability() {
    let icons = test_icons();
    let json = format_state_json("idle", &icons, None);
    // The encoder emits struct fields in declaration order
    // Verify the order is: text, alt, class, tooltip
    let fields: Vec<&str> = json
        .trim_start_matches('{')
        .trim_end_matches('}')
        .split(',')
        .filter_map(|pair| pair.split(':').next())
        .map(|key| key.trim().trim_matches('"'))
        .collect();
    assert_eq!(fields, vec!["text", "alt", "class", "tooltip"],
        "Field order must be stable: text, alt, class, tooltip");
}

#[test]
fn test_waybar_status_deserialize_roundtrip() {
    let original = WaybarStatus {
        text: "🎤".to_string(),
        alt: "recording".to_string(),
        class: "recording".to_string(),
        tooltip: "Recording...".to_string(),
        level: None,
        extended: Some(ExtendedStatusInfo {
            model: "large-v3".to_string(),
            device: "pulse".to_string(),
            backend: "GPU (Vulkan)".to_string(),
        }),
    };
    let json = original.render();
    let deserialized: WaybarStatus = WaybarStatus::parse(&json).unwrap();
    assert_eq!(original, deserialized);
}

#[test]
fn test_waybar_status_deserialize_without_optional_fields() {
    // Simulate what Waybar or an external consumer sees (no extended fields)
    let json = r#"{"text":"🎙️","alt":"idle","class":"idle","tooltip":"Ready"}"#;
    let status: WaybarStatus = WaybarStatus::parse(json).unwrap();
    assert_eq!(status.text, "🎙️");
    assert_eq!(status.level, None);
    assert_eq!(status.alt, "idle");
    assert_eq!(status.tooltip, "Ready");
    assert_eq!(status.extended, None);
}

#[test]
fn test_json_level_present_during_recording() {
    let icons = test_icons();
    let lvl = Level::parse("0.42").unwrap();
    let json = format_state_json_with_level("recording", &icons, None, Some(&lvl));
    let parsed: serde_json::Value = serde_json::from_str(&json).expect("valid JSON");
    let level = parsed["level"].as_f64().expect("level should be a number");
    assert!((level - 0.42).abs() < 0.001, "level should be ~0.42");
}

#[test]
fn test_json_level_absent_during_idle() {
    let icons = test_icons();
    let lvl = Level::parse("0.42").unwrap();
    let json = format_state_json_with_level("idle", &icons, None, Some(&lvl));
    let parsed: serde_json::Value = serde_json::from_str(&json).expect("valid JSON");
    assert!(parsed.get("level").is_none(), "level should be absent during idle");
}

#[test]
fn test_json_level_absent_during_transcribing() {
    let icons = test_icons();
    let lvl = Level::parse("0.5").unwrap();
    let json = format_state_json_with_level("transcribing", &icons, None, Some(&lvl));
    let parsed: serde_json::Value = serde_json::from_str(&json).expect("valid JSON");
    assert!(parsed.get("level").is_none(), "level should be absent during transcribing");
}

#[test]
fn test_json_level_none_not_serialized() {
    let icons = test_icons();
    let json = format_state_json_with_level("recording", &icons, None, None);
    let parsed: serde_json::Value = serde_json::from_str(&json).expect("valid JSON");
    assert!(parsed.get("level").is_none(), "level None should not be serialized");
}

#[test]
fn test_json_level_with_extended() {
    let icons = test_icons();
    let ext = ExtendedStatusInfo {
        model: "base".to_string(),
        device: "default".to_string(),
        backend: "CPU (native)".to_string(),
    };
    let lvl = Level::parse("0.75").unwrap();
    let json = format_state_json_with_level("recording", &icons, Some(&ext), Some(&lvl));
    let parsed: serde_json::Value = serde_json::from_str(&json).expect("valid JSON");
    assert!(parsed["level"].as_f64().is_some(), "level should be present");
    assert_eq!(parsed["model"], "base", "extended fields should still work");
}

#[test]
fn recording_snapshot_with_level_and_no_extended_keys() {
    // state recording with a live daemon and level 0.73: the line carries
    // the class and the level, and no extended keys
    let icons = test_icons();
    let lvl = Level::parse("0.73").unwrap();
    let json = format_state_json_with_level("recording", &icons, None, Some(&lvl));
    assert!(json.contains("\"class\":\"recording\""));
    assert!(json.contains("\"level\":0.73"));
    let parsed: serde_json::Value = serde_json::from_str(&json).unwrap();
    assert!(parsed.get("model").is_none());
    assert!(parsed.get("device").is_none());
    assert!(parsed.get("backend").is_none());
}

#[test]
fn extended_idle_snapshot_carries_model_and_tooltip() {
    // extended info with state idle: the model key and the tooltip line
    let icons = test_icons();
    let ext = ExtendedStatusInfo {
        model: "base".to_string(),
        device: "default".to_string(),
        backend: "CPU (native)".to_string(),
    };
    let json = format_state_json("idle", &icons, Some(&ext));
    assert!(json.contains("\"model\":\"base\""));
    let parsed: serde_json::Value = serde_json::from_str(&json).unwrap();
    assert!(parsed["tooltip"].as_str().unwrap().contains("Model: base"));
}

#[test]
fn control_characters_round_trip() {
    let original = WaybarStatus {
        text: "a\u{01}b\tc\nd\u{1f}e".to_string(),
        alt: "idle".to_string(),
        class: "idle".to_string(),
        tooltip: "x\u{08}y\u{0c}z\r".to_string(),
        level: None,
        extended: None,
    };
    let json = original.render();
    let parsed: serde_json::Value = serde_json::from_str(&json).expect("valid JSON");
    assert_eq!(parsed["text"].as_str().unwrap(), original.text);
    assert_eq!(parsed["tooltip"].as_str().unwrap(), original.tooltip);
    let back = WaybarStatus::parse(&json).unwrap();
    assert_eq!(original, back);
}

#[test]
fn parse_accepts_only_the_canonical_shape() {
    // wrong field order
    assert!(WaybarStatus::parse(r#"{"alt":"idle","text":"x","class":"idle","tooltip":"t"}"#)
        .is_none());
    // missing tooltip
    assert!(WaybarStatus::parse(r#"{"text":"x","alt":"idle","class":"idle"}"#).is_none());
    assert!(WaybarStatus::parse("").is_none());
    assert!(WaybarStatus::parse("{}").is_none());
    // whitespace is not part of the canonical form
    assert!(WaybarStatus::parse(r#"{ "text":"x" }"#).is_none());
    // trailing garbage
    let good = r#"{"text":"x","alt":"idle","class":"idle","tooltip":"t"}"#;
    assert!(WaybarStatus::parse(good).is_some());
    assert!(WaybarStatus::parse(&format!("{} ", good)).is_none());
}

#[test]
fn whole_levels_are_plain_json_numbers() {
    let icons = test_icons();
    let one = Level::parse("1.0").unwrap();
    let json = format_state_json_with_level("recording", &icons, None, Some(&one));
    assert!(json.contains("\"level\":1"));
    let parsed: serde_json::Value = serde_json::from_str(&json).expect("valid JSON");
    assert_eq!(parsed["level"].as_f64().unwrap(), 1.0);
}
