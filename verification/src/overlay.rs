//! Overlay-side view of the daemon state.
//!
//! The floating overlay drains its bus channel without blocking on every
//! scheduler tick, reads the class out of each line, and changes its
//! display. The decisions live here; the window and drawing work stays in
//! the shell around the library.

use vstd::prelude::*;
use crate::strutil::str_eq_lit;

verus! {

/// What the overlay currently shows.
#[derive(Debug)]
pub enum OverlayState {
    Hidden,
    Recording,
    Transcribing,
    Error(String),
}

/// What the overlay does in reaction to one status line.
#[derive(Debug)]
pub enum OverlayAction {
    /// Show the waveform window and restart the timer.
    ShowRecording,
    /// Freeze the waveform and show the transcription note.
    ShowTranscribing,
    /// Hide the window.
    Hide,
    /// Show this error note, auto-hiding later.
    ShowError(String),
    /// Change nothing.
    Keep,
}

/// Whether the overlay window is up for an active phase.
pub open spec fn overlay_active(cur: OverlayState) -> bool {
    cur is Recording || cur is Transcribing
}

/// React to the class of one status line: enter recording or transcribing
/// when not already there, leave when the daemon goes idle, and show the
/// error note when the daemon stops while the overlay is up. Classes that
/// say nothing to the overlay change nothing.
pub fn overlay_transition(cur: &OverlayState, class: &str) -> (r: OverlayAction)
    ensures
        class@ == "recording"@ ==> (if *cur is Recording {
            r is Keep
        } else {
            r is ShowRecording
        }),
        class@ == "transcribing"@ ==> (if *cur is Transcribing {
            r is Keep
        } else {
            r is ShowTranscribing
        }),
        class@ == "idle"@ ==> (if overlay_active(*cur) {
            r is Hide
        } else {
            r is Keep
        }),
        class@ == "stopped"@ ==> (if overlay_active(*cur) {
            r matches OverlayAction::ShowError(m) && m@
                == "Daemon inactif — systemctl --user start voxtype"@
        } else {
            r is Keep
        }),
        class@ != "recording"@ && class@ != "transcribing"@ && class@ != "idle"@ && class@
            != "stopped"@ ==> r is Keep,
{
    proof {
        reveal_strlit("recording");
        reveal_strlit("transcribing");
        reveal_strlit("idle");
        reveal_strlit("stopped");
        assert("recording"@.len() == 9 && "transcribing"@.len() == 12 && "idle"@.len() == 4
            && "stopped"@.len() == 7);
    }
    if str_eq_lit(class, "recording") {
        match cur {
            OverlayState::Recording => OverlayAction::Keep,
            _ => OverlayAction::ShowRecording,
        }
    } else if str_eq_lit(class, "transcribing") {
        match cur {
            OverlayState::Transcribing => OverlayAction::Keep,
            _ => OverlayAction::ShowTranscribing,
        }
    } else if str_eq_lit(class, "idle") {
        match cur {
            OverlayState::Recording => OverlayAction::Hide,
            OverlayState::Transcribing => OverlayAction::Hide,
            _ => OverlayAction::Keep,
        }
    } else if str_eq_lit(class, "stopped") {
        match cur {
            OverlayState::Recording => OverlayAction::ShowError(
                String::from_str("Daemon inactif — systemctl --user start voxtype"),
            ),
            OverlayState::Transcribing => OverlayAction::ShowError(
                String::from_str("Daemon inactif — systemctl --user start voxtype"),
            ),
            _ => OverlayAction::Keep,
        }
    } else {
        OverlayAction::Keep
    }
}

/// The state the overlay is in after performing an action.
pub fn apply_overlay_action(cur: OverlayState, action: &OverlayAction) -> (r: OverlayState)
    ensures
        *action is ShowRecording ==> r is Recording,
        *action is ShowTranscribing ==> r is Transcribing,
        *action is Hide ==> r is Hidden,
        *action matches OverlayAction::ShowError(m) ==> (r matches OverlayState::Error(e) && e@
            == m@),
        *action is Keep ==> r == cur,
{
    match action {
        OverlayAction::ShowRecording => OverlayState::Recording,
        OverlayAction::ShowTranscribing => OverlayState::Transcribing,
        OverlayAction::Hide => OverlayState::Hidden,
        OverlayAction::ShowError(m) => OverlayState::Error(m.clone()),
        OverlayAction::Keep => cur,
    }
}

} // verus!
