//! Tray-side view of the daemon state.
//!
//! The system-tray consumer reads status lines from the bus and keeps one
//! `TrayState` value; icon, label and tooltip are pure functions of it.

use vstd::prelude::*;

verus! {

/// Daemon state as seen by the tray consumer.
///
/// `Stopped` is synthetic: the daemon never reports it, a consumer infers it
/// from an unknown class or from the bus's synthetic stop line.
#[derive(Debug, Clone, Copy, PartialEq, Eq, Structural)]
pub enum TrayState {
    Idle,
    Recording,
    Transcribing,
    Stopped,
}

/// What `from_class` maps a class string to.
pub open spec fn state_of_class(class: Seq<char>) -> TrayState {
    if class == "recording"@ {
        TrayState::Recording
    } else if class == "transcribing"@ {
        TrayState::Transcribing
    } else if class == "idle"@ {
        TrayState::Idle
    } else {
        TrayState::Stopped
    }
}

impl TrayState {
    /// Map the `class` field of a status record to a tray state; any class
    /// that is not one of the three daemon-written names means stopped.
    pub fn from_class(class: &str) -> (r: Self)
        ensures
            r == state_of_class(class@),
    {
        if crate::strutil::str_eq_lit(class, "recording") {
            TrayState::Recording
        } else if crate::strutil::str_eq_lit(class, "transcribing") {
            TrayState::Transcribing
        } else if crate::strutil::str_eq_lit(class, "idle") {
            TrayState::Idle
        } else {
            TrayState::Stopped
        }
    }

    /// Freedesktop icon name for the current state.
    pub fn icon_name(&self) -> (r: &'static str)
        ensures
            *self == TrayState::Idle ==> r@ == "audio-input-microphone-symbolic"@,
            *self == TrayState::Recording ==> r@ == "media-record-symbolic"@,
            *self == TrayState::Transcribing ==> r@ == "view-refresh-symbolic"@,
            *self == TrayState::Stopped ==> r@ == "microphone-sensitivity-muted-symbolic"@,
    {
        match self {
            TrayState::Idle => "audio-input-microphone-symbolic",
            TrayState::Recording => "media-record-symbolic",
            TrayState::Transcribing => "view-refresh-symbolic",
            TrayState::Stopped => "microphone-sensitivity-muted-symbolic",
        }
    }

    /// Human-readable label for the menu status line.
    pub fn label(&self) -> (r: &'static str)
        ensures
            r@ == spec_label(*self),
    {
        match self {
            TrayState::Idle => "Prêt",
            TrayState::Recording => "Enregistrement…",
            TrayState::Transcribing => "Transcription…",
            TrayState::Stopped => "Daemon inactif",
        }
    }

    /// Tooltip body text.
    pub fn tooltip_body(&self) -> (r: &'static str)
        ensures
            r@ == spec_tooltip_body(*self),
    {
        match self {
            TrayState::Idle => "Maintenez la touche pour dicter",
            TrayState::Recording => "Enregistrement en cours",
            TrayState::Transcribing => "Transcription en cours…",
            TrayState::Stopped => "Le daemon Voxtype n'est pas en cours d'exécution",
        }
    }
}


/// The label of a tray state.
pub open spec fn spec_label(s: TrayState) -> Seq<char> {
    match s {
        TrayState::Idle => "Prêt"@,
        TrayState::Recording => "Enregistrement…"@,
        TrayState::Transcribing => "Transcription…"@,
        TrayState::Stopped => "Daemon inactif"@,
    }
}

/// The tooltip body of a tray state.
pub open spec fn spec_tooltip_body(s: TrayState) -> Seq<char> {
    match s {
        TrayState::Idle => "Maintenez la touche pour dicter"@,
        TrayState::Recording => "Enregistrement en cours"@,
        TrayState::Transcribing => "Transcription en cours…"@,
        TrayState::Stopped => "Le daemon Voxtype n'est pas en cours d'exécution"@,
    }
}

/// The attention level the tray reports over the status-notifier protocol.
#[derive(Debug, Clone, Copy, PartialEq, Eq, Structural)]
pub enum TrayStatus {
    Active,
    NeedsAttention,
}

/// The tray asks for attention exactly while recording or while an update
/// is on offer.
pub fn tray_status(state: &TrayState, update_version: &str) -> (r: TrayStatus)
    ensures
        (r == TrayStatus::NeedsAttention) == (update_version@.len() > 0 || *state
            == TrayState::Recording),
{
    if update_version.unicode_len() > 0 {
        return TrayStatus::NeedsAttention;
    }
    match state {
        TrayState::Recording => TrayStatus::NeedsAttention,
        _ => TrayStatus::Active,
    }
}

/// The tooltip title: the application name and the state's label.
pub fn tooltip_title(state: &TrayState) -> (r: String)
    ensures
        r@ == "Voxtype — "@ + spec_label(*state),
{
    let mut out = String::from_str("Voxtype — ");
    out.append(state.label());
    out
}

/// The tooltip description: the state's body text, and the available
/// update when there is one.
pub fn tooltip_description(state: &TrayState, update_version: &str) -> (r: String)
    ensures
        r@ == spec_tooltip_body(*state) + (if update_version@.len() > 0 {
            "\nMise à jour disponible : "@ + update_version@
        } else {
            Seq::<char>::empty()
        }),
{
    let mut out = String::from_str(state.tooltip_body());
    if update_version.unicode_len() > 0 {
        out.append("\nMise à jour disponible : ");
        out.append(update_version);
    } else {
        proof {
            assert(spec_tooltip_body(*state) + Seq::<char>::empty() =~= spec_tooltip_body(
                *state,
            ));
        }
    }
    out
}

/// The primary menu entry's label: stop while recording, record otherwise.
pub fn record_menu_label(state: &TrayState) -> (r: &'static str)
    ensures
        *state == TrayState::Recording ==> r@ == "⏹ Arrêter l'enregistrement"@,
        *state != TrayState::Recording ==> r@ == "🎙 Enregistrer"@,
{
    match state {
        TrayState::Recording => "⏹ Arrêter l'enregistrement",
        _ => "🎙 Enregistrer",
    }
}

/// The primary menu entry's icon.
pub fn record_menu_icon(state: &TrayState) -> (r: &'static str)
    ensures
        *state == TrayState::Recording ==> r@ == "media-playback-stop-symbolic"@,
        *state != TrayState::Recording ==> r@ == "media-record-symbolic"@,
{
    match state {
        TrayState::Recording => "media-playback-stop-symbolic",
        _ => "media-record-symbolic",
    }
}

} // verus!
