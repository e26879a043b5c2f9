//! The remote-control dispatcher's decisions.
//!
//! A record command resolves the daemon's liveness from the PID-lock file,
//! then either writes one-shot mailbox files and sends a start or stop
//! signal, or reports why it will not. Everything here is the decision
//! logic: reading files, probing processes, writing mailboxes and sending
//! signals stay outside and hand plain values in and out. A lock whose
//! process is gone is stale: it is to be deleted and reported, with no
//! signal sent and no mailbox written. A profile override is validated
//! before anything is written or signalled.

use vstd::prelude::*;
use crate::strutil::{trimmed, trim, str_eq_lit, all_digits, digits_value, is_digit,
    is_digit_char, digit_value_of, lemma_digits_value_push, lemma_digits_value_prefix};

verus! {

/// An override for the daemon's output mode.
#[derive(Debug, Clone, Copy, PartialEq, Eq, Structural)]
pub enum OutputModeOverride {
    Type,
    Clipboard,
    Paste,
    File,
}

/// The optional overrides a record command may carry.
#[derive(Debug)]
pub struct RecordOverrides {
    pub output_mode: Option<OutputModeOverride>,
    /// An explicit path for the file output mode.
    pub file_path: Option<String>,
    pub model: Option<String>,
    pub profile: Option<String>,
}

/// One record command.
#[derive(Debug)]
pub enum RecordAction {
    Start(RecordOverrides),
    Stop(RecordOverrides),
    Toggle(RecordOverrides),
    Cancel,
}

/// The two control signals the daemon understands.
#[derive(Debug, Clone, Copy, PartialEq, Eq, Structural)]
pub enum DaemonSignal {
    Start,
    Stop,
}

/// The mailbox files, one fixed name each.
#[derive(Debug, Clone, Copy, PartialEq, Eq, Structural)]
pub enum MailboxKind {
    OutputMode,
    Model,
    Profile,
    Cancel,
}

/// One pending mailbox write.
#[derive(Debug)]
pub struct Mailbox {
    pub kind: MailboxKind,
    pub content: String,
}

/// What the PID-lock file resolves to.
#[derive(Debug, PartialEq)]
pub enum LockStatus {
    /// No lock file: the daemon is not running.
    Absent,
    /// The lock file does not hold a plain process number.
    Invalid,
    /// The recorded process number; liveness still needs an outside probe.
    Pid(i32),
}

/// The dispatcher's verdict for one command.
#[derive(Debug)]
pub enum RecordPlan {
    /// The probed process is gone: delete the lock, report not running,
    /// write nothing, signal nothing.
    StaleLock,
    /// The requested profile is not configured: report the configured
    /// names, write nothing, signal nothing.
    UnknownProfile { available: Vec<String> },
    /// A toggle needs the persisted state, and no state file is configured.
    ToggleNeedsStateFile,
    /// Write these mailboxes in order, each by atomic replacement, then
    /// send the signal if there is one.
    Go { mailboxes: Vec<Mailbox>, signal: Option<DaemonSignal> },
}

/// The file name of each mailbox.
pub fn mailbox_file_name(kind: MailboxKind) -> (r: &'static str)
    ensures
        kind == MailboxKind::OutputMode ==> r@ == "output_mode_override"@,
        kind == MailboxKind::Model ==> r@ == "model_override"@,
        kind == MailboxKind::Profile ==> r@ == "profile_override"@,
        kind == MailboxKind::Cancel ==> r@ == "cancel"@,
{
    match kind {
        MailboxKind::OutputMode => "output_mode_override",
        MailboxKind::Model => "model_override",
        MailboxKind::Profile => "profile_override",
        MailboxKind::Cancel => "cancel",
    }
}

/// What the lock file text resolves to: the recorded process number when
/// the trimmed text is a plain number that fits, invalid otherwise, absent
/// when there is no file at all.
pub open spec fn spec_lock_status(text: Option<Seq<char>>) -> LockStatus {
    match text {
        Option::None => LockStatus::Absent,
        Option::Some(t) => {
            let d = trimmed(t);
            if d.len() > 0 && all_digits(d) && digits_value(d) <= i32::MAX {
                LockStatus::Pid(digits_value(d) as i32)
            } else {
                LockStatus::Invalid
            }
        },
    }
}

/// Resolve the PID-lock file content.
#[verifier::loop_isolation(false)]
pub fn read_lock(text: Option<&str>) -> (r: LockStatus)
    ensures
        r == spec_lock_status(opt_str_vw(text)),
{
    let raw = match text {
        Option::Some(t) => t,
        Option::None => {
            return LockStatus::Absent;
        },
    };
    let t = trim(raw);
    let len = t.unicode_len();
    if len == 0 {
        return LockStatus::Invalid;
    }
    let mut acc: u32 = 0;
    let mut i: usize = 0;
    while i < len
        invariant
            i <= len,
            forall|j: int| 0 <= j < i ==> is_digit(t@[j]),
            acc <= i32::MAX,
            acc as nat == digits_value(t@.take(i as int)),
        decreases len - i,
    {
        let c = t.get_char(i);
        if !is_digit_char(c) {
            assert(!all_digits(t@));
            return LockStatus::Invalid;
        }
        let d = digit_value_of(c);
        proof {
            lemma_digits_value_push(t@.take(i as int), c);
            assert(t@.take(i as int + 1) =~= t@.take(i as int).push(c));
        }
        if acc > (0x7fff_ffffu32 - (d as u32)) / 10 {
            proof {
                assert(acc * 10 + d > i32::MAX) by (nonlinear_arith)
                    requires
                        acc > (0x7fff_ffffu32 - (d as u32)) / 10,
                        d <= 9,
                ;
                lemma_digits_value_prefix(t@, i as int + 1);
            }
            return LockStatus::Invalid;
        }
        acc = acc * 10 + (d as u32);
        i = i + 1;
    }
    proof {
        assert(t@.take(len as int) =~= t@);
    }
    LockStatus::Pid(acc as i32)
}

/// The view of an optional borrowed string.
pub open spec fn opt_str_vw(s: Option<&str>) -> Option<Seq<char>> {
    match s {
        Option::Some(t) => Option::Some(t@),
        Option::None => Option::None,
    }
}

/// The signal a toggle sends: stop exactly when the persisted state text,
/// trimmed, is `recording`; start for anything else, the empty text and a
/// missing file included.
pub open spec fn spec_toggle_signal(state_text: Option<Seq<char>>) -> DaemonSignal {
    match state_text {
        Option::Some(t) => if trimmed(t) == "recording"@ {
            DaemonSignal::Stop
        } else {
            DaemonSignal::Start
        },
        Option::None => DaemonSignal::Start,
    }
}

/// Decide the toggle signal from the persisted state text.
pub fn toggle_signal(state_text: Option<&str>) -> (r: DaemonSignal)
    ensures
        r == spec_toggle_signal(opt_str_vw(state_text)),
{
    match state_text {
        Option::Some(t) => {
            if str_eq_lit(trim(t), "recording") {
                DaemonSignal::Stop
            } else {
                DaemonSignal::Start
            }
        },
        Option::None => DaemonSignal::Start,
    }
}

/// The overrides a command carries; a cancel carries none.
pub open spec fn action_overrides(a: RecordAction) -> Option<RecordOverrides> {
    match a {
        RecordAction::Start(o) => Option::Some(o),
        RecordAction::Stop(o) => Option::Some(o),
        RecordAction::Toggle(o) => Option::Some(o),
        RecordAction::Cancel => Option::None,
    }
}

/// The profile override a command carries.
pub open spec fn action_profile(a: RecordAction) -> Option<Seq<char>> {
    match action_overrides(a) {
        Option::Some(o) => match o.profile {
            Option::Some(p) => Option::Some(p@),
            Option::None => Option::None,
        },
        Option::None => Option::None,
    }
}

/// Whether a profile of this name is configured.
pub open spec fn has_profile(profiles: Seq<String>, p: Seq<char>) -> bool {
    exists|i: int| 0 <= i < profiles.len() && profiles[i]@ == p
}

/// Whether the command's profile override, if any, is configured.
pub open spec fn profile_ok(a: RecordAction, profiles: Seq<String>) -> bool {
    match action_profile(a) {
        Option::Some(p) => has_profile(profiles, p),
        Option::None => true,
    }
}

/// The text of the output-mode mailbox: the mode's name, with an explicit
/// file path carried as `file:` and the path.
pub open spec fn spec_mode_text(m: OutputModeOverride, file_path: Option<Seq<char>>) -> Seq<char> {
    match m {
        OutputModeOverride::Type => "type"@,
        OutputModeOverride::Clipboard => "clipboard"@,
        OutputModeOverride::Paste => "paste"@,
        OutputModeOverride::File => match file_path {
            Option::Some(p) => if p.len() > 0 {
                "file:"@ + p
            } else {
                "file"@
            },
            Option::None => "file"@,
        },
    }
}

/// The mailboxes one set of overrides writes, in order: output mode,
/// model, profile — each only when the override was given.
pub open spec fn over_mailboxes(o: RecordOverrides) -> Seq<(MailboxKind, Seq<char>)> {
    let with_mode = match o.output_mode {
        Option::Some(m) => seq![
            (MailboxKind::OutputMode, spec_mode_text(m, opt_string_vw(o.file_path))),
        ],
        Option::None => Seq::empty(),
    };
    let with_model = match o.model {
        Option::Some(m) => with_mode + seq![(MailboxKind::Model, m@)],
        Option::None => with_mode,
    };
    match o.profile {
        Option::Some(p) => with_model + seq![(MailboxKind::Profile, p@)],
        Option::None => with_model,
    }
}

/// The mailboxes a command writes.
pub open spec fn spec_mailboxes(a: RecordAction) -> Seq<(MailboxKind, Seq<char>)> {
    match action_overrides(a) {
        Option::None => Seq::empty(),
        Option::Some(o) => over_mailboxes(o),
    }
}

/// The view of an optional owned string.
pub open spec fn opt_string_vw(s: Option<String>) -> Option<Seq<char>> {
    match s {
        Option::Some(t) => Option::Some(t@),
        Option::None => Option::None,
    }
}

/// The signal a command sends.
pub open spec fn spec_signal(a: RecordAction, state_text: Option<Seq<char>>) -> DaemonSignal {
    match a {
        RecordAction::Start(_) => DaemonSignal::Start,
        RecordAction::Stop(_) => DaemonSignal::Stop,
        _ => spec_toggle_signal(state_text),
    }
}

/// The mailbox list as the specification sees it.
pub open spec fn mailboxes_vw(v: Seq<Mailbox>) -> Seq<(MailboxKind, Seq<char>)> {
    v.map_values(|m: Mailbox| (m.kind, m.content@))
}

/// Whether a profile of this name is configured.
#[verifier::loop_isolation(false)]
fn find_profile(profiles: &Vec<String>, p: &str) -> (r: bool)
    ensures
        r == has_profile(profiles@, p@),
{
    let mut i: usize = 0;
    while i < profiles.len()
        invariant
            i <= profiles@.len(),
            forall|j: int| 0 <= j < i ==> profiles@[j]@ != p@,
        decreases profiles@.len() - i,
    {
        if crate::strutil::str_eq(profiles[i].as_str(), p) {
            return true;
        }
        i = i + 1;
    }
    false
}

/// Decide what a record command does, once the daemon's liveness has been
/// probed. A dead process means a stale lock and nothing else; an unknown
/// profile is reported before anything would be written or signalled; a
/// cancel writes only its trigger mailbox and sends no signal; otherwise
/// the override mailboxes are written and the command's signal is sent —
/// for a toggle, stop exactly when the persisted state is `recording`.
pub fn plan_action(
    action: &RecordAction,
    alive: bool,
    state_text: Option<&str>,
    state_file_configured: bool,
    profiles: &Vec<String>,
) -> (r: RecordPlan)
    ensures
        !alive ==> r is StaleLock,
        alive && !profile_ok(*action, profiles@) ==> (r matches RecordPlan::UnknownProfile {
            available,
        } && available@ == profiles@),
        alive && profile_ok(*action, profiles@) && (*action is Cancel) ==> (r matches
            RecordPlan::Go { mailboxes, signal } && signal is None && mailboxes_vw(mailboxes@)
            == seq![(MailboxKind::Cancel, "cancel"@)]),
        alive && profile_ok(*action, profiles@) && (*action is Toggle) && !state_file_configured
            ==> r is ToggleNeedsStateFile,
        alive && profile_ok(*action, profiles@) && !(*action is Cancel) && ((*action is Toggle)
            ==> state_file_configured) ==> (r matches RecordPlan::Go { mailboxes, signal } && signal
            == Option::Some(spec_signal(*action, opt_str_vw(state_text))) && mailboxes_vw(
            mailboxes@,
        ) == spec_mailboxes(*action)),
{
    if !alive {
        return RecordPlan::StaleLock;
    }
    let overrides: Option<&RecordOverrides> = match action {
        RecordAction::Start(o) => Option::Some(o),
        RecordAction::Stop(o) => Option::Some(o),
        RecordAction::Toggle(o) => Option::Some(o),
        RecordAction::Cancel => Option::None,
    };
    // validate the profile before writing or signalling anything
    if let Option::Some(o) = overrides {
        if let Option::Some(p) = &o.profile {
            if !find_profile(profiles, p.as_str()) {
                let mut available: Vec<String> = Vec::new();
                let mut i: usize = 0;
                while i < profiles.len()
                    invariant
                        i <= profiles@.len(),
                        available@.len() == i,
                        forall|j: int| 0 <= j < i ==> available@[j] == profiles@[j],
                    decreases profiles@.len() - i,
                {
                    available.push(profiles[i].clone());
                    i = i + 1;
                }
                proof {
                    assert(available@ =~= profiles@);
                }
                return RecordPlan::UnknownProfile { available };
            }
        }
    }
    match action {
        RecordAction::Cancel => {
            let mut mailboxes: Vec<Mailbox> = Vec::new();
            mailboxes.push(
                Mailbox { kind: MailboxKind::Cancel, content: String::from_str("cancel") },
            );
            proof {
                assert(mailboxes_vw(mailboxes@) =~= seq![(MailboxKind::Cancel, "cancel"@)]);
            }
            RecordPlan::Go { mailboxes, signal: Option::None }
        },
        RecordAction::Start(o) => {
            let mailboxes = build_mailboxes(o);
            proof {
                assert(mailboxes_vw(mailboxes@) == spec_mailboxes(*action));
            }
            RecordPlan::Go { mailboxes, signal: Option::Some(DaemonSignal::Start) }
        },
        RecordAction::Stop(o) => {
            let mailboxes = build_mailboxes(o);
            proof {
                assert(mailboxes_vw(mailboxes@) == spec_mailboxes(*action));
            }
            RecordPlan::Go { mailboxes, signal: Option::Some(DaemonSignal::Stop) }
        },
        RecordAction::Toggle(o) => {
            if !state_file_configured {
                return RecordPlan::ToggleNeedsStateFile;
            }
            let mailboxes = build_mailboxes(o);
            proof {
                assert(mailboxes_vw(mailboxes@) == spec_mailboxes(*action));
            }
            RecordPlan::Go { mailboxes, signal: Option::Some(toggle_signal(state_text)) }
        },
    }
}

/// The override mailboxes of one command, in writing order.
fn build_mailboxes(o: &RecordOverrides) -> (r: Vec<Mailbox>)
    ensures
        mailboxes_vw(r@) == over_mailboxes(*o),
{
    let mut mailboxes: Vec<Mailbox> = Vec::new();
    match &o.output_mode {
        Option::Some(m) => {
            let fp: Option<&str> = match &o.file_path {
                Option::Some(p) => Option::Some(p.as_str()),
                Option::None => Option::None,
            };
            let content = mode_text(*m, fp);
            mailboxes.push(Mailbox { kind: MailboxKind::OutputMode, content });
        },
        Option::None => {},
    }
    match &o.model {
        Option::Some(m) => {
            mailboxes.push(Mailbox { kind: MailboxKind::Model, content: m.clone() });
        },
        Option::None => {},
    }
    match &o.profile {
        Option::Some(p) => {
            mailboxes.push(Mailbox { kind: MailboxKind::Profile, content: p.clone() });
        },
        Option::None => {},
    }
    proof {
        assert(mailboxes_vw(mailboxes@) =~= over_mailboxes(*o));
    }
    mailboxes
}

/// The text of the output-mode mailbox.
pub fn mode_text(m: OutputModeOverride, file_path: Option<&str>) -> (r: String)
    ensures
        r@ == spec_mode_text(m, opt_str_vw(file_path)),
{
    match m {
        OutputModeOverride::Type => String::from_str("type"),
        OutputModeOverride::Clipboard => String::from_str("clipboard"),
        OutputModeOverride::Paste => String::from_str("paste"),
        OutputModeOverride::File => match file_path {
            Option::Some(p) => {
                if p.unicode_len() > 0 {
                    let mut out = String::from_str("file:");
                    out.append(p);
                    out
                } else {
                    String::from_str("file")
                }
            },
            Option::None => String::from_str("file"),
        },
    }
}

} // verus!
