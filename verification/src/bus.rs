//! The status bus: one upstream stream, several consumers.
//!
//! A dedicated worker owns the single subprocess that streams daemon status
//! as one JSON line each. Every line is fanned out to each registered
//! consumer channel; when all consumers are gone the bus stops; when the
//! stream ends or fails, one synthetic stopped line goes out and the
//! subprocess is respawned after a fixed delay. The outside work — spawning
//! and reading the subprocess, sleeping — stays in the shell around the
//! library, which feeds each event to [`bus_step`] and performs the action
//! it returns.

use vstd::prelude::*;
use std::sync::mpsc::Sender;
use crate::wire::{FieldVal, JsonValV, encode_fields, fields_vw, append_object,
    lemma_encode_roundtrip};
use crate::status::{class_of_line, lookup_string};

verus! {

/// A consumer channel's sending end, from the standard library.
#[verifier::external_type_specification]
#[verifier::external_body]
#[verifier::reject_recursive_types(T)]
pub struct ExSender<T>(Sender<T>);

/// Relies on `std::sync::mpsc::Sender::send`, which returns an error exactly
/// when the receiving end of the channel has been dropped, and otherwise
/// delivers the value. Whether the receiver is still connected when the
/// call happens is runtime state shared with other threads, so nothing is
/// promised about which way the call goes.
#[verifier::external_body]
fn send_line(tx: &Sender<String>, line: &String) -> bool {
    tx.send(line.clone()).is_ok()
}

/// Send one line to every consumer channel. True when at least one channel
/// still took the line; with no channels at all there is nobody to take it,
/// so the result is false and the bus shuts down.
pub fn fan_out(senders: &[Sender<String>], line: String) -> (any_alive: bool)
    ensures
        senders@.len() == 0 ==> !any_alive,
{
    let mut any_alive = false;
    let mut i: usize = 0;
    while i < senders.len()
        invariant
            i <= senders@.len(),
            senders@.len() == 0 ==> !any_alive,
        decreases senders@.len() - i,
    {
        if send_line(&senders[i], &line) {
            any_alive = true;
        }
        i = i + 1;
    }
    any_alive
}

/// The synthetic line the bus sends when the upstream stream ends.
pub open spec fn stopped_chars() -> Seq<char> {
    encode_fields(seq![("class"@, JsonValV::S("stopped"@))])
}

/// Build the synthetic stopped line.
pub fn stopped_line() -> (r: String)
    ensures
        r@ == stopped_chars(),
{
    let mut fields: Vec<(String, FieldVal)> = Vec::new();
    fields.push((String::from_str("class"), FieldVal::S(String::from_str("stopped"))));
    let mut out = String::new();
    append_object(&mut out, &fields);
    proof {
        assert(fields_vw(fields@) =~= seq![("class"@, JsonValV::S("stopped"@))]);
    }
    out
}

/// The synthetic stopped line carries exactly the class `stopped`, so every
/// consumer that reads classes sees the stop.
pub proof fn lemma_stopped_line_class()
    ensures
        class_of_line(stopped_chars()) == Option::Some("stopped"@),
{
    let fs = seq![("class"@, JsonValV::S("stopped"@))];
    assert(crate::wire::wf_fields(fs)) by {
        assert(fs[0].1 is S);
    }
    lemma_encode_roundtrip(fs);
    assert(lookup_string(fs, "class"@) == Option::Some("stopped"@));
}

/// One event of the bus worker's life.
pub enum BusEvent {
    /// The subprocess could not be spawned or gave no output stream.
    SpawnFailed,
    /// One line arrived from the subprocess.
    Line(String),
    /// The stream ended: the subprocess exited or the pipe broke.
    StreamEnded,
}

/// What the worker does next.
pub enum BusAction {
    /// Wait this many seconds, then respawn the subprocess.
    Retry { wait_secs: u64 },
    /// Fan this line out to every consumer; stop the bus when none is left.
    Deliver { line: String },
    /// Fan exactly this one synthetic stopped line out, then wait this many
    /// seconds before respawning.
    DeliverStoppedThenRetry { line: String, wait_secs: u64 },
}

/// Decide the worker's next action: a failed spawn waits five seconds; a
/// line is delivered as it came; a terminated stream yields exactly one
/// synthetic stopped line and a two-second wait before the reconnect.
pub fn bus_step(event: BusEvent) -> (r: BusAction)
    ensures
        (event is SpawnFailed) ==> (r matches BusAction::Retry { wait_secs } && wait_secs == 5),
        event matches BusEvent::Line(l) ==> (r matches BusAction::Deliver { line } && line == l),
        (event is StreamEnded) ==> (r matches BusAction::DeliverStoppedThenRetry {
            line,
            wait_secs,
        } && line@ == stopped_chars() && wait_secs == 2),
{
    match event {
        BusEvent::SpawnFailed => BusAction::Retry { wait_secs: 5 },
        BusEvent::Line(l) => BusAction::Deliver { line: l },
        BusEvent::StreamEnded => BusAction::DeliverStoppedThenRetry {
            line: stopped_line(),
            wait_secs: 2,
        },
    }
}

} // verus!
