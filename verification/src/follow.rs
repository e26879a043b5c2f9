//! Follow-mode observation tracking.
//!
//! Follow mode turns raw state-file and level-file reads into a stream of
//! status records. On every wake — a change notification or a timeout — the
//! files are re-read and liveness is re-probed; the tracker decides what, if
//! anything, to report. State-file content is never trusted while the
//! daemon is not confirmed alive: liveness failure reads as the synthetic
//! `stopped` state, reported once per outage, never repeated while still
//! down. A record goes out exactly when the observed state or level moved
//! away from the last reported pair. The poll timeout adapts: short while
//! recording, to keep a level meter smooth; long otherwise.

use vstd::prelude::*;
use crate::level::{Level, LevelV, canon, level_of_chars};
use crate::strutil::{trimmed, trim, str_eq, str_eq_lit};
use crate::dispatch::opt_str_vw;

verus! {

/// The state to report for one observation: the trimmed file content when
/// the daemon is confirmed alive and the file was readable; the synthetic
/// `stopped` otherwise.
pub open spec fn spec_observed_state(alive: bool, state_text: Option<Seq<char>>) -> Seq<char> {
    match state_text {
        Option::Some(t) => if alive {
            trimmed(t)
        } else {
            "stopped"@
        },
        Option::None => "stopped"@,
    }
}

/// The level to report: meaningful only while recording; text that is not a
/// plain decimal in range counts as absent, never as zero.
pub open spec fn spec_observed_level(
    state: Seq<char>,
    level_text: Option<Seq<char>>,
) -> Option<LevelV> {
    if state == "recording"@ {
        match level_text {
            Option::Some(t) => level_of_chars(trimmed(t)),
            Option::None => Option::None,
        }
    } else {
        Option::None
    }
}

/// The state to report for one observation.
pub fn observed_state(alive: bool, state_text: Option<&str>) -> (r: String)
    ensures
        r@ == spec_observed_state(alive, opt_str_vw(state_text)),
{
    match state_text {
        Option::Some(t) => {
            if alive {
                String::from_str(trim(t))
            } else {
                String::from_str("stopped")
            }
        },
        Option::None => String::from_str("stopped"),
    }
}

/// Mathematical content of a [`FollowTracker`].
#[verifier::ext_equal]
pub struct FollowV {
    pub last_state: Seq<char>,
    pub last_level: Option<LevelV>,
}

/// The last reported state and level.
pub struct FollowTracker {
    last_state: String,
    last_level: Option<Level>,
}

impl View for FollowTracker {
    type V = FollowV;

    closed spec fn view(&self) -> FollowV {
        FollowV {
            last_state: self.last_state@,
            last_level: match self.last_level {
                Option::Some(ref l) => Option::Some(l@),
                Option::None => Option::None,
            },
        }
    }
}

/// A tracker only ever holds a level while the reported state is
/// `recording`, and that level is canonical.
#[verifier::type_invariant]
pub open spec fn follow_inv(t: FollowTracker) -> bool {
    match t@.last_level {
        Option::Some(l) => t@.last_state == "recording"@ && canon(l),
        Option::None => true,
    }
}

impl FollowTracker {
    /// Start tracking after the initial report of the given state.
    pub fn new(initial_state: String) -> (r: FollowTracker)
        ensures
            r@.last_state == initial_state@,
            r@.last_level is None,
    {
        FollowTracker { last_state: initial_state, last_level: Option::None }
    }

    /// The last reported state.
    pub fn last_state(&self) -> (r: &str)
        ensures
            r@ == self@.last_state,
    {
        self.last_state.as_str()
    }

    /// How long to wait for the next wake: short while recording, so a
    /// level meter stays smooth even when writes are coalesced; long
    /// otherwise, to reduce wake frequency when idle.
    pub fn next_timeout_ms(&self) -> (r: u64)
        ensures
            r == (if self@.last_state == "recording"@ {
                50u64
            } else {
                500u64
            }),
    {
        if str_eq_lit(self.last_state.as_str(), "recording") {
            50
        } else {
            500
        }
    }

    /// Take in one observation: the liveness probe and the raw state and
    /// level file contents, absent entries for unreadable files. The result
    /// is the state and level to report now, or nothing when nothing
    /// changed — so a dead daemon is reported as stopped exactly once,
    /// however many wakes pass while it is down.
    pub fn step(&mut self, alive: bool, state_text: Option<&str>, level_text: Option<&str>) -> (r:
        Option<(String, Option<Level>)>)
        ensures
            ({
                let obs_state = spec_observed_state(alive, opt_str_vw(state_text));
                let obs_level = spec_observed_level(obs_state, opt_str_vw(level_text));
                let changed = obs_state != old(self)@.last_state || obs_level != old(
                    self,
                )@.last_level;
                &&& final(self)@.last_state == obs_state
                &&& final(self)@.last_level == obs_level
                &&& (r is Some) == changed
                &&& (match r {
                    Option::Some((st, lv)) => st@ == obs_state && (match lv {
                        Option::Some(l) => obs_level == Option::Some(l@),
                        Option::None => obs_level is None,
                    }),
                    Option::None => true,
                })
                &&& (!alive && old(self)@.last_state == "stopped"@ ==> r is None)
            }),
    {
        proof {
            use_type_invariant(&*self);
        }
        let state = observed_state(alive, state_text);
        let recording = str_eq_lit(state.as_str(), "recording");
        let level: Option<Level> = if recording {
            match level_text {
                Option::Some(t) => Level::parse(t),
                Option::None => Option::None,
            }
        } else {
            Option::None
        };
        let ghost obs_state = spec_observed_state(alive, opt_str_vw(state_text));
        let ghost obs_level = spec_observed_level(obs_state, opt_str_vw(level_text));
        proof {
            reveal_strlit("stopped");
            reveal_strlit("recording");
            assert("stopped"@.len() == 7 && "recording"@.len() == 9);
            assert(state@ == obs_state);
            match level {
                Option::Some(ref l) => {
                    assert(obs_level == Option::Some(l@));
                },
                Option::None => {
                    assert(obs_level is None);
                },
            }
        }
        let state_same = str_eq(state.as_str(), self.last_state.as_str());
        let level_same = match (&level, &self.last_level) {
            (Option::Some(a), Option::Some(b)) => a.same(b),
            (Option::None, Option::None) => true,
            _ => false,
        };
        if state_same && level_same {
            proof {
                assert(self@.last_level == spec_observed_level(
                    spec_observed_state(alive, opt_str_vw(state_text)),
                    opt_str_vw(level_text),
                ));
            }
            return Option::None;
        }
        let out_level: Option<Level> = match &level {
            Option::Some(l) => {
                proof {
                    use_type_invariant(l);
                }
                Option::Some(l.duplicate())
            },
            Option::None => Option::None,
        };
        let out_state = state.clone();
        proof {
            match level {
                Option::Some(ref l) => {
                    use_type_invariant(l);
                },
                Option::None => {},
            }
        }
        *self = FollowTracker { last_state: state, last_level: level };
        Option::Some((out_state, out_level))
    }
}

} // verus!
