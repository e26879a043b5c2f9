//! The status record and its stable schema.
//!
//! A status record always carries four fields — display text, a raw
//! state-name echo for icon mapping (`alt`), the same echo for styling
//! (`class`), and a human tooltip — plus, conditionally, an audio `level`
//! (only while recording, and only when one was supplied) and the extended
//! trio `model`/`device`/`backend` (as a group, exactly when extended detail
//! was requested). Field order is part of the contract. Unknown state names
//! pass through `alt` and `class` verbatim and fall back to the idle icon
//! and a generic tooltip.

use vstd::prelude::*;
use crate::level::{Level, LevelV, canon};
use crate::strutil::str_eq_lit;
use crate::wire::{FieldVal, JsonValV, fields_vw, wf_fields, encode_fields, parse_line,
    append_object, parse_fields, lemma_encode_roundtrip};

verus! {

/// The four display icons, one per known state.
pub struct ResolvedIcons {
    pub idle: String,
    pub recording: String,
    pub transcribing: String,
    pub stopped: String,
}

/// Extended detail: descriptive strings from the daemon's configuration.
#[derive(Debug, PartialEq)]
pub struct ExtendedStatusInfo {
    pub model: String,
    pub device: String,
    pub backend: String,
}

/// Mathematical content of [`ExtendedStatusInfo`].
#[verifier::ext_equal]
pub struct ExtV {
    pub model: Seq<char>,
    pub device: Seq<char>,
    pub backend: Seq<char>,
}

impl View for ExtendedStatusInfo {
    type V = ExtV;

    open spec fn view(&self) -> ExtV {
        ExtV { model: self.model@, device: self.device@, backend: self.backend@ }
    }
}

/// One status record as it goes out on the wire.
#[derive(Debug, PartialEq)]
pub struct WaybarStatus {
    pub text: String,
    pub alt: String,
    pub class: String,
    pub tooltip: String,
    /// Audio level, present only while recording.
    pub level: Option<Level>,
    /// The extended trio, present as a group or not at all.
    pub extended: Option<ExtendedStatusInfo>,
}

/// Mathematical content of [`WaybarStatus`].
#[verifier::ext_equal]
pub struct StatusV {
    pub text: Seq<char>,
    pub alt: Seq<char>,
    pub class: Seq<char>,
    pub tooltip: Seq<char>,
    pub level: Option<LevelV>,
    pub extended: Option<ExtV>,
}

impl View for WaybarStatus {
    type V = StatusV;

    open spec fn view(&self) -> StatusV {
        StatusV {
            text: self.text@,
            alt: self.alt@,
            class: self.class@,
            tooltip: self.tooltip@,
            level: match self.level {
                Option::Some(l) => Option::Some(l@),
                Option::None => Option::None,
            },
            extended: match self.extended {
                Option::Some(e) => Option::Some(e@),
                Option::None => Option::None,
            },
        }
    }
}

/// A record the encoder accepts: its level, if any, is canonical.
pub open spec fn wf_status(v: StatusV) -> bool {
    match v.level {
        Option::Some(l) => canon(l),
        Option::None => true,
    }
}

/// The field list of a record: the four base fields always, in fixed order;
/// then `level` when present; then the extended trio when present.
pub open spec fn status_fields(v: StatusV) -> Seq<(Seq<char>, JsonValV)> {
    let base = seq![
        ("text"@, JsonValV::S(v.text)),
        ("alt"@, JsonValV::S(v.alt)),
        ("class"@, JsonValV::S(v.class)),
        ("tooltip"@, JsonValV::S(v.tooltip)),
    ];
    let with_level = match v.level {
        Option::Some(l) => base + seq![("level"@, JsonValV::N(l))],
        Option::None => base,
    };
    match v.extended {
        Option::Some(e) => with_level + seq![
            ("model"@, JsonValV::S(e.model)),
            ("device"@, JsonValV::S(e.device)),
            ("backend"@, JsonValV::S(e.backend)),
        ],
        Option::None => with_level,
    }
}

/// The one canonical text of a record.
pub open spec fn status_json(v: StatusV) -> Seq<char> {
    encode_fields(status_fields(v))
}

/// The record a field list denotes, when it has exactly the canonical shape.
pub open spec fn record_of_fields(fs: Seq<(Seq<char>, JsonValV)>) -> Option<StatusV> {
    if fs.len() != 4 && fs.len() != 5 && fs.len() != 7 && fs.len() != 8 {
        Option::None
    } else if !(fs[0].0 == "text"@ && fs[0].1 is S && fs[1].0 == "alt"@ && fs[1].1 is S && fs[2].0
        == "class"@ && fs[2].1 is S && fs[3].0 == "tooltip"@ && fs[3].1 is S) {
        Option::None
    } else {
        let has_level = fs.len() == 5 || fs.len() == 8;
        let has_ext = fs.len() == 7 || fs.len() == 8;
        let ei = if has_level { 5int } else { 4int };
        if has_level && !(fs[4].0 == "level"@ && fs[4].1 is N) {
            Option::None
        } else if has_ext && !(fs[ei].0 == "model"@ && fs[ei].1 is S && fs[ei + 1].0 == "device"@
            && fs[ei + 1].1 is S && fs[ei + 2].0 == "backend"@ && fs[ei + 2].1 is S) {
            Option::None
        } else {
            Option::Some(
                StatusV {
                    text: fs[0].1->S_0,
                    alt: fs[1].1->S_0,
                    class: fs[2].1->S_0,
                    tooltip: fs[3].1->S_0,
                    level: if has_level {
                        Option::Some(fs[4].1->N_0)
                    } else {
                        Option::None
                    },
                    extended: if has_ext {
                        Option::Some(
                            ExtV {
                                model: fs[ei].1->S_0,
                                device: fs[ei + 1].1->S_0,
                                backend: fs[ei + 2].1->S_0,
                            },
                        )
                    } else {
                        Option::None
                    },
                },
            )
        }
    }
}

/// What reading a whole line yields.
pub open spec fn status_of_line(s: Seq<char>) -> Option<StatusV> {
    match parse_line(s) {
        Option::Some(fs) => record_of_fields(fs),
        Option::None => Option::None,
    }
}

impl WaybarStatus {
    /// The record's field list, ready for the encoder.
    fn to_fields(&self) -> (r: Vec<(String, FieldVal)>)
        ensures
            fields_vw(r@) == status_fields(self@),
    {
        let mut fields: Vec<(String, FieldVal)> = Vec::new();
        fields.push((String::from_str("text"), FieldVal::S(self.text.clone())));
        fields.push((String::from_str("alt"), FieldVal::S(self.alt.clone())));
        fields.push((String::from_str("class"), FieldVal::S(self.class.clone())));
        fields.push((String::from_str("tooltip"), FieldVal::S(self.tooltip.clone())));
        match &self.level {
            Option::Some(l) => {
                fields.push((String::from_str("level"), FieldVal::N(l.duplicate())));
            },
            Option::None => {},
        }
        match &self.extended {
            Option::Some(e) => {
                fields.push((String::from_str("model"), FieldVal::S(e.model.clone())));
                fields.push((String::from_str("device"), FieldVal::S(e.device.clone())));
                fields.push((String::from_str("backend"), FieldVal::S(e.backend.clone())));
            },
            Option::None => {},
        }
        proof {
            assert(fields_vw(fields@) =~= status_fields(self@));
        }
        fields
    }

    /// Encode this record as its one canonical JSON line.
    pub fn render(&self) -> (r: String)
        ensures
            r@ == status_json(self@),
    {
        let fields = self.to_fields();
        let mut out = String::new();
        append_object(&mut out, &fields);
        out
    }

    /// Read a record back from a line in canonical form.
    pub fn parse(line: &str) -> (r: Option<WaybarStatus>)
        ensures
            match r {
                Option::Some(rec) => status_of_line(line@) == Option::Some(rec@),
                Option::None => status_of_line(line@) is None,
            },
    {
        let fields = match parse_fields(line) {
            Option::Some(f) => f,
            Option::None => {
                return Option::None;
            },
        };
        let ghost fv = fields_vw(fields@);
        proof {
            assert(fv.len() == fields@.len());
            assert(forall|i: int| 0 <= i < fields@.len() ==> #[trigger] fv[i] == (
            fields@[i].0@, fields@[i].1@));
        }
        let n = fields.len();
        if n != 4 && n != 5 && n != 7 && n != 8 {
            return Option::None;
        }
        let has_level = n == 5 || n == 8;
        let has_ext = n == 7 || n == 8;
        if !Self::is_str_field(&fields, 0, "text") || !Self::is_str_field(&fields, 1, "alt")
            || !Self::is_str_field(&fields, 2, "class") || !Self::is_str_field(
            &fields,
            3,
            "tooltip",
        ) {
            return Option::None;
        }
        let ei: usize = if has_level { 5 } else { 4 };
        if has_level && !Self::is_num_field(&fields, 4, "level") {
            return Option::None;
        }
        if has_ext && (!Self::is_str_field(&fields, ei, "model") || !Self::is_str_field(
            &fields,
            ei + 1,
            "device",
        ) || !Self::is_str_field(&fields, ei + 2, "backend")) {
            return Option::None;
        }
        let text = Self::str_at(&fields, 0);
        let alt = Self::str_at(&fields, 1);
        let class = Self::str_at(&fields, 2);
        let tooltip = Self::str_at(&fields, 3);
        let level = if has_level {
            Option::Some(Self::num_at(&fields, 4))
        } else {
            Option::None
        };
        let extended = if has_ext {
            Option::Some(
                ExtendedStatusInfo {
                    model: Self::str_at(&fields, ei),
                    device: Self::str_at(&fields, ei + 1),
                    backend: Self::str_at(&fields, ei + 2),
                },
            )
        } else {
            Option::None
        };
        let rec = WaybarStatus { text, alt, class, tooltip, level, extended };
        proof {
            assert(record_of_fields(fv) == Option::Some(rec@)) by {
                assert(rec@ =~= record_of_fields(fv).unwrap());
            }
        }
        Option::Some(rec)
    }

    /// Whether field `i` is a string field under the given key.
    fn is_str_field(fields: &Vec<(String, FieldVal)>, i: usize, key: &str) -> (r: bool)
        requires
            i < fields@.len(),
        ensures
            r == (fields@[i as int].0@ == key@ && fields@[i as int].1@ is S),
    {
        if !str_eq_lit(fields[i].0.as_str(), key) {
            return false;
        }
        match &fields[i].1 {
            FieldVal::S(_) => true,
            FieldVal::N(_) => false,
        }
    }

    /// Whether field `i` is a number field under the given key.
    fn is_num_field(fields: &Vec<(String, FieldVal)>, i: usize, key: &str) -> (r: bool)
        requires
            i < fields@.len(),
        ensures
            r == (fields@[i as int].0@ == key@ && fields@[i as int].1@ is N),
    {
        if !str_eq_lit(fields[i].0.as_str(), key) {
            return false;
        }
        match &fields[i].1 {
            FieldVal::S(_) => false,
            FieldVal::N(_) => true,
        }
    }

    /// The string content of field `i`.
    fn str_at(fields: &Vec<(String, FieldVal)>, i: usize) -> (r: String)
        requires
            i < fields@.len(),
            fields@[i as int].1@ is S,
        ensures
            Option::Some(r@) == (match fields@[i as int].1@ {
                JsonValV::S(s) => Option::Some(s),
                JsonValV::N(_) => Option::None,
            }),
    {
        match &fields[i].1 {
            FieldVal::S(s) => s.clone(),
            FieldVal::N(_) => {
                proof {
                    assert(false);
                }
                String::new()
            },
        }
    }

    /// The level content of field `i`.
    fn num_at(fields: &Vec<(String, FieldVal)>, i: usize) -> (r: Level)
        requires
            i < fields@.len(),
            fields@[i as int].1@ is N,
        ensures
            Option::Some(r@) == (match fields@[i as int].1@ {
                JsonValV::N(l) => Option::Some(l),
                JsonValV::S(_) => Option::None,
            }),
    {
        match &fields[i].1 {
            FieldVal::N(l) => l.duplicate(),
            FieldVal::S(_) => {
                proof {
                    assert(false);
                }
                Level::zero()
            },
        }
    }
}


/// Mathematical content of [`ResolvedIcons`].
#[verifier::ext_equal]
pub struct IconsV {
    pub idle: Seq<char>,
    pub recording: Seq<char>,
    pub transcribing: Seq<char>,
    pub stopped: Seq<char>,
}

impl View for ResolvedIcons {
    type V = IconsV;

    open spec fn view(&self) -> IconsV {
        IconsV {
            idle: self.idle@,
            recording: self.recording@,
            transcribing: self.transcribing@,
            stopped: self.stopped@,
        }
    }
}

/// The display icon for a state: unknown states fall back to the idle icon.
pub open spec fn spec_display_text(state: Seq<char>, ic: IconsV) -> Seq<char> {
    if state == "recording"@ {
        ic.recording
    } else if state == "transcribing"@ {
        ic.transcribing
    } else if state == "idle"@ {
        ic.idle
    } else if state == "stopped"@ {
        ic.stopped
    } else {
        ic.idle
    }
}

/// The base tooltip for a state: unknown states get a generic note.
pub open spec fn spec_base_tooltip(state: Seq<char>) -> Seq<char> {
    if state == "recording"@ {
        "Recording..."@
    } else if state == "transcribing"@ {
        "Transcribing..."@
    } else if state == "idle"@ {
        "Voxtype ready - hold hotkey to record"@
    } else if state == "stopped"@ {
        "Voxtype not running"@
    } else {
        "Unknown state"@
    }
}

/// The whole tooltip: the base alone, or the base with the extended lines.
pub open spec fn spec_tooltip(state: Seq<char>, ext: Option<ExtV>) -> Seq<char> {
    match ext {
        Option::Some(e) => spec_base_tooltip(state) + "\nModel: "@ + e.model + "\nDevice: "@
            + e.device + "\nBackend: "@ + e.backend,
        Option::None => spec_base_tooltip(state),
    }
}

/// The record built from one observation. The `class` and `alt` fields echo
/// the state name verbatim; the level is kept only while recording; the
/// extended trio is kept exactly when supplied, whatever the state.
pub open spec fn spec_build_status(
    state: Seq<char>,
    ic: IconsV,
    ext: Option<ExtV>,
    level: Option<LevelV>,
) -> StatusV {
    StatusV {
        text: spec_display_text(state, ic),
        alt: state,
        class: state,
        tooltip: spec_tooltip(state, ext),
        level: if state == "recording"@ {
            level
        } else {
            Option::None
        },
        extended: ext,
    }
}

/// The view of an optional extended-info reference.
pub open spec fn ext_vw(ext: Option<&ExtendedStatusInfo>) -> Option<ExtV> {
    match ext {
        Option::Some(e) => Option::Some(e@),
        Option::None => Option::None,
    }
}

/// The view of an optional level reference.
pub open spec fn level_vw(level: Option<&Level>) -> Option<LevelV> {
    match level {
        Option::Some(l) => Option::Some(l@),
        Option::None => Option::None,
    }
}

/// Build the status record for one observation.
pub fn build_status(
    state: &str,
    icons: &ResolvedIcons,
    extended: Option<&ExtendedStatusInfo>,
    level: Option<&Level>,
) -> (r: WaybarStatus)
    ensures
        r@ == spec_build_status(state@, icons@, ext_vw(extended), level_vw(level)),
        wf_status(r@),
        r@.class == state@ && r@.alt == state@,
        r@.level == (if state@ == "recording"@ {
            level_vw(level)
        } else {
            Option::None::<LevelV>
        }),
        (r@.extended is Some) == (extended is Some),
{
    let recording = str_eq_lit(state, "recording");
    let text = if recording {
        icons.recording.clone()
    } else if str_eq_lit(state, "transcribing") {
        icons.transcribing.clone()
    } else if str_eq_lit(state, "idle") {
        icons.idle.clone()
    } else if str_eq_lit(state, "stopped") {
        icons.stopped.clone()
    } else {
        icons.idle.clone()
    };
    let base: &str = if recording {
        "Recording..."
    } else if str_eq_lit(state, "transcribing") {
        "Transcribing..."
    } else if str_eq_lit(state, "idle") {
        "Voxtype ready - hold hotkey to record"
    } else if str_eq_lit(state, "stopped") {
        "Voxtype not running"
    } else {
        "Unknown state"
    };
    let tooltip = match extended {
        Option::Some(e) => {
            let mut t = String::from_str(base);
            t.append("\nModel: ");
            t.append(e.model.as_str());
            t.append("\nDevice: ");
            t.append(e.device.as_str());
            t.append("\nBackend: ");
            t.append(e.backend.as_str());
            t
        },
        Option::None => String::from_str(base),
    };
    let eff_level: Option<Level> = if recording {
        match level {
            Option::Some(l) => {
                proof {
                    use_type_invariant(l);
                }
                Option::Some(l.duplicate())
            },
            Option::None => Option::None,
        }
    } else {
        Option::None
    };
    let ext_owned: Option<ExtendedStatusInfo> = match extended {
        Option::Some(e) => Option::Some(
            ExtendedStatusInfo {
                model: e.model.clone(),
                device: e.device.clone(),
                backend: e.backend.clone(),
            },
        ),
        Option::None => Option::None,
    };
    let rec = WaybarStatus {
        text,
        alt: String::from_str(state),
        class: String::from_str(state),
        tooltip,
        level: eff_level,
        extended: ext_owned,
    };
    proof {
        assert(rec@ =~= spec_build_status(state@, icons@, ext_vw(extended), level_vw(level)));
    }
    rec
}

/// Format one observation as its canonical JSON line.
pub fn format_state_json(
    state: &str,
    icons: &ResolvedIcons,
    extended: Option<&ExtendedStatusInfo>,
) -> (r: String)
    ensures
        r@ == status_json(spec_build_status(state@, icons@, ext_vw(extended), Option::None)),
{
    format_state_json_with_level(state, icons, extended, Option::None)
}

/// Format one observation, with an audio level, as its canonical JSON line.
pub fn format_state_json_with_level(
    state: &str,
    icons: &ResolvedIcons,
    extended: Option<&ExtendedStatusInfo>,
    level: Option<&Level>,
) -> (r: String)
    ensures
        r@ == status_json(spec_build_status(state@, icons@, ext_vw(extended), level_vw(level))),
{
    build_status(state, icons, extended, level).render()
}

/// The exact shape of a record's field list, case by case.
proof fn lemma_status_fields_shape(v: StatusV)
    requires
        wf_status(v),
    ensures
        wf_fields(status_fields(v)),
        record_of_fields(status_fields(v)) == Option::Some(v),
{
    let fs = status_fields(v);
    match (v.level, v.extended) {
        (Option::None, Option::None) => {
            assert(fs =~= seq![
                ("text"@, JsonValV::S(v.text)),
                ("alt"@, JsonValV::S(v.alt)),
                ("class"@, JsonValV::S(v.class)),
                ("tooltip"@, JsonValV::S(v.tooltip)),
            ]);
            assert(wf_fields(fs)) by {
                assert(forall|i: int| 0 <= i < fs.len() ==> (#[trigger] fs[i].1) is S);
            }
            assert(record_of_fields(fs) == Option::Some(v)) by {
                assert(record_of_fields(fs).unwrap() =~= v);
            }
        },
        (Option::Some(l), Option::None) => {
            assert(fs =~= seq![
                ("text"@, JsonValV::S(v.text)),
                ("alt"@, JsonValV::S(v.alt)),
                ("class"@, JsonValV::S(v.class)),
                ("tooltip"@, JsonValV::S(v.tooltip)),
                ("level"@, JsonValV::N(l)),
            ]);
            assert(wf_fields(fs)) by {
                assert(forall|i: int| 0 <= i < 4 ==> (#[trigger] fs[i].1) is S);
                assert(fs[4].1 == JsonValV::N(l));
            }
            assert(record_of_fields(fs) == Option::Some(v)) by {
                assert(record_of_fields(fs).unwrap() =~= v);
            }
        },
        (Option::None, Option::Some(e)) => {
            assert(fs =~= seq![
                ("text"@, JsonValV::S(v.text)),
                ("alt"@, JsonValV::S(v.alt)),
                ("class"@, JsonValV::S(v.class)),
                ("tooltip"@, JsonValV::S(v.tooltip)),
                ("model"@, JsonValV::S(e.model)),
                ("device"@, JsonValV::S(e.device)),
                ("backend"@, JsonValV::S(e.backend)),
            ]);
            assert(wf_fields(fs)) by {
                assert(forall|i: int| 0 <= i < fs.len() ==> (#[trigger] fs[i].1) is S);
            }
            assert(record_of_fields(fs) == Option::Some(v)) by {
                assert(record_of_fields(fs).unwrap() =~= v);
            }
        },
        (Option::Some(l), Option::Some(e)) => {
            assert(fs =~= seq![
                ("text"@, JsonValV::S(v.text)),
                ("alt"@, JsonValV::S(v.alt)),
                ("class"@, JsonValV::S(v.class)),
                ("tooltip"@, JsonValV::S(v.tooltip)),
                ("level"@, JsonValV::N(l)),
                ("model"@, JsonValV::S(e.model)),
                ("device"@, JsonValV::S(e.device)),
                ("backend"@, JsonValV::S(e.backend)),
            ]);
            assert(wf_fields(fs)) by {
                assert(forall|i: int| 0 <= i < fs.len() && i != 4 ==> (#[trigger] fs[i].1) is S);
                assert(fs[4].1 == JsonValV::N(l));
            }
            assert(record_of_fields(fs) == Option::Some(v)) by {
                assert(record_of_fields(fs).unwrap() =~= v);
            }
        },
    }
}

/// Round trip of the whole record: the canonical line of any well-formed
/// record — whatever quotes, backslashes or other content its fields hold —
/// reads back as exactly that record. Formatting is total and never yields
/// an unreadable line.
pub proof fn lemma_status_roundtrip(v: StatusV)
    requires
        wf_status(v),
    ensures
        status_of_line(status_json(v)) == Option::Some(v),
{
    lemma_status_fields_shape(v);
    lemma_encode_roundtrip(status_fields(v));
}

// ---------------------------------------------------------------------------
// What bus consumers read out of a line
// ---------------------------------------------------------------------------

/// The string under the first occurrence of a key; nothing when the first
/// occurrence is not a string.
pub open spec fn lookup_string(fs: Seq<(Seq<char>, JsonValV)>, key: Seq<char>) -> Option<Seq<char>>
    decreases fs.len(),
{
    if fs.len() == 0 {
        Option::None
    } else if fs[0].0 == key {
        match fs[0].1 {
            JsonValV::S(sv) => Option::Some(sv),
            JsonValV::N(_) => Option::None,
        }
    } else {
        lookup_string(fs.skip(1), key)
    }
}

/// The level under the first occurrence of a key.
pub open spec fn lookup_level(fs: Seq<(Seq<char>, JsonValV)>, key: Seq<char>) -> Option<LevelV>
    decreases fs.len(),
{
    if fs.len() == 0 {
        Option::None
    } else if fs[0].0 == key {
        match fs[0].1 {
            JsonValV::N(l) => Option::Some(l),
            JsonValV::S(_) => Option::None,
        }
    } else {
        lookup_level(fs.skip(1), key)
    }
}

/// The class a status line carries, when it is a canonical line at all.
pub open spec fn class_of_line(s: Seq<char>) -> Option<Seq<char>> {
    match parse_line(s) {
        Option::Some(fs) => lookup_string(fs, "class"@),
        Option::None => Option::None,
    }
}

/// The level a status line carries.
pub open spec fn level_of_line(s: Seq<char>) -> Option<LevelV> {
    match parse_line(s) {
        Option::Some(fs) => lookup_level(fs, "level"@),
        Option::None => Option::None,
    }
}

/// Read the `class` field out of one status line.
#[verifier::loop_isolation(false)]
pub fn status_class(line: &str) -> (r: Option<String>)
    ensures
        match r {
            Option::Some(c) => class_of_line(line@) == Option::Some(c@),
            Option::None => class_of_line(line@) is None,
        },
{
    let fields = match parse_fields(line) {
        Option::Some(f) => f,
        Option::None => {
            return Option::None;
        },
    };
    let ghost fv = fields_vw(fields@);
    proof {
        assert(forall|i: int| 0 <= i < fields@.len() ==> #[trigger] fv[i] == (
        fields@[i].0@, fields@[i].1@));
    }
    let mut i: usize = 0;
    proof {
        assert(fv.skip(0) =~= fv);
    }
    while i < fields.len()
        invariant
            i <= fields@.len(),
            lookup_string(fv, "class"@) == lookup_string(fv.skip(i as int), "class"@),
        decreases fields@.len() - i,
    {
        proof {
            assert(fv.skip(i as int)[0] == fv[i as int]);
            assert(fv.skip(i as int).skip(1) =~= fv.skip(i as int + 1));
        }
        if str_eq_lit(fields[i].0.as_str(), "class") {
            match &fields[i].1 {
                FieldVal::S(sv) => {
                    return Option::Some(sv.clone());
                },
                FieldVal::N(_) => {
                    return Option::None;
                },
            }
        }
        i = i + 1;
    }
    proof {
        assert(fv.skip(fields@.len() as int).len() == 0);
    }
    Option::None
}

/// Read the `level` field out of one status line.
#[verifier::loop_isolation(false)]
pub fn status_level(line: &str) -> (r: Option<Level>)
    ensures
        match r {
            Option::Some(l) => level_of_line(line@) == Option::Some(l@),
            Option::None => level_of_line(line@) is None,
        },
{
    let fields = match parse_fields(line) {
        Option::Some(f) => f,
        Option::None => {
            return Option::None;
        },
    };
    let ghost fv = fields_vw(fields@);
    proof {
        assert(forall|i: int| 0 <= i < fields@.len() ==> #[trigger] fv[i] == (
        fields@[i].0@, fields@[i].1@));
    }
    let mut i: usize = 0;
    proof {
        assert(fv.skip(0) =~= fv);
    }
    while i < fields.len()
        invariant
            i <= fields@.len(),
            lookup_level(fv, "level"@) == lookup_level(fv.skip(i as int), "level"@),
        decreases fields@.len() - i,
    {
        proof {
            assert(fv.skip(i as int)[0] == fv[i as int]);
            assert(fv.skip(i as int).skip(1) =~= fv.skip(i as int + 1));
        }
        if str_eq_lit(fields[i].0.as_str(), "level") {
            match &fields[i].1 {
                FieldVal::N(l) => {
                    return Option::Some(l.duplicate());
                },
                FieldVal::S(_) => {
                    return Option::None;
                },
            }
        }
        i = i + 1;
    }
    proof {
        assert(fv.skip(fields@.len() as int).len() == 0);
    }
    Option::None
}

/// The class read back from a formatted record is its state name.
pub proof fn lemma_class_of_formatted(v: StatusV)
    requires
        wf_status(v),
    ensures
        class_of_line(status_json(v)) == Option::Some(v.class),
{
    lemma_status_fields_shape(v);
    lemma_encode_roundtrip(status_fields(v));
    let fs = status_fields(v);
    reveal_strlit("text");
    reveal_strlit("alt");
    reveal_strlit("class");
    assert("text"@ != "class"@) by {
        assert("text"@.len() == 4 && "class"@.len() == 5);
    }
    assert("alt"@ != "class"@) by {
        assert("alt"@.len() == 3);
    }
    assert(fs.skip(1)[0] == fs[1]);
    assert(fs.skip(1).skip(1) =~= fs.skip(2));
    assert(fs.skip(2)[0] == fs[2]);
    assert(lookup_string(fs, "class"@) == lookup_string(fs.skip(1), "class"@));
    assert(lookup_string(fs.skip(1), "class"@) == lookup_string(fs.skip(2), "class"@));
    assert(lookup_string(fs.skip(2), "class"@) == Option::Some(v.class));
}


/// Whether a field list carries a key at all.
pub open spec fn has_key(fs: Seq<(Seq<char>, JsonValV)>, key: Seq<char>) -> bool {
    exists|i: int| 0 <= i < fs.len() && fs[i].0 == key
}

/// Presence rules of the schema, for every record: the four base fields
/// stand first, always, in fixed order, echoing the state in `alt` and
/// `class`; a `level` field exists exactly when the record carries a level;
/// the extended trio exists as a group exactly when the record carries
/// extended detail.
pub proof fn lemma_status_field_presence(v: StatusV)
    ensures
        status_fields(v).len() == 4 + (if v.level is Some { 1int } else { 0int }) + (
        if v.extended is Some { 3int } else { 0int }),
        status_fields(v)[0] == ("text"@, JsonValV::S(v.text)),
        status_fields(v)[1] == ("alt"@, JsonValV::S(v.alt)),
        status_fields(v)[2] == ("class"@, JsonValV::S(v.class)),
        status_fields(v)[3] == ("tooltip"@, JsonValV::S(v.tooltip)),
        has_key(status_fields(v), "level"@) <==> v.level is Some,
        has_key(status_fields(v), "model"@) <==> v.extended is Some,
        has_key(status_fields(v), "device"@) <==> v.extended is Some,
        has_key(status_fields(v), "backend"@) <==> v.extended is Some,
{
    reveal_strlit("text");
    reveal_strlit("alt");
    reveal_strlit("class");
    reveal_strlit("tooltip");
    reveal_strlit("level");
    reveal_strlit("model");
    reveal_strlit("device");
    reveal_strlit("backend");
    assert("text"@.len() == 4 && "alt"@.len() == 3 && "class"@.len() == 5 && "tooltip"@.len() == 7
        && "level"@.len() == 5 && "model"@.len() == 5 && "device"@.len() == 6 && "backend"@.len()
        == 7);
    assert("class"@[0] == 'c' && "level"@[0] == 'l' && "model"@[0] == 'm');
    assert("tooltip"@[0] == 't' && "backend"@[0] == 'b');
    let fs = status_fields(v);
    match (v.level, v.extended) {
        (Option::None, Option::None) => {
            assert(fs =~= seq![
                ("text"@, JsonValV::S(v.text)),
                ("alt"@, JsonValV::S(v.alt)),
                ("class"@, JsonValV::S(v.class)),
                ("tooltip"@, JsonValV::S(v.tooltip)),
            ]);
            assert(!has_key(fs, "level"@)) by {
                assert(forall|i: int| 0 <= i < fs.len() ==> (#[trigger] fs[i]).0 != "level"@);
            }
            assert(!has_key(fs, "model"@)) by {
                assert(forall|i: int| 0 <= i < fs.len() ==> (#[trigger] fs[i]).0 != "model"@);
            }
            assert(!has_key(fs, "device"@)) by {
                assert(forall|i: int| 0 <= i < fs.len() ==> (#[trigger] fs[i]).0 != "device"@);
            }
            assert(!has_key(fs, "backend"@)) by {
                assert(forall|i: int| 0 <= i < fs.len() ==> (#[trigger] fs[i]).0 != "backend"@);
            }
        },
        (Option::Some(l), Option::None) => {
            assert(fs =~= seq![
                ("text"@, JsonValV::S(v.text)),
                ("alt"@, JsonValV::S(v.alt)),
                ("class"@, JsonValV::S(v.class)),
                ("tooltip"@, JsonValV::S(v.tooltip)),
                ("level"@, JsonValV::N(l)),
            ]);
            assert(has_key(fs, "level"@)) by {
                assert(fs[4].0 == "level"@);
            }
            assert(!has_key(fs, "model"@)) by {
                assert(forall|i: int| 0 <= i < fs.len() ==> (#[trigger] fs[i]).0 != "model"@);
            }
            assert(!has_key(fs, "device"@)) by {
                assert(forall|i: int| 0 <= i < fs.len() ==> (#[trigger] fs[i]).0 != "device"@);
            }
            assert(!has_key(fs, "backend"@)) by {
                assert(forall|i: int| 0 <= i < fs.len() ==> (#[trigger] fs[i]).0 != "backend"@);
            }
        },
        (Option::None, Option::Some(e)) => {
            assert(fs =~= seq![
                ("text"@, JsonValV::S(v.text)),
                ("alt"@, JsonValV::S(v.alt)),
                ("class"@, JsonValV::S(v.class)),
                ("tooltip"@, JsonValV::S(v.tooltip)),
                ("model"@, JsonValV::S(e.model)),
                ("device"@, JsonValV::S(e.device)),
                ("backend"@, JsonValV::S(e.backend)),
            ]);
            assert(!has_key(fs, "level"@)) by {
                assert(forall|i: int| 0 <= i < fs.len() ==> (#[trigger] fs[i]).0 != "level"@);
            }
            assert(has_key(fs, "model"@)) by {
                assert(fs[4].0 == "model"@);
            }
            assert(has_key(fs, "device"@)) by {
                assert(fs[5].0 == "device"@);
            }
            assert(has_key(fs, "backend"@)) by {
                assert(fs[6].0 == "backend"@);
            }
        },
        (Option::Some(l), Option::Some(e)) => {
            assert(fs =~= seq![
                ("text"@, JsonValV::S(v.text)),
                ("alt"@, JsonValV::S(v.alt)),
                ("class"@, JsonValV::S(v.class)),
                ("tooltip"@, JsonValV::S(v.tooltip)),
                ("level"@, JsonValV::N(l)),
                ("model"@, JsonValV::S(e.model)),
                ("device"@, JsonValV::S(e.device)),
                ("backend"@, JsonValV::S(e.backend)),
            ]);
            assert(has_key(fs, "level"@)) by {
                assert(fs[4].0 == "level"@);
            }
            assert(has_key(fs, "model"@)) by {
                assert(fs[5].0 == "model"@);
            }
            assert(has_key(fs, "device"@)) by {
                assert(fs[6].0 == "device"@);
            }
            assert(has_key(fs, "backend"@)) by {
                assert(fs[7].0 == "backend"@);
            }
        },
    }
}


} // verus!
