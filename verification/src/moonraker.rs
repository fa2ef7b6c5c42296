//! The printer-side state kinds reported by the daemon, and how inbound
//! daemon events are applied to the display state.

use vstd::prelude::*;

verus! {

use vstd::string::StringSliceAdditionalSpecFns;
use crate::envelope::{method_request_v, param_request_v, MoonrakerMsg, MoonrakerParam, MsgV,
    ParamV};
use crate::frames::{construct_change_page, page_frame_spec};
use crate::methods::{method_from_id_spec, MoonrakerMethod};
use crate::screen_state::{ScreenState, ScreenV};
use crate::utils::{center_pad_bytes, center_pad_spec};
use crate::{copy_bytes, slice_eq};

/// The printer's high-level run-state as the daemon reports it.
#[derive(Debug, Clone, Copy, PartialEq, Eq, Structural)]
pub enum PrinterState {
    Standby,
    Printing,
    Paused,
    Error,
    Complete,
}

/// Which axes the toolhead has homed, as the daemon reports it.
#[derive(Debug, Clone, Copy, PartialEq, Eq, Structural)]
pub enum HomedAxis {
    NoAxis,
    X,
    Y,
    XY,
    XYZ,
}

impl PrinterState {
    /// The run-state named by the daemon's state string; names outside the
    /// closed set fall back to standby, as the daemon's idle state.
    pub open spec fn from_name_spec(s: Seq<u8>) -> PrinterState {
        if s == "standby".spec_bytes() {
            PrinterState::Standby
        } else if s == "printing".spec_bytes() {
            PrinterState::Printing
        } else if s == "paused".spec_bytes() {
            PrinterState::Paused
        } else if s == "error".spec_bytes() {
            PrinterState::Error
        } else if s == "complete".spec_bytes() {
            PrinterState::Complete
        } else {
            PrinterState::Standby
        }
    }

    /// Maps the daemon's state string to a run-state.
    pub fn from_name(s: &str) -> (r: PrinterState)
        ensures
            r == PrinterState::from_name_spec(s.spec_bytes()),
    {
        let b = s.as_bytes();
        if slice_eq(b, "standby".as_bytes()) {
            PrinterState::Standby
        } else if slice_eq(b, "printing".as_bytes()) {
            PrinterState::Printing
        } else if slice_eq(b, "paused".as_bytes()) {
            PrinterState::Paused
        } else if slice_eq(b, "error".as_bytes()) {
            PrinterState::Error
        } else if slice_eq(b, "complete".as_bytes()) {
            PrinterState::Complete
        } else {
            PrinterState::Standby
        }
    }
}

impl HomedAxis {
    /// The homed-axis set named by the daemon's string; unknown names mean
    /// nothing is homed.
    pub open spec fn from_name_spec(s: Seq<u8>) -> HomedAxis {
        if s == "x".spec_bytes() {
            HomedAxis::X
        } else if s == "y".spec_bytes() {
            HomedAxis::Y
        } else if s == "xy".spec_bytes() {
            HomedAxis::XY
        } else if s == "xyz".spec_bytes() {
            HomedAxis::XYZ
        } else {
            HomedAxis::NoAxis
        }
    }

    /// Maps the daemon's homed-axes string to an axis set.
    pub fn from_name(s: &str) -> (r: HomedAxis)
        ensures
            r == HomedAxis::from_name_spec(s.spec_bytes()),
    {
        let b = s.as_bytes();
        if slice_eq(b, "x".as_bytes()) {
            HomedAxis::X
        } else if slice_eq(b, "y".as_bytes()) {
            HomedAxis::Y
        } else if slice_eq(b, "xy".as_bytes()) {
            HomedAxis::XY
        } else if slice_eq(b, "xyz".as_bytes()) {
            HomedAxis::XYZ
        } else {
            HomedAxis::NoAxis
        }
    }

    /// Maps the daemon's homed-axes string, given as raw bytes.
    pub fn from_name_bytes(b: &[u8]) -> (r: HomedAxis)
        ensures
            r == HomedAxis::from_name_bytes_spec(b@),
    {
        if slice_eq(b, "x".as_bytes()) {
            HomedAxis::X
        } else if slice_eq(b, "y".as_bytes()) {
            HomedAxis::Y
        } else if slice_eq(b, "xy".as_bytes()) {
            HomedAxis::XY
        } else if slice_eq(b, "xyz".as_bytes()) {
            HomedAxis::XYZ
        } else {
            HomedAxis::NoAxis
        }
    }

    /// The same map, over raw bytes.
    pub open spec fn from_name_bytes_spec(s: Seq<u8>) -> HomedAxis {
        HomedAxis::from_name_spec(s)
    }
}

impl PrinterState {
    /// Maps the daemon's state string, given as raw bytes.
    pub fn from_name_bytes(b: &[u8]) -> (r: PrinterState)
        ensures
            r == PrinterState::from_name_spec(b@),
    {
        if slice_eq(b, "standby".as_bytes()) {
            PrinterState::Standby
        } else if slice_eq(b, "printing".as_bytes()) {
            PrinterState::Printing
        } else if slice_eq(b, "paused".as_bytes()) {
            PrinterState::Paused
        } else if slice_eq(b, "error".as_bytes()) {
            PrinterState::Error
        } else if slice_eq(b, "complete".as_bytes()) {
            PrinterState::Complete
        } else {
            PrinterState::Standby
        }
    }
}

/// One status-update event, reduced to the plain values the display reads.
/// Absent fields were not part of the update and leave the state alone.
/// Temperatures and the progress percent arrive already rounded to whole
/// numbers, as the panel's registers hold them.
pub struct StatusUpdate {
    pub progress_percent: Option<i16>,
    pub nozzle_temp: Option<i16>,
    pub target_nozzle_temp: Option<i16>,
    pub bed_temp: Option<i16>,
    pub target_bed_temp: Option<i16>,
    /// The printing file's name; the display shows its stem.
    pub filename: Option<Vec<u8>>,
    /// The run-state's name, as the daemon spells it.
    pub state_name: Option<Vec<u8>>,
    /// The homed-axes set's name.
    pub homed_axes: Option<Vec<u8>>,
}

/// The mathematical value of a status update.
pub struct StatusUpdateV {
    pub progress_percent: Option<i16>,
    pub nozzle_temp: Option<i16>,
    pub target_nozzle_temp: Option<i16>,
    pub bed_temp: Option<i16>,
    pub target_bed_temp: Option<i16>,
    pub filename: Option<Seq<u8>>,
    pub state_name: Option<Seq<u8>>,
    pub homed_axes: Option<Seq<u8>>,
}

impl View for StatusUpdate {
    type V = StatusUpdateV;

    open spec fn view(&self) -> StatusUpdateV {
        StatusUpdateV {
            progress_percent: self.progress_percent,
            nozzle_temp: self.nozzle_temp,
            target_nozzle_temp: self.target_nozzle_temp,
            bed_temp: self.bed_temp,
            target_bed_temp: self.target_bed_temp,
            filename: match &self.filename {
                Some(f) => Some(f@),
                None => None,
            },
            state_name: match &self.state_name {
                Some(s) => Some(s@),
                None => None,
            },
            homed_axes: match &self.homed_axes {
                Some(h) => Some(h@),
                None => None,
            },
        }
    }
}

/// The index of the first dot in `s` from `i` on, or the length when
/// there is none.
pub open spec fn dot_from(s: Seq<u8>, i: int) -> int
    decreases s.len() - i,
{
    if i < 0 || i >= s.len() {
        s.len() as int
    } else if s[i] == 0x2e {
        i
    } else {
        dot_from(s, i + 1)
    }
}

/// The file name's stem: everything before its first dot.
pub open spec fn stem_spec(s: Seq<u8>) -> Seq<u8> {
    s.subrange(0, dot_from(s, 0))
}

/// Cuts a file name at its first dot.
pub fn name_stem(s: &[u8]) -> (r: Vec<u8>)
    ensures
        r@ == stem_spec(s@),
{
    let mut i: usize = 0;
    while i < s.len() && s[i] != 0x2e
        invariant
            i <= s@.len(),
            forall|j: int| 0 <= j < i ==> s@[j] != 0x2e,
        decreases s.len() - i,
    {
        i += 1;
    }
    proof {
        lemma_dot_from_skip(s@, 0, i as int);
    }
    let mut r: Vec<u8> = Vec::new();
    crate::utils::push_slice_range(&mut r, s, 0, i);
    r
}

proof fn lemma_dot_from_skip(s: Seq<u8>, from: int, until: int)
    requires
        0 <= from <= until <= s.len(),
        forall|j: int| from <= j < until ==> s[j] != 0x2e,
        until < s.len() ==> s[until] == 0x2e,
    ensures
        dot_from(s, from) == until,
    decreases until - from,
{
    if from < until {
        lemma_dot_from_skip(s, from + 1, until);
    }
}

/// How `progress` clamps into the percent range the display holds.
pub open spec fn clamp_percent(p: i16) -> i16 {
    if p < 0 {
        0i16
    } else if p > 100 {
        100i16
    } else {
        p
    }
}

/// The display state after one status update lands on `s`: each present
/// field replaces its counterpart; the file name sets the centered model
/// text and brings the fetched time estimate with it (`-1` when the fetch
/// failed); absent fields leave the state alone.
pub open spec fn apply_status_spec(
    s: ScreenV,
    u: StatusUpdateV,
    file_estimated_time: Option<i32>,
) -> ScreenV {
    let s1 = match u.progress_percent {
        Some(p) => ScreenV { printing_progress: clamp_percent(p), ..s },
        None => s,
    };
    let s2 = match u.nozzle_temp {
        Some(t) => ScreenV { nozzle_temp: t, ..s1 },
        None => s1,
    };
    let s3 = match u.target_nozzle_temp {
        Some(t) => ScreenV { target_nozzle_temp: t, ..s2 },
        None => s2,
    };
    let s4 = match u.bed_temp {
        Some(t) => ScreenV { bed_temp: t, ..s3 },
        None => s3,
    };
    let s5 = match u.target_bed_temp {
        Some(t) => ScreenV { target_bed_temp: t, ..s4 },
        None => s4,
    };
    let s6 = match u.filename {
        Some(f) => ScreenV {
            model_name: center_pad_spec(stem_spec(f), 0x20, 20),
            file_estimated_time: match file_estimated_time {
                Some(t) => t as int,
                None => -1,
            },
            ..s5
        },
        None => s5,
    };
    let s7 = match u.state_name {
        Some(n) => ScreenV { printer_state: PrinterState::from_name_spec(n), ..s6 },
        None => s6,
    };
    match u.homed_axes {
        Some(h) => ScreenV { homed_axes: HomedAxis::from_name_spec(h), ..s7 },
        None => s7,
    }
}

/// Applies one status update to the display state. `file_estimated_time`
/// is the metadata fetch made for the update's file name, if there was
/// one: a failed fetch degrades the estimate to its unknown sentinel.
pub fn apply_status_update(
    state: &mut ScreenState,
    update: &StatusUpdate,
    file_estimated_time: Option<i32>,
)
    requires
        old(state)@.wf(),
    ensures
        final(state)@ == apply_status_spec(old(state)@, update@, file_estimated_time),
        final(state)@.wf(),
{
    let ghost s0 = state@;
    if let Some(p) = update.progress_percent {
        state.printing_progress = if p < 0 {
            0
        } else if p > 100 {
            100
        } else {
            p
        };
    }
    if let Some(t) = update.nozzle_temp {
        state.nozzle_temp = t;
    }
    if let Some(t) = update.target_nozzle_temp {
        state.target_nozzle_temp = t;
    }
    if let Some(t) = update.bed_temp {
        state.bed_temp = t;
    }
    if let Some(t) = update.target_bed_temp {
        state.target_bed_temp = t;
    }
    if let Some(f) = &update.filename {
        let stem = name_stem(f.as_slice());
        state.model_name = center_pad_bytes(stem.as_slice(), 0x20, 20);
        state.file_estimated_time = match file_estimated_time {
            Some(t) => t,
            None => -1,
        };
    }
    if let Some(n) = &update.state_name {
        state.printer_state = PrinterState::from_name_bytes(n.as_slice());
    }
    if let Some(h) = &update.homed_axes {
        state.homed_axes = HomedAxis::from_name_bytes(h.as_slice());
    }
    proof {
        assert(state@ =~= apply_status_spec(s0, update@, file_estimated_time));
    }
}

/// The macro list carried by an object-list reply: the objects under the
/// macro prefix, each with the prefix and its separating blank cut off.
pub open spec fn macros_of_objects(objects: Seq<Seq<u8>>) -> Seq<Seq<u8>>
    decreases objects.len(),
{
    if objects.len() == 0 {
        Seq::empty()
    } else {
        let last = objects.last();
        macros_of_objects(objects.drop_last()) + (if is_macro_object(last) {
            seq![strip_macro_prefix(last)]
        } else {
            Seq::empty()
        })
    }
}

/// True of an object name under the gcode-macro prefix.
pub open spec fn is_macro_object(name: Seq<u8>) -> bool {
    name.len() >= "gcode_macro".spec_bytes().len() && name.subrange(
        0,
        "gcode_macro".spec_bytes().len() as int,
    ) == "gcode_macro".spec_bytes()
}

/// The object name with the macro prefix and its blank removed; a name
/// without the blank separator is kept whole.
pub open spec fn strip_macro_prefix(name: Seq<u8>) -> Seq<u8> {
    let prefix = "gcode_macro ".spec_bytes();
    if name.len() >= prefix.len() && name.subrange(0, prefix.len() as int) == prefix {
        name.subrange(prefix.len() as int, name.len() as int)
    } else {
        name
    }
}

fn has_prefix(name: &Vec<u8>, prefix: &[u8]) -> (r: bool)
    ensures
        r == (name@.len() >= prefix@.len() && name@.subrange(0, prefix@.len() as int) == prefix@),
{
    if name.len() < prefix.len() {
        return false;
    }
    let mut i: usize = 0;
    while i < prefix.len()
        invariant
            i <= prefix@.len() <= name@.len(),
            forall|j: int| 0 <= j < i ==> name@[j] == prefix@[j],
        decreases prefix.len() - i,
    {
        if name[i] != prefix[i] {
            proof {
                assert(name@.subrange(0, prefix@.len() as int)[i as int] != prefix@[i as int]);
            }
            return false;
        }
        i += 1;
    }
    proof {
        assert(name@.subrange(0, prefix@.len() as int) =~= prefix@);
    }
    true
}

/// Applies an object-list reply: the macro list becomes the named macros,
/// in the daemon's order, and the scroll offset is pulled back inside the
/// new list.
pub fn apply_objects_list(state: &mut ScreenState, objects: &Vec<Vec<u8>>)
    requires
        old(state)@.wf(),
    ensures
        final(state)@.macros == macros_of_objects(objects.deep_view()),
        final(state)@.macros_scroll == (if old(state)@.macros_scroll < macros_of_objects(
            objects.deep_view(),
        ).len() {
            old(state)@.macros_scroll
        } else {
            0int
        }),
        final(state)@ == (ScreenV {
            macros: final(state)@.macros,
            macros_scroll: final(state)@.macros_scroll,
            ..old(state)@
        }),
        final(state)@.wf(),
{
    let ghost s0 = state@;
    let mut macros: Vec<Vec<u8>> = Vec::new();
    let mut i: usize = 0;
    while i < objects.len()
        invariant
            i <= objects@.len(),
            macros.deep_view() == macros_of_objects(objects.deep_view().subrange(0, i as int)),
        decreases objects.len() - i,
    {
        let name = &objects[i];
        proof {
            assert(objects.deep_view().subrange(0, i + 1).drop_last() =~= objects.deep_view()
                .subrange(0, i as int));
            assert(objects.deep_view().subrange(0, i + 1).last() == name@);
        }
        if has_prefix(name, "gcode_macro".as_bytes()) {
            let stripped = if has_prefix(name, "gcode_macro ".as_bytes()) {
                let mut st: Vec<u8> = Vec::new();
                crate::utils::push_slice_range(
                    &mut st,
                    name.as_slice(),
                    "gcode_macro ".as_bytes().len(),
                    name.len(),
                );
                st
            } else {
                copy_bytes(name)
            };
            proof {
                assert(stripped@ == strip_macro_prefix(name@));
                assert(is_macro_object(name@));
            }
            crate::push_frame(&mut macros, stripped);
        } else {
            proof {
                assert(!is_macro_object(name@));
            }
        }
        proof {
            assert(macros.deep_view() =~= macros_of_objects(
                objects.deep_view().subrange(0, i + 1),
            ));
        }
        i += 1;
    }
    proof {
        assert(objects.deep_view().subrange(0, objects.deep_view().len() as int) =~= objects
            .deep_view());
    }
    if state.macros_scroll >= macros.len() {
        state.macros_scroll = 0;
    }
    state.macros = macros;
    proof {
        assert(state@ =~= (ScreenV {
            macros: state@.macros,
            macros_scroll: state@.macros_scroll,
            ..s0
        }));
    }
}

/// The fixed startup subscription: the subsystems the display follows,
/// with the temperature pairs narrowed to their target and reading.
pub open spec fn subscription_objects_spec() -> Seq<(Seq<u8>, Option<Seq<Seq<u8>>>)> {
    seq![
        ("display_status".spec_bytes(), None),
        ("print_stats".spec_bytes(), None),
        ("toolhead".spec_bytes(), None),
        (
            "extruder".spec_bytes(),
            Some(seq!["target".spec_bytes(), "temperature".spec_bytes()]),
        ),
        (
            "heater_bed".spec_bytes(),
            Some(seq!["target".spec_bytes(), "temperature".spec_bytes()]),
        ),
    ]
}

/// The subscription request the router sends after connecting and after
/// every daemon-ready notification.
pub open spec fn subscribe_request_v() -> MsgV {
    param_request_v(
        MoonrakerMethod::PrinterObjectsSubscribe,
        ParamV::Subscribe { objects: subscription_objects_spec() },
    )
}

fn fields_target_temperature() -> (r: Vec<Vec<u8>>)
    ensures
        r.deep_view() == seq!["target".spec_bytes(), "temperature".spec_bytes()],
{
    let mut r: Vec<Vec<u8>> = Vec::new();
    r.push(vstd::slice::slice_to_vec("target".as_bytes()));
    r.push(vstd::slice::slice_to_vec("temperature".as_bytes()));
    proof {
        assert(r.deep_view() =~~= seq!["target".spec_bytes(), "temperature".spec_bytes()]);
    }
    r
}

/// Builds the fixed object-subscription request of the startup handshake.
pub fn subscribe_websocket_events() -> (r: MoonrakerMsg)
    ensures
        r@ == subscribe_request_v(),
{
    let mut objects: Vec<(Vec<u8>, Option<Vec<Vec<u8>>>)> = Vec::new();
    objects.push((vstd::slice::slice_to_vec("display_status".as_bytes()), None));
    objects.push((vstd::slice::slice_to_vec("print_stats".as_bytes()), None));
    objects.push((vstd::slice::slice_to_vec("toolhead".as_bytes()), None));
    objects.push((
        vstd::slice::slice_to_vec("extruder".as_bytes()),
        Some(fields_target_temperature()),
    ));
    objects.push((
        vstd::slice::slice_to_vec("heater_bed".as_bytes()),
        Some(fields_target_temperature()),
    ));
    let r = MoonrakerMsg::new_param_id(
        MoonrakerMethod::PrinterObjectsSubscribe,
        MoonrakerParam::PrinterObjectsSubscribe { objects },
    );
    proof {
        assert(r@->MethodParamId_params->Subscribe_objects =~~= subscription_objects_spec());
        assert(r@ == subscribe_request_v());
    }
    r
}

/// What the daemon-ready notification triggers: the panel returns to the
/// main page, the subscription is re-issued (the daemon forgot it when it
/// reset), and the object list is asked for anew.
pub fn klippy_ready_actions() -> (r: (Vec<Vec<u8>>, Vec<MoonrakerMsg>))
    ensures
        r.0.deep_view() == seq![page_frame_spec(1)],
        r.1.deep_view() == seq![
            subscribe_request_v(),
            method_request_v(MoonrakerMethod::PrinterObjectsList),
        ],
{
    let mut frames: Vec<Vec<u8>> = Vec::new();
    crate::push_frame(&mut frames, construct_change_page(1));
    let mut rpc: Vec<MoonrakerMsg> = Vec::new();
    rpc.push(subscribe_websocket_events());
    rpc.push(MoonrakerMsg::new_with_method_and_id(MoonrakerMethod::PrinterObjectsList));
    proof {
        assert(frames.deep_view() =~= seq![page_frame_spec(1)]);
        assert(rpc.deep_view() =~= seq![
            subscribe_request_v(),
            method_request_v(MoonrakerMethod::PrinterObjectsList),
        ]);
    }
    (frames, rpc)
}

/// What a reply's correlation id asks of its consumer.
pub enum ResultKind {
    /// The subscription reply: carries a full status snapshot to apply.
    StatusSnapshot,
    /// The object-list reply: carries the macro names.
    ObjectsList,
    /// A reply to some other known request; nothing to apply.
    OtherMethod { method: MoonrakerMethod },
    /// An id outside the table: logged and dropped.
    UnknownId { id: u16 },
}

/// Classifies a reply by its correlation id, through the method table.
pub fn classify_result(id: u16) -> (r: ResultKind)
    ensures
        match r {
            ResultKind::StatusSnapshot => method_from_id_spec(id) == Some(
                MoonrakerMethod::PrinterObjectsSubscribe,
            ),
            ResultKind::ObjectsList => method_from_id_spec(id) == Some(
                MoonrakerMethod::PrinterObjectsList,
            ),
            ResultKind::OtherMethod { method } => method_from_id_spec(id) == Some(method)
                && method != MoonrakerMethod::PrinterObjectsSubscribe && method
                != MoonrakerMethod::PrinterObjectsList,
            ResultKind::UnknownId { id: bad } => method_from_id_spec(id) is None && bad == id,
        },
{
    match crate::methods::get_method_from_id(id) {
        Ok(MoonrakerMethod::PrinterObjectsSubscribe) => ResultKind::StatusSnapshot,
        Ok(MoonrakerMethod::PrinterObjectsList) => ResultKind::ObjectsList,
        Ok(method) => ResultKind::OtherMethod { method },
        Err(bad) => ResultKind::UnknownId { id: bad },
    }
}

} // verus!
