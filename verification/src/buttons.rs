//! The button and event router: a pure function from a pressed button and
//! the current display state to the requests and display frames it causes.
//!
//! The policy rules live here: pause and resume are chosen by the current
//! run-state, preheat and cooldown are refused while the printer works,
//! navigation to the movement page while printing or paused is redirected
//! to the progress page, the macro list scrolls within its bounds, and
//! selecting a macro row past the end of the list does nothing.

use vstd::prelude::*;

verus! {

use vstd::string::StringSliceAdditionalSpecFns;
use crate::envelope::{gcode_request_v, make_gcode_request, make_gcode_request_bytes,
    method_request_v, MoonrakerMsg, MsgV};
use crate::frames::{construct_change_page, page_frame_spec};
use crate::methods::MoonrakerMethod;
use crate::moonraker::PrinterState;
use crate::screen_state::{macro_frames_spec, ScreenState, ScreenV};
use crate::{append_frames, push_frame};

/// The buttons of the panel's pages, by their reported id; ids outside the
/// table are kept, not dropped.
#[derive(Debug, Clone, Copy, PartialEq, Eq, Structural)]
pub enum Button {
    Undefined(u16),
    PrintingProgress,
    EmergencyStop,
    Preheat,
    PrinterMovement,
    Settings,
    BackToMain,
    Pause,
    Stop,
    EmergencyStopRelease,
    PreheatPla,
    PreheatCooldown,
    PreheatCustom,
    MacrosUP,
    MacrosDOWN,
    MacrosButton1,
    MacrosButton2,
    MacrosButton3,
    MacrosButton4,
    Macros,
}

/// The button named by a reported id; an id outside the table becomes
/// `Undefined` carrying the raw id.
pub open spec fn button_from_id_spec(id: u16) -> Button {
    if id == 1 {
        Button::PrintingProgress
    } else if id == 2 {
        Button::EmergencyStop
    } else if id == 3 {
        Button::Preheat
    } else if id == 4 {
        Button::PrinterMovement
    } else if id == 5 {
        Button::Settings
    } else if id == 6 {
        Button::BackToMain
    } else if id == 7 {
        Button::Pause
    } else if id == 8 {
        Button::Stop
    } else if id == 9 {
        Button::EmergencyStopRelease
    } else if id == 10 {
        Button::PreheatPla
    } else if id == 11 {
        Button::PreheatCooldown
    } else if id == 12 {
        Button::PreheatCustom
    } else if id == 13 {
        Button::MacrosUP
    } else if id == 14 {
        Button::MacrosDOWN
    } else if id == 15 {
        Button::MacrosButton1
    } else if id == 16 {
        Button::MacrosButton2
    } else if id == 17 {
        Button::MacrosButton3
    } else if id == 18 {
        Button::MacrosButton4
    } else if id == 19 {
        Button::Macros
    } else {
        Button::Undefined(id)
    }
}

impl Button {
    /// Maps a reported button id to its button.
    pub fn from_id(id: u16) -> (r: Button)
        ensures
            r == button_from_id_spec(id),
    {
        match id {
            1 => Button::PrintingProgress,
            2 => Button::EmergencyStop,
            3 => Button::Preheat,
            4 => Button::PrinterMovement,
            5 => Button::Settings,
            6 => Button::BackToMain,
            7 => Button::Pause,
            8 => Button::Stop,
            9 => Button::EmergencyStopRelease,
            10 => Button::PreheatPla,
            11 => Button::PreheatCooldown,
            12 => Button::PreheatCustom,
            13 => Button::MacrosUP,
            14 => Button::MacrosDOWN,
            15 => Button::MacrosButton1,
            16 => Button::MacrosButton2,
            17 => Button::MacrosButton3,
            18 => Button::MacrosButton4,
            19 => Button::Macros,
            _ => Button::Undefined(id),
        }
    }
}

/// The movement-pad buttons, by their reported id.
#[derive(Debug, Clone, Copy, PartialEq, Eq, Structural)]
pub enum MovementButton {
    Undefined(u16),
    ZPlus,
    ZMinus,
    YPlus,
    YMinus,
    XPlus,
    XMinus,
    Home,
}

/// The movement button named by a reported id.
pub open spec fn movement_from_id_spec(id: u16) -> MovementButton {
    if id == 1 {
        MovementButton::YPlus
    } else if id == 2 {
        MovementButton::XPlus
    } else if id == 3 {
        MovementButton::XMinus
    } else if id == 4 {
        MovementButton::YMinus
    } else if id == 5 {
        MovementButton::ZPlus
    } else if id == 6 {
        MovementButton::ZMinus
    } else if id == 7 {
        MovementButton::Home
    } else {
        MovementButton::Undefined(id)
    }
}

impl MovementButton {
    /// Maps a reported movement-pad id to its button.
    pub fn from_id(id: u16) -> (r: MovementButton)
        ensures
            r == movement_from_id_spec(id),
    {
        match id {
            1 => MovementButton::YPlus,
            2 => MovementButton::XPlus,
            3 => MovementButton::XMinus,
            4 => MovementButton::YMinus,
            5 => MovementButton::ZPlus,
            6 => MovementButton::ZMinus,
            7 => MovementButton::Home,
            _ => MovementButton::Undefined(id),
        }
    }
}

/// Everything one button press causes: the state afterwards, the requests
/// to send to the daemon, and the frames to send to the panel.
pub struct RouteV {
    pub state: ScreenV,
    pub rpc: Seq<MsgV>,
    pub frames: Seq<Seq<u8>>,
}

/// True while the printer is busy: printing or paused.
pub open spec fn printer_busy(s: ScreenV) -> bool {
    s.printer_state == PrinterState::Printing || s.printer_state == PrinterState::Paused
}

/// A route that changes nothing and sends nothing.
pub open spec fn route_nothing(s: ScreenV) -> RouteV {
    RouteV { state: s, rpc: Seq::empty(), frames: Seq::empty() }
}

/// Selecting the macro row `row` runs the macro at `scroll + row` and
/// returns to the main page; past the end of the list it does nothing.
pub open spec fn route_macro_select(s: ScreenV, row: int) -> RouteV {
    let idx = s.macros_scroll + row;
    if idx < s.macros.len() {
        RouteV {
            state: s,
            rpc: seq![gcode_request_v(s.macros[idx])],
            frames: seq![page_frame_spec(1)],
        }
    } else {
        route_nothing(s)
    }
}

/// What each button causes in state `s`, rule by rule.
pub open spec fn route_click_spec(button: Button, s: ScreenV) -> RouteV {
    match button {
        Button::PrintingProgress => RouteV {
            state: s,
            rpc: Seq::empty(),
            frames: seq![page_frame_spec(2)],
        },
        Button::EmergencyStop => RouteV {
            state: s,
            rpc: seq![method_request_v(MoonrakerMethod::EmergencyStop)],
            frames: seq![page_frame_spec(3)],
        },
        Button::Preheat => RouteV { state: s, rpc: Seq::empty(), frames: seq![page_frame_spec(4)] },
        Button::PrinterMovement => if !printer_busy(s) {
            RouteV { state: s, rpc: Seq::empty(), frames: seq![page_frame_spec(5)] }
        } else {
            RouteV { state: s, rpc: Seq::empty(), frames: seq![page_frame_spec(2)] }
        },
        Button::Settings => route_nothing(s),
        Button::BackToMain => RouteV {
            state: s,
            rpc: Seq::empty(),
            frames: seq![page_frame_spec(1)],
        },
        Button::Pause => RouteV {
            state: s,
            rpc: seq![
                method_request_v(
                    if s.printer_state == PrinterState::Paused {
                        MoonrakerMethod::PrintResume
                    } else {
                        MoonrakerMethod::PrintPause
                    },
                ),
            ],
            frames: Seq::empty(),
        },
        Button::Stop => RouteV {
            state: s,
            rpc: seq![method_request_v(MoonrakerMethod::PrintCancel)],
            frames: Seq::empty(),
        },
        Button::EmergencyStopRelease => RouteV {
            state: s,
            rpc: seq![method_request_v(MoonrakerMethod::FirmwareRestart)],
            frames: Seq::empty(),
        },
        Button::PreheatPla => if printer_busy(s) {
            route_nothing(s)
        } else {
            RouteV {
                state: s,
                rpc: seq![
                    gcode_request_v("SET_HEATER_TEMPERATURE HEATER=extruder TARGET=200".spec_bytes()),
                    gcode_request_v("SET_HEATER_TEMPERATURE HEATER=heater_bed TARGET=45".spec_bytes()),
                ],
                frames: seq![page_frame_spec(1)],
            }
        },
        Button::PreheatCooldown => if printer_busy(s) {
            route_nothing(s)
        } else {
            RouteV {
                state: s,
                rpc: seq![gcode_request_v("TURN_OFF_HEATERS".spec_bytes())],
                frames: seq![page_frame_spec(1)],
            }
        },
        Button::PreheatCustom => route_nothing(s),
        Button::MacrosUP => if s.macros_scroll > 0 {
            let s2 = ScreenV { macros_scroll: s.macros_scroll - 1, ..s };
            RouteV {
                state: s2,
                rpc: Seq::empty(),
                frames: macro_frames_spec(s2.macros, s2.macros_scroll),
            }
        } else {
            route_nothing(s)
        },
        Button::MacrosDOWN => if s.macros_scroll + 1 < s.macros.len() {
            let s2 = ScreenV { macros_scroll: s.macros_scroll + 1, ..s };
            RouteV {
                state: s2,
                rpc: Seq::empty(),
                frames: macro_frames_spec(s2.macros, s2.macros_scroll),
            }
        } else {
            route_nothing(s)
        },
        Button::MacrosButton1 => route_macro_select(s, 0),
        Button::MacrosButton2 => route_macro_select(s, 1),
        Button::MacrosButton3 => route_macro_select(s, 2),
        Button::MacrosButton4 => route_macro_select(s, 3),
        Button::Macros => RouteV { state: s, rpc: Seq::empty(), frames: seq![page_frame_spec(6)] },
        Button::Undefined(_) => route_nothing(s),
    }
}

/// Routes one button press: mutates the state as the rules say and returns
/// the requests and frames to send, in order.
pub fn parse_button_click(button: Button, state: &mut ScreenState) -> (out: (
    Vec<MoonrakerMsg>,
    Vec<Vec<u8>>,
))
    requires
        old(state)@.wf(),
    ensures
        final(state)@ == route_click_spec(button, old(state)@).state,
        out.0.deep_view() == route_click_spec(button, old(state)@).rpc,
        out.1.deep_view() == route_click_spec(button, old(state)@).frames,
        final(state)@.wf(),
{
    let ghost s0 = state@;
    let mut rpc: Vec<MoonrakerMsg> = Vec::new();
    let mut frames: Vec<Vec<u8>> = Vec::new();
    match button {
        Button::PrintingProgress => {
            push_frame(&mut frames, construct_change_page(2));
        }
        Button::EmergencyStop => {
            rpc.push(MoonrakerMsg::new_with_method_and_id(MoonrakerMethod::EmergencyStop));
            push_frame(&mut frames, construct_change_page(3));
        }
        Button::Preheat => {
            push_frame(&mut frames, construct_change_page(4));
        }
        Button::PrinterMovement => {
            if state.printer_state != PrinterState::Printing && state.printer_state
                != PrinterState::Paused {
                push_frame(&mut frames, construct_change_page(5));
            } else {
                push_frame(&mut frames, construct_change_page(2));
            }
        }
        Button::Settings => {}
        Button::BackToMain => {
            push_frame(&mut frames, construct_change_page(1));
        }
        Button::Pause => {
            if state.printer_state == PrinterState::Paused {
                rpc.push(MoonrakerMsg::new_with_method_and_id(MoonrakerMethod::PrintResume));
            } else {
                rpc.push(MoonrakerMsg::new_with_method_and_id(MoonrakerMethod::PrintPause));
            }
        }
        Button::Stop => {
            rpc.push(MoonrakerMsg::new_with_method_and_id(MoonrakerMethod::PrintCancel));
        }
        Button::EmergencyStopRelease => {
            rpc.push(MoonrakerMsg::new_with_method_and_id(MoonrakerMethod::FirmwareRestart));
        }
        Button::PreheatPla => {
            if state.printer_state != PrinterState::Printing && state.printer_state
                != PrinterState::Paused {
                rpc.push(make_gcode_request("SET_HEATER_TEMPERATURE HEATER=extruder TARGET=200"));
                rpc.push(make_gcode_request("SET_HEATER_TEMPERATURE HEATER=heater_bed TARGET=45"));
                push_frame(&mut frames, construct_change_page(1));
            }
        }
        Button::PreheatCooldown => {
            if state.printer_state != PrinterState::Printing && state.printer_state
                != PrinterState::Paused {
                rpc.push(make_gcode_request("TURN_OFF_HEATERS"));
                push_frame(&mut frames, construct_change_page(1));
            }
        }
        Button::PreheatCustom => {}
        Button::MacrosUP => {
            if state.macros_scroll > 0 {
                state.macros_scroll = state.macros_scroll - 1;
                let mut rows = state.update_macros_list();
                append_frames(&mut frames, &mut rows);
            }
        }
        Button::MacrosDOWN => {
            if state.macros.len() > 0 && state.macros_scroll < state.macros.len() - 1 {
                state.macros_scroll = state.macros_scroll + 1;
                let mut rows = state.update_macros_list();
                append_frames(&mut frames, &mut rows);
            }
        }
        Button::MacrosButton1 => {
            select_macro_row(state, 0, &mut rpc, &mut frames);
        }
        Button::MacrosButton2 => {
            select_macro_row(state, 1, &mut rpc, &mut frames);
        }
        Button::MacrosButton3 => {
            select_macro_row(state, 2, &mut rpc, &mut frames);
        }
        Button::MacrosButton4 => {
            select_macro_row(state, 3, &mut rpc, &mut frames);
        }
        Button::Macros => {
            push_frame(&mut frames, construct_change_page(6));
        }
        Button::Undefined(_) => {}
    }
    proof {
        assert(rpc.deep_view() =~= route_click_spec(button, s0).rpc);
        assert(frames.deep_view() =~= route_click_spec(button, s0).frames);
        assert(state@ =~= route_click_spec(button, s0).state);
    }
    (rpc, frames)
}

/// Runs the macro on row `row` if the scrolled list reaches it: its script
/// is sent and the panel returns to the main page.
fn select_macro_row(
    state: &ScreenState,
    row: usize,
    rpc: &mut Vec<MoonrakerMsg>,
    frames: &mut Vec<Vec<u8>>,
)
    requires
        state@.wf(),
        row < 4,
        old(rpc)@.len() == 0,
        old(frames)@.len() == 0,
    ensures
        final(rpc).deep_view() == route_macro_select(state@, row as int).rpc,
        final(frames).deep_view() == route_macro_select(state@, row as int).frames,
{
    let remaining = state.macros.len() - state.macros_scroll;
    if row < remaining {
        let idx = state.macros_scroll + row;
        proof {
            assert(state.macros@[idx as int].deep_view() =~= state.macros@[idx as int]@);
        }
        rpc.push(make_gcode_request_bytes(&state.macros[idx]));
        push_frame(frames, construct_change_page(1));
        proof {
            assert(rpc.deep_view() =~= route_macro_select(state@, row as int).rpc);
        }
    } else {
        proof {
            assert(rpc.deep_view() =~= Seq::<MsgV>::empty());
            assert(frames.deep_view() =~= Seq::<Seq<u8>>::empty());
        }
    }
}

/// The gcode script a movement-pad button runs; the unknown button runs
/// none.
pub open spec fn route_movement_spec(button: MovementButton) -> Seq<MsgV> {
    match button {
        MovementButton::Home => seq![gcode_request_v("G28".spec_bytes())],
        MovementButton::XPlus => seq![gcode_request_v("G91\nG1 X+10 F6000\nG90".spec_bytes())],
        MovementButton::XMinus => seq![gcode_request_v("G91\nG1 X-10 F6000\nG90".spec_bytes())],
        MovementButton::YPlus => seq![gcode_request_v("G91\nG1 Y+10 F6000\nG90".spec_bytes())],
        MovementButton::YMinus => seq![gcode_request_v("G91\nG1 Y-10 F6000\nG90".spec_bytes())],
        MovementButton::ZPlus => seq![gcode_request_v("G91\nG1 Z+10 F6000\nG90".spec_bytes())],
        MovementButton::ZMinus => seq![gcode_request_v("G91\nG1 Z-10 F6000\nG90".spec_bytes())],
        MovementButton::Undefined(_) => Seq::empty(),
    }
}

/// Routes one movement-pad press: every known movement button sends its
/// fixed relative-move or homing script, whatever the printer state.
pub fn parse_movement_button(button: MovementButton) -> (rpc: Vec<MoonrakerMsg>)
    ensures
        rpc.deep_view() == route_movement_spec(button),
{
    let mut rpc: Vec<MoonrakerMsg> = Vec::new();
    match button {
        MovementButton::Home => {
            rpc.push(make_gcode_request("G28"));
        }
        MovementButton::XPlus => {
            rpc.push(make_gcode_request("G91\nG1 X+10 F6000\nG90"));
        }
        MovementButton::XMinus => {
            rpc.push(make_gcode_request("G91\nG1 X-10 F6000\nG90"));
        }
        MovementButton::YPlus => {
            rpc.push(make_gcode_request("G91\nG1 Y+10 F6000\nG90"));
        }
        MovementButton::YMinus => {
            rpc.push(make_gcode_request("G91\nG1 Y-10 F6000\nG90"));
        }
        MovementButton::ZPlus => {
            rpc.push(make_gcode_request("G91\nG1 Z+10 F6000\nG90"));
        }
        MovementButton::ZMinus => {
            rpc.push(make_gcode_request("G91\nG1 Z-10 F6000\nG90"));
        }
        MovementButton::Undefined(_) => {}
    }
    proof {
        assert(rpc.deep_view() =~= route_movement_spec(button));
    }
    rpc
}

/// Pause and resume are one button: with the printer paused it resumes,
/// in every other run-state it pauses — and the two requests carry the
/// two distinct ids of their methods.
pub proof fn lemma_pause_resume_routing(s: ScreenV)
    ensures
        s.printer_state == PrinterState::Paused ==> route_click_spec(Button::Pause, s).rpc == seq![
            method_request_v(MoonrakerMethod::PrintResume),
        ],
        s.printer_state != PrinterState::Paused ==> route_click_spec(Button::Pause, s).rpc == seq![
            method_request_v(MoonrakerMethod::PrintPause),
        ],
        method_request_v(MoonrakerMethod::PrintResume) != method_request_v(
            MoonrakerMethod::PrintPause,
        ),
{
}

/// Preheat and cooldown are refused while the printer is printing or
/// paused: no request is sent, no frame is sent, the state does not move.
pub proof fn lemma_preheat_refused_while_busy(s: ScreenV)
    requires
        printer_busy(s),
    ensures
        route_click_spec(Button::PreheatPla, s) == route_nothing(s),
        route_click_spec(Button::PreheatCooldown, s) == route_nothing(s),
        route_nothing(s).rpc.len() == 0,
        route_nothing(s).frames.len() == 0,
        route_nothing(s).state == s,
{
}

/// Selecting the macro row `row` at scroll offset `scroll` runs exactly
/// the macro at index `scroll + row`; past the end of the list nothing is
/// sent and nothing moves.
pub proof fn lemma_macro_selection(s: ScreenV, row: int)
    requires
        0 <= row < 4,
    ensures
        s.macros_scroll + row < s.macros.len() ==> route_macro_select(s, row).rpc == seq![
            gcode_request_v(s.macros[s.macros_scroll + row]),
        ],
        s.macros_scroll + row >= s.macros.len() ==> route_macro_select(s, row)
            == route_nothing(s),
        route_click_spec(Button::MacrosButton2, s) == route_macro_select(s, 1),
{
}

} // verus!
