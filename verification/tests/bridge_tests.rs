//! The display state differ, the button router, the serial session and the
//! transport machine, exercised on concrete values.

use serial_screen::buttons::{parse_button_click, parse_movement_button, Button, MovementButton};
use serial_screen::envelope::{MoonrakerMsg, MoonrakerParam};
use serial_screen::frames::construct_change_page;
use serial_screen::methods::MoonrakerMethod;
use serial_screen::moonraker::{
    apply_objects_list, apply_status_update, klippy_ready_actions, HomedAxis, PrinterState,
    StatusUpdate,
};
use serial_screen::screen_state::ScreenState;
use serial_screen::session::{
    boot_poll, dispatch_frame, BootVerdict, DispatchAction, PollKind, SerialSession,
};
use serial_screen::time::{current_time_text, render_time};
use serial_screen::transport::{
    transport_step, TransportAction, TransportEvent, TransportState, RECONNECT_BACKOFF_MS,
};
use serial_screen::utils::center_pad;

fn no_update() -> StatusUpdate {
    StatusUpdate {
        progress_percent: None,
        nozzle_temp: None,
        target_nozzle_temp: None,
        bed_temp: None,
        target_bed_temp: None,
        filename: None,
        state_name: None,
        homed_axes: None,
    }
}

#[test]
fn first_diff_pass_writes_every_register() {
    let mut state = ScreenState::new();
    let mut shadow = ScreenState::new_old();
    let frames = state.update_changed(&mut shadow);
    assert_eq!(frames.len(), 13);
    let written: Vec<u16> = frames
        .iter()
        .map(|f| ((f[4] as u16) << 8) | f[5] as u16)
        .collect();
    for addr in [
        0x2000u16, 0x2015, 0x2025, 0x2026, 0x2027, 0x2028, 0x2029, 0x2030, 0x2005, 0x3000, 0x3051,
        0x3102, 0x3153,
    ] {
        assert!(written.contains(&addr), "register {addr:#x} not written");
    }
}

#[test]
fn second_diff_pass_sends_only_the_clock() {
    let mut state = ScreenState::new();
    let mut shadow = ScreenState::new_old();
    let _ = state.update_changed(&mut shadow);
    let second = state.update_changed(&mut shadow);
    assert_eq!(second.len(), 1);
    assert_eq!(second[0][4], 0x20);
    assert_eq!(second[0][5], 0x00);
}

#[test]
fn changed_temperature_is_sent_once() {
    let mut state = ScreenState::new();
    let mut shadow = ScreenState::new_old();
    let _ = state.update_changed(&mut shadow);
    state.nozzle_temp = 210;
    let frames = state.update_changed(&mut shadow);
    assert_eq!(frames.len(), 2);
    assert_eq!(&frames[1][4..], &[0x20, 0x25, 0x00, 0xD2]);
    let third = state.update_changed(&mut shadow);
    assert_eq!(third.len(), 1);
}

#[test]
fn estimate_text_renders_remaining_time() {
    let mut state = ScreenState::new();
    state.file_estimated_time = 3600;
    state.printing_progress = 50;
    assert_eq!(state.get_estimate_string(), b"ETA: 00:30".to_vec());
    state.file_estimated_time = -1;
    assert_eq!(state.get_estimate_string(), b"          ".to_vec());
    state.file_estimated_time = 7200;
    state.printing_progress = 0;
    assert_eq!(state.get_estimate_string(), b"ETA: 02:00".to_vec());
}

#[test]
fn pause_button_resumes_a_paused_printer() {
    let mut state = ScreenState::new();
    state.printer_state = PrinterState::Paused;
    let (rpc, frames) = parse_button_click(Button::Pause, &mut state);
    assert!(frames.is_empty());
    assert_eq!(rpc.len(), 1);
    match &rpc[0] {
        MoonrakerMsg::MsgMethodID { method, id, .. } => {
            assert_eq!(*method, MoonrakerMethod::PrintResume);
            assert_eq!(*id, 1485);
        }
        _ => panic!("wrong request shape"),
    }
}

#[test]
fn pause_button_pauses_any_other_state() {
    for s in [
        PrinterState::Standby,
        PrinterState::Printing,
        PrinterState::Error,
        PrinterState::Complete,
    ] {
        let mut state = ScreenState::new();
        state.printer_state = s;
        let (rpc, _) = parse_button_click(Button::Pause, &mut state);
        match &rpc[0] {
            MoonrakerMsg::MsgMethodID { method, id, .. } => {
                assert_eq!(*method, MoonrakerMethod::PrintPause);
                assert_eq!(*id, 4564);
            }
            _ => panic!("wrong request shape"),
        }
    }
}

#[test]
fn preheat_is_refused_while_printing() {
    for s in [PrinterState::Printing, PrinterState::Paused] {
        let mut state = ScreenState::new();
        state.printer_state = s;
        let (rpc, frames) = parse_button_click(Button::PreheatPla, &mut state);
        assert!(rpc.is_empty());
        assert!(frames.is_empty());
        let (rpc2, frames2) = parse_button_click(Button::PreheatCooldown, &mut state);
        assert!(rpc2.is_empty());
        assert!(frames2.is_empty());
    }
}

#[test]
fn preheat_heats_an_idle_printer() {
    let mut state = ScreenState::new();
    let (rpc, frames) = parse_button_click(Button::PreheatPla, &mut state);
    assert_eq!(rpc.len(), 2);
    assert_eq!(frames, vec![construct_change_page(1)]);
}

#[test]
fn movement_page_is_refused_while_printing() {
    let mut state = ScreenState::new();
    state.printer_state = PrinterState::Printing;
    // The press is refused by redirecting to the progress page instead.
    let (rpc, frames) = parse_button_click(Button::PrinterMovement, &mut state);
    assert!(rpc.is_empty());
    assert_eq!(frames, vec![construct_change_page(2)]);
    state.printer_state = PrinterState::Paused;
    let (rpc2, frames2) = parse_button_click(Button::PrinterMovement, &mut state);
    assert!(rpc2.is_empty());
    assert_eq!(frames2, vec![construct_change_page(2)]);
    state.printer_state = PrinterState::Standby;
    let (_, frames3) = parse_button_click(Button::PrinterMovement, &mut state);
    assert_eq!(frames3, vec![construct_change_page(5)]);
}

fn macros(names: &[&str]) -> Vec<Vec<u8>> {
    names.iter().map(|n| n.as_bytes().to_vec()).collect()
}

#[test]
fn macro_selection_uses_scroll_offset() {
    let mut state = ScreenState::new();
    state.macros = macros(&["ALPHA", "BETA", "GAMMA", "DELTA", "EPSILON"]);
    state.macros_scroll = 2;
    // Row index 1 at scroll offset 2 selects macro index 3.
    let (rpc, frames) = parse_button_click(Button::MacrosButton2, &mut state);
    assert_eq!(rpc.len(), 1);
    match &rpc[0] {
        MoonrakerMsg::MsgMethodParamID { params, .. } => match params {
            MoonrakerParam::GcodeScript { script } => assert_eq!(script, &b"DELTA".to_vec()),
            _ => panic!("wrong params"),
        },
        _ => panic!("wrong request shape"),
    }
    assert_eq!(frames, vec![construct_change_page(1)]);
}

#[test]
fn macro_selection_past_the_end_is_a_no_op() {
    let mut state = ScreenState::new();
    state.macros = macros(&["ALPHA", "BETA", "GAMMA"]);
    state.macros_scroll = 2;
    let (rpc, frames) = parse_button_click(Button::MacrosButton2, &mut state);
    assert!(rpc.is_empty());
    assert!(frames.is_empty());
    assert_eq!(state.macros_scroll, 2);
}

#[test]
fn macro_scroll_clamps_at_both_ends() {
    let mut state = ScreenState::new();
    state.macros = macros(&["A", "B"]);
    let (_, frames) = parse_button_click(Button::MacrosUP, &mut state);
    assert!(frames.is_empty());
    assert_eq!(state.macros_scroll, 0);
    let (_, frames2) = parse_button_click(Button::MacrosDOWN, &mut state);
    assert_eq!(state.macros_scroll, 1);
    assert_eq!(frames2.len(), 4);
    let (_, frames3) = parse_button_click(Button::MacrosDOWN, &mut state);
    assert!(frames3.is_empty());
    assert_eq!(state.macros_scroll, 1);
}

#[test]
fn movement_buttons_send_fixed_scripts() {
    let rpc = parse_movement_button(MovementButton::Home);
    match &rpc[0] {
        MoonrakerMsg::MsgMethodParamID { params, .. } => match params {
            MoonrakerParam::GcodeScript { script } => assert_eq!(script, &b"G28".to_vec()),
            _ => panic!("wrong params"),
        },
        _ => panic!("wrong request shape"),
    }
    let rpc2 = parse_movement_button(MovementButton::XPlus);
    match &rpc2[0] {
        MoonrakerMsg::MsgMethodParamID { params, .. } => match params {
            MoonrakerParam::GcodeScript { script } => {
                assert_eq!(script, &b"G91\nG1 X+10 F6000\nG90".to_vec())
            }
            _ => panic!("wrong params"),
        },
        _ => panic!("wrong request shape"),
    }
    assert!(parse_movement_button(MovementButton::Undefined(42)).is_empty());
}

#[test]
fn button_ids_map_to_buttons() {
    assert_eq!(Button::from_id(7), Button::Pause);
    assert_eq!(Button::from_id(19), Button::Macros);
    assert_eq!(Button::from_id(77), Button::Undefined(77));
    assert_eq!(MovementButton::from_id(7), MovementButton::Home);
    assert_eq!(MovementButton::from_id(99), MovementButton::Undefined(99));
}

#[test]
fn watchdog_reports_lost_exactly_once() {
    let mut session = SerialSession::start(1000);
    let (kind, _) = session.poll(1500, &[]);
    assert_eq!(kind, PollKind::Idle);
    let (kind, _) = session.poll(4000, &[]);
    assert_eq!(kind, PollKind::Lost);
    // The dead session reports nothing further, whatever arrives.
    let (kind, action) = session.poll(4100, &[0x5A, 0xA5, 0x03, 0x82, 0x00, 0x00]);
    assert_eq!(kind, PollKind::Dead);
    match action {
        DispatchAction::Ack => {}
        _ => panic!("a dead session must not dispatch"),
    }
    let (kind, _) = session.poll(9999, &[]);
    assert_eq!(kind, PollKind::Dead);
}

#[test]
fn data_in_time_keeps_the_session_alive() {
    let mut session = SerialSession::start(0);
    let (kind, action) = session.poll(1900, &[0x5A, 0xA5, 0x03, 0x82, 0x00, 0x00]);
    assert_eq!(kind, PollKind::Dispatch);
    match action {
        DispatchAction::Ack => {}
        _ => panic!("expected ack"),
    }
    assert_eq!(session.last_alive_ms, 1900);
    let (kind, _) = session.poll(3800, &[]);
    assert_eq!(kind, PollKind::Idle);
}

#[test]
fn page_zero_report_resets_the_panel() {
    let frame = [0x5A, 0xA5, 0x06, 0x83, 0x00, 0x14, 0x01, 0x00, 0x00];
    match dispatch_frame(&frame) {
        DispatchAction::ResetToMainPage => {}
        _ => panic!("page zero must trigger a reset"),
    }
    let frame2 = [0x5A, 0xA5, 0x06, 0x83, 0x00, 0x14, 0x01, 0x00, 0x02];
    match dispatch_frame(&frame2) {
        DispatchAction::PageReport { page } => assert_eq!(page, 2),
        _ => panic!("expected page report"),
    }
}

#[test]
fn button_frames_are_routed_by_address() {
    let frame = [0x5A, 0xA5, 0x06, 0x83, 0x10, 0x00, 0x01, 0x00, 0x07];
    match dispatch_frame(&frame) {
        DispatchAction::ButtonPress { button } => assert_eq!(button, Button::Pause),
        _ => panic!("expected button press"),
    }
    let frame2 = [0x5A, 0xA5, 0x06, 0x83, 0x10, 0x01, 0x01, 0x00, 0x07];
    match dispatch_frame(&frame2) {
        DispatchAction::MovementPress { button } => assert_eq!(button, MovementButton::Home),
        _ => panic!("expected movement press"),
    }
    let frame3 = [0x5A, 0xA5, 0x06, 0x83, 0x30, 0x00, 0x01, 0x41, 0x42];
    match dispatch_frame(&frame3) {
        DispatchAction::Unhandled { address, payload } => {
            assert_eq!(address, 0x3000);
            assert_eq!(payload, vec![0x41, 0x42]);
        }
        _ => panic!("expected unhandled report"),
    }
}

#[test]
fn boot_poll_accepts_an_ack_in_time() {
    assert_eq!(boot_poll(100, &[0x5A, 0xA5, 0x03, 0x82, 0x00, 0x00]), BootVerdict::Ready);
    assert_eq!(boot_poll(100, &[]), BootVerdict::Waiting);
    assert_eq!(boot_poll(1001, &[0x5A, 0xA5, 0x03, 0x82, 0x00, 0x00]), BootVerdict::Failed);
}

#[test]
fn transport_retries_through_one_backoff() {
    let (s, a) = transport_step(TransportState::Connected, TransportEvent::IoError);
    assert_eq!(s, TransportState::RetryWait);
    assert_eq!(a, TransportAction::Wait { ms: RECONNECT_BACKOFF_MS });
    let (s2, a2) = transport_step(s, TransportEvent::BackoffElapsed);
    assert_eq!(s2, TransportState::Disconnected);
    assert_eq!(a2, TransportAction::AttemptConnect);
    let (s3, a3) = transport_step(s2, TransportEvent::ConnectSucceeded);
    assert_eq!(s3, TransportState::Connected);
    assert_eq!(a3, TransportAction::Run);
    let (s4, _) = transport_step(s2, TransportEvent::ConnectFailed);
    assert_eq!(s4, TransportState::RetryWait);
}

#[test]
fn status_update_fields_land_in_the_state() {
    let mut state = ScreenState::new();
    let update = StatusUpdate {
        progress_percent: Some(42),
        nozzle_temp: Some(210),
        target_nozzle_temp: Some(215),
        bed_temp: Some(60),
        target_bed_temp: Some(65),
        filename: Some(b"benchy.gcode".to_vec()),
        state_name: Some(b"printing".to_vec()),
        homed_axes: Some(b"xyz".to_vec()),
    };
    apply_status_update(&mut state, &update, Some(5400));
    assert_eq!(state.printing_progress, 42);
    assert_eq!(state.nozzle_temp, 210);
    assert_eq!(state.target_nozzle_temp, 215);
    assert_eq!(state.bed_temp, 60);
    assert_eq!(state.target_bed_temp, 65);
    assert_eq!(state.model_name, center_pad("benchy", 0x20, 20));
    assert_eq!(state.file_estimated_time, 5400);
    assert_eq!(state.printer_state, PrinterState::Printing);
    assert_eq!(state.homed_axes, HomedAxis::XYZ);
}

#[test]
fn absent_update_fields_leave_the_state_alone() {
    let mut state = ScreenState::new();
    state.nozzle_temp = 33;
    apply_status_update(&mut state, &no_update(), None);
    assert_eq!(state.nozzle_temp, 33);
    assert_eq!(state.file_estimated_time, -1);
}

#[test]
fn failed_metadata_fetch_degrades_the_estimate() {
    let mut state = ScreenState::new();
    let mut update = no_update();
    update.filename = Some(b"thing.gcode".to_vec());
    apply_status_update(&mut state, &update, None);
    assert_eq!(state.file_estimated_time, -1);
    assert_eq!(state.model_name, center_pad("thing", 0x20, 20));
}

#[test]
fn out_of_range_progress_is_clamped() {
    let mut state = ScreenState::new();
    let mut update = no_update();
    update.progress_percent = Some(150);
    apply_status_update(&mut state, &update, None);
    assert_eq!(state.printing_progress, 100);
    update.progress_percent = Some(-5);
    apply_status_update(&mut state, &update, None);
    assert_eq!(state.printing_progress, 0);
}

#[test]
fn objects_list_keeps_only_macros() {
    let mut state = ScreenState::new();
    state.macros_scroll = 5;
    let objects = vec![
        b"gcode_macro LOAD_FILAMENT".to_vec(),
        b"toolhead".to_vec(),
        b"gcode_macro PURGE".to_vec(),
        b"heater_bed".to_vec(),
    ];
    apply_objects_list(&mut state, &objects);
    assert_eq!(state.macros, macros(&["LOAD_FILAMENT", "PURGE"]));
    // The stale scroll offset is pulled back inside the new list.
    assert_eq!(state.macros_scroll, 0);
}

#[test]
fn klippy_ready_reissues_the_subscription() {
    let (frames, rpc) = klippy_ready_actions();
    assert_eq!(frames, vec![construct_change_page(1)]);
    assert_eq!(rpc.len(), 2);
    match &rpc[0] {
        MoonrakerMsg::MsgMethodParamID { method, .. } => {
            assert_eq!(*method, MoonrakerMethod::PrinterObjectsSubscribe)
        }
        _ => panic!("wrong request shape"),
    }
    match &rpc[1] {
        MoonrakerMsg::MsgMethodID { method, id, .. } => {
            assert_eq!(*method, MoonrakerMethod::PrinterObjectsList);
            assert_eq!(*id, 1454);
        }
        _ => panic!("wrong request shape"),
    }
}

#[test]
fn center_pad_truncates_and_centers() {
    assert_eq!(center_pad("abc", 0x20, 7), b"  abc  ".to_vec());
    assert_eq!(center_pad("abcd", 0x20, 7), b" abcd  ".to_vec());
    assert_eq!(center_pad("abcdefgh", 0x20, 4), b"abcd".to_vec());
    assert_eq!(center_pad("", 0x2d, 3), b"---".to_vec());
}

#[test]
fn printer_state_names_map_to_states() {
    assert_eq!(PrinterState::from_name("printing"), PrinterState::Printing);
    assert_eq!(PrinterState::from_name("paused"), PrinterState::Paused);
    assert_eq!(PrinterState::from_name("whatever"), PrinterState::Standby);
    assert_eq!(HomedAxis::from_name("xy"), HomedAxis::XY);
    assert_eq!(HomedAxis::from_name(""), HomedAxis::NoAxis);
}

#[test]
fn clock_text_has_the_display_shape() {
    assert_eq!(render_time(9, 5), b"09:05".to_vec());
    assert_eq!(render_time(23, 59), b"23:59".to_vec());
    let now = current_time_text();
    assert_eq!(now.len(), 5);
    assert!(now[0].is_ascii_digit() && now[1].is_ascii_digit());
    assert_eq!(now[2], b':');
    assert!(now[3].is_ascii_digit() && now[4].is_ascii_digit());
}

#[test]
fn macro_rows_render_fixed_width_lines() {
    let mut state = ScreenState::new();
    state.macros = macros(&["SHORT"]);
    let frames = state.update_macros_list();
    assert_eq!(frames.len(), 4);
    // First row: the macro name left-justified in fifty blanks.
    let mut expected = b"SHORT".to_vec();
    expected.resize(50, 0x20);
    assert_eq!(&frames[0][6..], &expected[..]);
    // Rows past the list are all blanks.
    assert_eq!(&frames[3][6..], &[0x20u8; 50][..]);
}
