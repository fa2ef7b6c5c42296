//! The method table, the wire envelope codec, and the display frame codec,
//! exercised on concrete values.

use serial_screen::envelope::{DecodeError, MoonrakerMsg, MoonrakerParam};
use serial_screen::frames::{
    construct_change_page, construct_get_page, construct_i16, construct_read_buf, construct_text,
    construct_write_buf, parse_frame, InboundFrame,
};
use serial_screen::methods::{get_method_from_id, get_method_id, MoonrakerMethod};

const ALL_METHODS: [MoonrakerMethod; 13] = [
    MoonrakerMethod::NotifyProcStatUpdate,
    MoonrakerMethod::NotifyStatusUpdate,
    MoonrakerMethod::NotifyKlippyReady,
    MoonrakerMethod::PrinterObjectsSubscribe,
    MoonrakerMethod::FilesMetadata,
    MoonrakerMethod::PrintPause,
    MoonrakerMethod::PrintResume,
    MoonrakerMethod::PrintCancel,
    MoonrakerMethod::FirmwareRestart,
    MoonrakerMethod::PrinterRestart,
    MoonrakerMethod::EmergencyStop,
    MoonrakerMethod::GcodeScript,
    MoonrakerMethod::PrinterObjectsList,
];

#[test]
fn method_ids_are_stable() {
    assert_eq!(get_method_id(&MoonrakerMethod::FilesMetadata), 3545);
    assert_eq!(get_method_id(&MoonrakerMethod::PrinterObjectsSubscribe), 5434);
    assert_eq!(get_method_id(&MoonrakerMethod::PrintPause), 4564);
    assert_eq!(get_method_id(&MoonrakerMethod::PrintResume), 1485);
    assert_eq!(get_method_id(&MoonrakerMethod::PrintCancel), 2578);
    assert_eq!(get_method_id(&MoonrakerMethod::PrinterRestart), 4894);
    assert_eq!(get_method_id(&MoonrakerMethod::FirmwareRestart), 8463);
    assert_eq!(get_method_id(&MoonrakerMethod::GcodeScript), 4645);
    assert_eq!(get_method_id(&MoonrakerMethod::PrinterObjectsList), 1454);
    assert_eq!(get_method_id(&MoonrakerMethod::NotifyKlippyReady), 0);
    assert_eq!(get_method_id(&MoonrakerMethod::NotifyStatusUpdate), 0);
    assert_eq!(get_method_id(&MoonrakerMethod::NotifyProcStatUpdate), 0);
}

#[test]
fn method_ids_are_deterministic_across_calls() {
    for m in ALL_METHODS {
        assert_eq!(get_method_id(&m), get_method_id(&m));
    }
}

#[test]
fn outbound_method_ids_are_disjoint() {
    let outbound: Vec<_> = ALL_METHODS
        .into_iter()
        .filter(|m| get_method_id(m) != 0)
        .collect();
    for a in &outbound {
        for b in &outbound {
            if a != b {
                assert_ne!(get_method_id(a), get_method_id(b));
            }
        }
    }
}

#[test]
fn method_id_lookup_round_trips() {
    for m in ALL_METHODS {
        let id = get_method_id(&m);
        if id != 0 {
            assert_eq!(get_method_from_id(id), Ok(m));
        }
    }
}

#[test]
fn unknown_method_id_is_reported() {
    assert_eq!(get_method_from_id(1), Err(1));
    assert_eq!(get_method_from_id(9999), Err(9999));
}

#[test]
fn encode_method_id_request() {
    let msg = MoonrakerMsg::new_with_method_and_id(MoonrakerMethod::PrintPause);
    let bytes = msg.to_json();
    assert_eq!(
        String::from_utf8(bytes).unwrap(),
        "{\"jsonrpc\":\"2.0\",\"method\":\"printer.print.pause\",\"id\":4564}"
    );
}

#[test]
fn encode_gcode_request_escapes_newlines() {
    let msg = MoonrakerMsg::new_param_id(
        MoonrakerMethod::GcodeScript,
        MoonrakerParam::GcodeScript {
            script: b"G91\nG1 X+10 F6000\nG90".to_vec(),
        },
    );
    let bytes = msg.to_json();
    assert_eq!(
        String::from_utf8(bytes).unwrap(),
        "{\"jsonrpc\":\"2.0\",\"method\":\"printer.gcode.script\",\"params\":{\"script\":\"G91\\nG1 X+10 F6000\\nG90\"},\"id\":4645}"
    );
}

fn round_trip(msg: MoonrakerMsg) -> MoonrakerMsg {
    let bytes = msg.to_json();
    MoonrakerMsg::from_json(&bytes).expect("canonical bytes decode")
}

#[test]
fn round_trip_method_id() {
    let back = round_trip(MoonrakerMsg::new_with_method_and_id(MoonrakerMethod::PrintResume));
    match back {
        MoonrakerMsg::MsgMethodID { jsonrpc, method, id } => {
            assert_eq!(jsonrpc, b"2.0".to_vec());
            assert_eq!(method, MoonrakerMethod::PrintResume);
            assert_eq!(id, 1485);
        }
        _ => panic!("wrong shape"),
    }
}

#[test]
fn round_trip_gcode_params() {
    let back = round_trip(MoonrakerMsg::new_param_id(
        MoonrakerMethod::GcodeScript,
        MoonrakerParam::GcodeScript {
            script: b"G28\n\"quoted\"\\slash".to_vec(),
        },
    ));
    match back {
        MoonrakerMsg::MsgMethodParamID { method, params, id, .. } => {
            assert_eq!(method, MoonrakerMethod::GcodeScript);
            assert_eq!(id, 4645);
            match params {
                MoonrakerParam::GcodeScript { script } => {
                    assert_eq!(script, b"G28\n\"quoted\"\\slash".to_vec());
                }
                _ => panic!("wrong params"),
            }
        }
        _ => panic!("wrong shape"),
    }
}

#[test]
fn round_trip_filename_params() {
    let back = round_trip(MoonrakerMsg::new_param_id(
        MoonrakerMethod::FilesMetadata,
        MoonrakerParam::FilesMetadata {
            filename: b"model.gcode".to_vec(),
        },
    ));
    match back {
        MoonrakerMsg::MsgMethodParamID { method, params, id, .. } => {
            assert_eq!(method, MoonrakerMethod::FilesMetadata);
            assert_eq!(id, 3545);
            match params {
                MoonrakerParam::FilesMetadata { filename } => {
                    assert_eq!(filename, b"model.gcode".to_vec());
                }
                _ => panic!("wrong params"),
            }
        }
        _ => panic!("wrong shape"),
    }
}

#[test]
fn round_trip_subscription_params() {
    let original = serial_screen::moonraker::subscribe_websocket_events();
    let expected_objects = vec![
        (b"display_status".to_vec(), None),
        (b"print_stats".to_vec(), None),
        (b"toolhead".to_vec(), None),
        (
            b"extruder".to_vec(),
            Some(vec![b"target".to_vec(), b"temperature".to_vec()]),
        ),
        (
            b"heater_bed".to_vec(),
            Some(vec![b"target".to_vec(), b"temperature".to_vec()]),
        ),
    ];
    let back = round_trip(original);
    match back {
        MoonrakerMsg::MsgMethodParamID { method, params, id, .. } => {
            assert_eq!(method, MoonrakerMethod::PrinterObjectsSubscribe);
            assert_eq!(id, 5434);
            match params {
                MoonrakerParam::PrinterObjectsSubscribe { objects } => {
                    assert_eq!(objects, expected_objects);
                }
                _ => panic!("wrong params"),
            }
        }
        _ => panic!("wrong shape"),
    }
}

#[test]
fn decode_result_reply() {
    let bytes = b"{\"jsonrpc\": \"2.0\", \"result\": {\"ok\": true}, \"id\": 5434}";
    match MoonrakerMsg::from_json(bytes).unwrap() {
        MoonrakerMsg::MsgResult { jsonrpc, result, id } => {
            assert_eq!(jsonrpc, b"2.0".to_vec());
            assert_eq!(result, b"{\"ok\": true}".to_vec());
            assert_eq!(id, 5434);
        }
        _ => panic!("wrong shape"),
    }
}

#[test]
fn decode_notification_with_payload() {
    let bytes =
        b"{\"jsonrpc\": \"2.0\", \"method\": \"notify_status_update\", \"params\": [{\"extruder\": {\"temperature\": 23.4}}, 123.5]}";
    match MoonrakerMsg::from_json(bytes).unwrap() {
        MoonrakerMsg::MsgMethodParam { method, params, .. } => {
            assert_eq!(method, MoonrakerMethod::NotifyStatusUpdate);
            match params {
                MoonrakerParam::Raw { value } => {
                    assert_eq!(
                        value,
                        b"[{\"extruder\": {\"temperature\": 23.4}}, 123.5]".to_vec()
                    );
                }
                _ => panic!("unmodeled payload should stay raw"),
            }
        }
        _ => panic!("wrong shape"),
    }
}

#[test]
fn decode_bare_notification() {
    let bytes = b"  {\"jsonrpc\":\"2.0\",\"method\":\"notify_klippy_ready\"}  ";
    match MoonrakerMsg::from_json(bytes).unwrap() {
        MoonrakerMsg::MsgMethod { method, .. } => {
            assert_eq!(method, MoonrakerMethod::NotifyKlippyReady);
        }
        _ => panic!("wrong shape"),
    }
}

#[test]
fn decode_reordered_members() {
    let bytes = b"{\"id\": 4564, \"jsonrpc\": \"2.0\", \"method\": \"printer.print.pause\"}";
    match MoonrakerMsg::from_json(bytes).unwrap() {
        MoonrakerMsg::MsgMethodID { method, id, .. } => {
            assert_eq!(method, MoonrakerMethod::PrintPause);
            assert_eq!(id, 4564);
        }
        _ => panic!("wrong shape"),
    }
}

#[test]
fn decode_rejects_malformed_json() {
    assert_eq!(
        MoonrakerMsg::from_json(b"this is not json"),
        Err(DecodeError::MalformedJson)
    );
    assert_eq!(
        MoonrakerMsg::from_json(b"{\"jsonrpc\":\"2.0\""),
        Err(DecodeError::MalformedJson)
    );
}

#[test]
fn decode_rejects_unknown_method() {
    assert_eq!(
        MoonrakerMsg::from_json(b"{\"jsonrpc\":\"2.0\",\"method\":\"server.info\"}"),
        Err(DecodeError::UnknownMethod)
    );
}

#[test]
fn decode_rejects_unmatched_shape() {
    // A well-formed object with neither a result nor a method.
    assert_eq!(
        MoonrakerMsg::from_json(b"{\"jsonrpc\":\"2.0\",\"error\":{\"code\":-1},\"id\":7}"),
        Err(DecodeError::ShapeMismatch)
    );
}

#[test]
fn write_frame_layout_is_exact() {
    assert_eq!(
        construct_i16(0x2025, 205),
        vec![0x5A, 0xA5, 0x05, 0x82, 0x20, 0x25, 0x00, 0xCD]
    );
}

#[test]
fn write_frame_negative_value_uses_twos_complement() {
    assert_eq!(
        construct_i16(0x2026, -1),
        vec![0x5A, 0xA5, 0x05, 0x82, 0x20, 0x26, 0xFF, 0xFF]
    );
}

#[test]
fn write_frame_text_payload() {
    assert_eq!(
        construct_text(0x2000, "12:34"),
        vec![0x5A, 0xA5, 0x08, 0x82, 0x20, 0x00, 0x31, 0x32, 0x3A, 0x33, 0x34]
    );
    assert_eq!(
        construct_write_buf(0x2000, b"12:34"),
        construct_text(0x2000, "12:34")
    );
}

#[test]
fn write_frame_text_keeps_raw_utf8_bytes() {
    // The codec does no padding, truncation or transcoding: the payload is
    // the raw UTF-8 bytes, non-ASCII included.
    let frame = construct_text(0x2015, "h\u{e9}llo");
    assert_eq!(&frame[..6], &[0x5A, 0xA5, 0x09, 0x82, 0x20, 0x15]);
    assert_eq!(&frame[6..], "h\u{e9}llo".as_bytes());
}

#[test]
fn page_change_frame_layout() {
    assert_eq!(
        construct_change_page(1),
        vec![0x5A, 0xA5, 0x07, 0x82, 0x00, 0x84, 0x5A, 0x01, 0x00, 0x01]
    );
}

#[test]
fn read_frame_layout() {
    assert_eq!(
        construct_read_buf(0x0014, 1),
        vec![0x5A, 0xA5, 0x04, 0x83, 0x00, 0x14, 0x01]
    );
    assert_eq!(construct_get_page(), construct_read_buf(0x0014, 1));
}

#[test]
fn parse_frame_classifies_ack_and_response() {
    match parse_frame(&[0x5A, 0xA5, 0x03, 0x82, 0x00, 0x00]) {
        InboundFrame::WriteAck => {}
        _ => panic!("expected ack"),
    }
    match parse_frame(&[0x5A, 0xA5, 0x06, 0x83, 0x10, 0x00, 0x01, 0x00, 0x07]) {
        InboundFrame::ReadResponse { address, payload } => {
            assert_eq!(address, 0x1000);
            assert_eq!(payload, vec![0x00, 0x07]);
        }
        _ => panic!("expected read response"),
    }
}

#[test]
fn parse_frame_rejects_truncated_buffers() {
    match parse_frame(&[0x5A, 0xA5]) {
        InboundFrame::Malformed => {}
        _ => panic!("short buffer must be malformed"),
    }
    // Claims two words but carries none.
    match parse_frame(&[0x5A, 0xA5, 0x06, 0x83, 0x10, 0x00, 0x02]) {
        InboundFrame::Malformed => {}
        _ => panic!("truncated response must be malformed"),
    }
}
