//! The wire envelope: one complete JSON-RPC message exchanged with the
//! printer daemon.
//!
//! Every envelope carries the protocol-version tag. A message is one of:
//! a request with parameters and a correlation id, a request with an id
//! alone, a fire-and-forget notification (with or without a payload), or a
//! reply carrying an opaque result payload and the id of the request it
//! answers. Payload strings are kept as raw bytes: the wire is UTF-8 JSON
//! and the library passes script and file names through untouched.

use vstd::prelude::*;

verus! {

use vstd::slice::slice_to_vec;
use vstd::string::StringSliceAdditionalSpecFns;
use crate::methods::{method_id_spec, MoonrakerMethod};

/// The parameter payload of a request or notification.
#[derive(Debug, PartialEq, Eq)]
pub enum MoonrakerParam {
    /// The object-filter map of a subscription request: subsystem name to
    /// optional field list, in send order, keys unique.
    PrinterObjectsSubscribe { objects: Vec<(Vec<u8>, Option<Vec<Vec<u8>>>)> },
    /// A gcode script to run, passed through as an opaque string.
    GcodeScript { script: Vec<u8> },
    /// The file name of a metadata query.
    FilesMetadata { filename: Vec<u8> },
    /// An unmodeled payload, kept verbatim as the JSON bytes of the wire.
    Raw { value: Vec<u8> },
}

/// The mathematical value of a parameter payload.
pub enum ParamV {
    Subscribe { objects: Seq<(Seq<u8>, Option<Seq<Seq<u8>>>)> },
    Gcode { script: Seq<u8> },
    FileMeta { filename: Seq<u8> },
    Raw { value: Seq<u8> },
}

impl View for MoonrakerParam {
    type V = ParamV;

    open spec fn view(&self) -> ParamV {
        match self {
            MoonrakerParam::PrinterObjectsSubscribe { objects } => ParamV::Subscribe {
                objects: Seq::new(
                    objects@.len(),
                    |i: int|
                        (
                            objects@[i].0@,
                            match objects@[i].1 {
                                Some(fields) => Some(fields.deep_view()),
                                None => None,
                            },
                        ),
                ),
            },
            MoonrakerParam::GcodeScript { script } => ParamV::Gcode { script: script@ },
            MoonrakerParam::FilesMetadata { filename } => ParamV::FileMeta { filename: filename@ },
            MoonrakerParam::Raw { value } => ParamV::Raw { value: value@ },
        }
    }
}

impl DeepView for MoonrakerParam {
    type V = ParamV;

    open spec fn deep_view(&self) -> ParamV {
        self.view()
    }
}

/// One complete wire message.
#[derive(Debug, PartialEq, Eq)]
pub enum MoonrakerMsg {
    /// A reply: an opaque result payload and the id of the request it
    /// answers.
    MsgResult { jsonrpc: Vec<u8>, result: Vec<u8>, id: u16 },
    /// A notification carrying a payload; no reply is expected.
    MsgMethodParam { jsonrpc: Vec<u8>, method: MoonrakerMethod, params: MoonrakerParam },
    /// A request with parameters and a correlation id.
    MsgMethodParamID {
        jsonrpc: Vec<u8>,
        method: MoonrakerMethod,
        params: MoonrakerParam,
        id: u16,
    },
    /// A bare notification; no payload, no reply expected.
    MsgMethod { jsonrpc: Vec<u8>, method: MoonrakerMethod },
    /// A request with a correlation id and no parameters.
    MsgMethodID { jsonrpc: Vec<u8>, method: MoonrakerMethod, id: u16 },
}

/// The mathematical value of a wire message.
pub enum MsgV {
    Result { jsonrpc: Seq<u8>, result: Seq<u8>, id: u16 },
    MethodParam { jsonrpc: Seq<u8>, method: MoonrakerMethod, params: ParamV },
    MethodParamId { jsonrpc: Seq<u8>, method: MoonrakerMethod, params: ParamV, id: u16 },
    Method { jsonrpc: Seq<u8>, method: MoonrakerMethod },
    MethodId { jsonrpc: Seq<u8>, method: MoonrakerMethod, id: u16 },
}

impl View for MoonrakerMsg {
    type V = MsgV;

    open spec fn view(&self) -> MsgV {
        match self {
            MoonrakerMsg::MsgResult { jsonrpc, result, id } => MsgV::Result {
                jsonrpc: jsonrpc@,
                result: result@,
                id: *id,
            },
            MoonrakerMsg::MsgMethodParam { jsonrpc, method, params } => MsgV::MethodParam {
                jsonrpc: jsonrpc@,
                method: *method,
                params: params@,
            },
            MoonrakerMsg::MsgMethodParamID { jsonrpc, method, params, id } => MsgV::MethodParamId {
                jsonrpc: jsonrpc@,
                method: *method,
                params: params@,
                id: *id,
            },
            MoonrakerMsg::MsgMethod { jsonrpc, method } => MsgV::Method {
                jsonrpc: jsonrpc@,
                method: *method,
            },
            MoonrakerMsg::MsgMethodID { jsonrpc, method, id } => MsgV::MethodId {
                jsonrpc: jsonrpc@,
                method: *method,
                id: *id,
            },
        }
    }
}

impl DeepView for MoonrakerMsg {
    type V = MsgV;

    open spec fn deep_view(&self) -> MsgV {
        self.view()
    }
}

/// The protocol-version tag every envelope carries: the bytes of `2.0`.
pub open spec fn version_bytes() -> Seq<u8> {
    seq![0x32u8, 0x2eu8, 0x30u8]
}

/// Builds the version tag.
pub fn make_version() -> (r: Vec<u8>)
    ensures
        r@ == version_bytes(),
{
    let mut r: Vec<u8> = Vec::new();
    r.push(0x32);
    r.push(0x2e);
    r.push(0x30);
    proof {
        assert(r@ =~= version_bytes());
    }
    r
}

/// The value of a request with parameters, correlated under the method's
/// own id.
pub open spec fn param_request_v(method: MoonrakerMethod, params: ParamV) -> MsgV {
    MsgV::MethodParamId { jsonrpc: version_bytes(), method, params, id: method_id_spec(method) }
}

/// The value of a request without parameters, correlated under the
/// method's own id.
pub open spec fn method_request_v(method: MoonrakerMethod) -> MsgV {
    MsgV::MethodId { jsonrpc: version_bytes(), method, id: method_id_spec(method) }
}

impl MoonrakerMsg {
    /// A request carrying `params`, its id drawn from the method table.
    pub fn new_param_id(method: MoonrakerMethod, params: MoonrakerParam) -> (r: MoonrakerMsg)
        ensures
            r@ == param_request_v(method, params@),
    {
        let id = crate::methods::get_method_id(&method);
        MoonrakerMsg::MsgMethodParamID { jsonrpc: make_version(), method, params, id }
    }

    /// A request without parameters, its id drawn from the method table.
    pub fn new_with_method_and_id(method: MoonrakerMethod) -> (r: MoonrakerMsg)
        ensures
            r@ == method_request_v(method),
    {
        let id = crate::methods::get_method_id(&method);
        MoonrakerMsg::MsgMethodID { jsonrpc: make_version(), method, id }
    }
}

/// A request whose parameter is one gcode script.
pub open spec fn gcode_request_v(script: Seq<u8>) -> MsgV {
    param_request_v(MoonrakerMethod::GcodeScript, ParamV::Gcode { script })
}

/// Builds the request that runs one gcode script.
pub fn make_gcode_request(script: &str) -> (r: MoonrakerMsg)
    ensures
        r@ == gcode_request_v(script.spec_bytes()),
{
    MoonrakerMsg::new_param_id(
        MoonrakerMethod::GcodeScript,
        MoonrakerParam::GcodeScript { script: slice_to_vec(script.as_bytes()) },
    )
}

/// Builds the request that runs one gcode script given as raw bytes.
pub fn make_gcode_request_bytes(script: &Vec<u8>) -> (r: MoonrakerMsg)
    ensures
        r@ == gcode_request_v(script@),
{
    MoonrakerMsg::new_param_id(
        MoonrakerMethod::GcodeScript,
        MoonrakerParam::GcodeScript { script: crate::copy_bytes(script) },
    )
}

/// The wire name of each method, as the daemon spells it.
pub open spec fn method_name_spec(m: MoonrakerMethod) -> Seq<u8> {
    match m {
        MoonrakerMethod::NotifyProcStatUpdate => "notify_proc_stat_update".spec_bytes(),
        MoonrakerMethod::NotifyStatusUpdate => "notify_status_update".spec_bytes(),
        MoonrakerMethod::NotifyKlippyReady => "notify_klippy_ready".spec_bytes(),
        MoonrakerMethod::PrinterObjectsSubscribe => "printer.objects.subscribe".spec_bytes(),
        MoonrakerMethod::FilesMetadata => "server.files.metadata".spec_bytes(),
        MoonrakerMethod::PrintPause => "printer.print.pause".spec_bytes(),
        MoonrakerMethod::PrintResume => "printer.print.resume".spec_bytes(),
        MoonrakerMethod::PrintCancel => "printer.print.cancel".spec_bytes(),
        MoonrakerMethod::FirmwareRestart => "printer.firmware_restart".spec_bytes(),
        MoonrakerMethod::PrinterRestart => "printer.restart".spec_bytes(),
        MoonrakerMethod::EmergencyStop => "printer.emergency_stop".spec_bytes(),
        MoonrakerMethod::GcodeScript => "printer.gcode.script".spec_bytes(),
        MoonrakerMethod::PrinterObjectsList => "printer.objects.list".spec_bytes(),
    }
}

fn method_name(m: &MoonrakerMethod) -> (r: &'static str)
    ensures
        r.spec_bytes() == method_name_spec(*m),
{
    match m {
        MoonrakerMethod::NotifyProcStatUpdate => "notify_proc_stat_update",
        MoonrakerMethod::NotifyStatusUpdate => "notify_status_update",
        MoonrakerMethod::NotifyKlippyReady => "notify_klippy_ready",
        MoonrakerMethod::PrinterObjectsSubscribe => "printer.objects.subscribe",
        MoonrakerMethod::FilesMetadata => "server.files.metadata",
        MoonrakerMethod::PrintPause => "printer.print.pause",
        MoonrakerMethod::PrintResume => "printer.print.resume",
        MoonrakerMethod::PrintCancel => "printer.print.cancel",
        MoonrakerMethod::FirmwareRestart => "printer.firmware_restart",
        MoonrakerMethod::PrinterRestart => "printer.restart",
        MoonrakerMethod::EmergencyStop => "printer.emergency_stop",
        MoonrakerMethod::GcodeScript => "printer.gcode.script",
        MoonrakerMethod::PrinterObjectsList => "printer.objects.list",
    }
}

/// The method of a wire name, tried in the table's order; a name outside
/// the closed set is no method.
pub open spec fn method_from_name_spec(name: Seq<u8>) -> Option<MoonrakerMethod> {
    if name == method_name_spec(MoonrakerMethod::NotifyProcStatUpdate) {
        Some(MoonrakerMethod::NotifyProcStatUpdate)
    } else if name == method_name_spec(MoonrakerMethod::NotifyStatusUpdate) {
        Some(MoonrakerMethod::NotifyStatusUpdate)
    } else if name == method_name_spec(MoonrakerMethod::NotifyKlippyReady) {
        Some(MoonrakerMethod::NotifyKlippyReady)
    } else if name == method_name_spec(MoonrakerMethod::PrinterObjectsSubscribe) {
        Some(MoonrakerMethod::PrinterObjectsSubscribe)
    } else if name == method_name_spec(MoonrakerMethod::FilesMetadata) {
        Some(MoonrakerMethod::FilesMetadata)
    } else if name == method_name_spec(MoonrakerMethod::PrintPause) {
        Some(MoonrakerMethod::PrintPause)
    } else if name == method_name_spec(MoonrakerMethod::PrintResume) {
        Some(MoonrakerMethod::PrintResume)
    } else if name == method_name_spec(MoonrakerMethod::PrintCancel) {
        Some(MoonrakerMethod::PrintCancel)
    } else if name == method_name_spec(MoonrakerMethod::FirmwareRestart) {
        Some(MoonrakerMethod::FirmwareRestart)
    } else if name == method_name_spec(MoonrakerMethod::PrinterRestart) {
        Some(MoonrakerMethod::PrinterRestart)
    } else if name == method_name_spec(MoonrakerMethod::EmergencyStop) {
        Some(MoonrakerMethod::EmergencyStop)
    } else if name == method_name_spec(MoonrakerMethod::GcodeScript) {
        Some(MoonrakerMethod::GcodeScript)
    } else if name == method_name_spec(MoonrakerMethod::PrinterObjectsList) {
        Some(MoonrakerMethod::PrinterObjectsList)
    } else {
        None
    }
}

fn method_from_name(name: &Vec<u8>) -> (r: Option<MoonrakerMethod>)
    ensures
        r == method_from_name_spec(name@),
{
    let s = name.as_slice();
    if crate::slice_eq(s, "notify_proc_stat_update".as_bytes()) {
        Some(MoonrakerMethod::NotifyProcStatUpdate)
    } else if crate::slice_eq(s, "notify_status_update".as_bytes()) {
        Some(MoonrakerMethod::NotifyStatusUpdate)
    } else if crate::slice_eq(s, "notify_klippy_ready".as_bytes()) {
        Some(MoonrakerMethod::NotifyKlippyReady)
    } else if crate::slice_eq(s, "printer.objects.subscribe".as_bytes()) {
        Some(MoonrakerMethod::PrinterObjectsSubscribe)
    } else if crate::slice_eq(s, "server.files.metadata".as_bytes()) {
        Some(MoonrakerMethod::FilesMetadata)
    } else if crate::slice_eq(s, "printer.print.pause".as_bytes()) {
        Some(MoonrakerMethod::PrintPause)
    } else if crate::slice_eq(s, "printer.print.resume".as_bytes()) {
        Some(MoonrakerMethod::PrintResume)
    } else if crate::slice_eq(s, "printer.print.cancel".as_bytes()) {
        Some(MoonrakerMethod::PrintCancel)
    } else if crate::slice_eq(s, "printer.firmware_restart".as_bytes()) {
        Some(MoonrakerMethod::FirmwareRestart)
    } else if crate::slice_eq(s, "printer.restart".as_bytes()) {
        Some(MoonrakerMethod::PrinterRestart)
    } else if crate::slice_eq(s, "printer.emergency_stop".as_bytes()) {
        Some(MoonrakerMethod::EmergencyStop)
    } else if crate::slice_eq(s, "printer.gcode.script".as_bytes()) {
        Some(MoonrakerMethod::GcodeScript)
    } else if crate::slice_eq(s, "printer.objects.list".as_bytes()) {
        Some(MoonrakerMethod::PrinterObjectsList)
    } else {
        None
    }
}

/// A JSON string: quote, escaped body, quote.
pub open spec fn enc_string(x: Seq<u8>) -> Seq<u8> {
    seq![0x22u8] + crate::json::esc(x) + seq![0x22u8]
}

/// One object member: key string, colon, value bytes.
pub open spec fn enc_member(key: Seq<u8>, value: Seq<u8>) -> Seq<u8> {
    enc_string(key) + seq![0x3au8] + value
}

/// The value of one subscription entry: `null` for a whole subsystem, the
/// array of field-name strings for a narrowed one.
pub open spec fn enc_subscribe_value(fields: Option<Seq<Seq<u8>>>) -> Seq<u8> {
    match fields {
        None => seq![0x6eu8, 0x75u8, 0x6cu8, 0x6cu8],
        Some(fs) => seq![0x5bu8] + enc_fields_from(fs, 0) + seq![0x5du8],
    }
}

/// The comma-joined field strings from index `i` on.
pub open spec fn enc_fields_from(fs: Seq<Seq<u8>>, i: int) -> Seq<u8>
    decreases fs.len() - i,
    when 0 <= i <= fs.len()
{
    if i >= fs.len() {
        Seq::empty()
    } else if i == fs.len() - 1 {
        enc_string(fs[i])
    } else {
        enc_string(fs[i]) + seq![0x2cu8] + enc_fields_from(fs, i + 1)
    }
}

/// The comma-joined subscription entries from index `i` on.
pub open spec fn enc_objects_from(objs: Seq<(Seq<u8>, Option<Seq<Seq<u8>>>)>, i: int) -> Seq<u8>
    decreases objs.len() - i,
    when 0 <= i <= objs.len()
{
    if i >= objs.len() {
        Seq::empty()
    } else if i == objs.len() - 1 {
        enc_member(objs[i].0, enc_subscribe_value(objs[i].1))
    } else {
        enc_member(objs[i].0, enc_subscribe_value(objs[i].1)) + seq![0x2cu8] + enc_objects_from(
            objs,
            i + 1,
        )
    }
}

/// The bytes of a parameter payload.
pub open spec fn enc_params(p: ParamV) -> Seq<u8> {
    match p {
        ParamV::Gcode { script } => seq![0x7bu8] + enc_member(
            "script".spec_bytes(),
            enc_string(script),
        ) + seq![0x7du8],
        ParamV::FileMeta { filename } => seq![0x7bu8] + enc_member(
            "filename".spec_bytes(),
            enc_string(filename),
        ) + seq![0x7du8],
        ParamV::Subscribe { objects } => seq![0x7bu8] + enc_member(
            "objects".spec_bytes(),
            seq![0x7bu8] + enc_objects_from(objects, 0) + seq![0x7du8],
        ) + seq![0x7du8],
        ParamV::Raw { value } => value,
    }
}

/// The bytes of one whole envelope: a single JSON object, members in the
/// fixed order version, method, params, result, id, no whitespace.
pub open spec fn enc_envelope(m: MsgV) -> Seq<u8> {
    match m {
        MsgV::Result { jsonrpc, result, id } => seq![0x7bu8] + enc_member(
            "jsonrpc".spec_bytes(),
            enc_string(jsonrpc),
        ) + seq![0x2cu8] + enc_member("result".spec_bytes(), result) + seq![0x2cu8] + enc_member(
            "id".spec_bytes(),
            crate::utils::dec_u64(id as u64),
        ) + seq![0x7du8],
        MsgV::MethodParam { jsonrpc, method, params } => seq![0x7bu8] + enc_member(
            "jsonrpc".spec_bytes(),
            enc_string(jsonrpc),
        ) + seq![0x2cu8] + enc_member("method".spec_bytes(), enc_string(method_name_spec(method)))
            + seq![0x2cu8] + enc_member("params".spec_bytes(), enc_params(params)) + seq![0x7du8],
        MsgV::MethodParamId { jsonrpc, method, params, id } => seq![0x7bu8] + enc_member(
            "jsonrpc".spec_bytes(),
            enc_string(jsonrpc),
        ) + seq![0x2cu8] + enc_member("method".spec_bytes(), enc_string(method_name_spec(method)))
            + seq![0x2cu8] + enc_member("params".spec_bytes(), enc_params(params)) + seq![0x2cu8]
            + enc_member("id".spec_bytes(), crate::utils::dec_u64(id as u64)) + seq![0x7du8],
        MsgV::Method { jsonrpc, method } => seq![0x7bu8] + enc_member(
            "jsonrpc".spec_bytes(),
            enc_string(jsonrpc),
        ) + seq![0x2cu8] + enc_member("method".spec_bytes(), enc_string(method_name_spec(method)))
            + seq![0x7du8],
        MsgV::MethodId { jsonrpc, method, id } => seq![0x7bu8] + enc_member(
            "jsonrpc".spec_bytes(),
            enc_string(jsonrpc),
        ) + seq![0x2cu8] + enc_member("method".spec_bytes(), enc_string(method_name_spec(method)))
            + seq![0x2cu8] + enc_member("id".spec_bytes(), crate::utils::dec_u64(id as u64))
            + seq![0x7du8],
    }
}

fn push_string(out: &mut Vec<u8>, x: &[u8])
    ensures
        final(out)@ == old(out)@ + enc_string(x@),
{
    out.push(0x22);
    crate::json::push_escaped(out, x);
    out.push(0x22);
    proof {
        assert(out@ =~= old(out)@ + enc_string(x@));
    }
}

fn push_key(out: &mut Vec<u8>, key: &str)
    ensures
        final(out)@ == old(out)@ + enc_string(key.spec_bytes()) + seq![0x3au8],
{
    push_string(out, key.as_bytes());
    out.push(0x3a);
}

fn push_fields(out: &mut Vec<u8>, fs: &Vec<Vec<u8>>, i: usize)
    requires
        i <= fs@.len(),
    ensures
        final(out)@ == old(out)@ + enc_fields_from(fs.deep_view(), i as int),
    decreases fs@.len() - i,
{
    if i < fs.len() {
        proof {
            assert(fs@[i as int].deep_view() =~= fs@[i as int]@);
        }
        push_string(out, fs[i].as_slice());
        if i + 1 < fs.len() {
            out.push(0x2c);
            push_fields(out, fs, i + 1);
        }
        proof {
            assert(out@ =~= old(out)@ + enc_fields_from(fs.deep_view(), i as int));
        }
    } else {
        proof {
            assert(out@ =~= old(out)@ + enc_fields_from(fs.deep_view(), i as int));
        }
    }
}

fn push_objects(out: &mut Vec<u8>, objs: &Vec<(Vec<u8>, Option<Vec<Vec<u8>>>)>, i: usize, Ghost(
    view,
): Ghost<Seq<(Seq<u8>, Option<Seq<Seq<u8>>>)>>)
    requires
        i <= objs@.len(),
        view == Seq::new(
            objs@.len(),
            |k: int|
                (
                    objs@[k].0@,
                    match objs@[k].1 {
                        Some(fields) => Some(fields.deep_view()),
                        None => None,
                    },
                ),
        ),
    ensures
        final(out)@ == old(out)@ + enc_objects_from(view, i as int),
    decreases objs@.len() - i,
{
    if i < objs.len() {
        push_string(out, objs[i].0.as_slice());
        out.push(0x3a);
        match &objs[i].1 {
            None => {
                out.push(0x6e);
                out.push(0x75);
                out.push(0x6c);
                out.push(0x6c);
            },
            Some(fields) => {
                out.push(0x5b);
                push_fields(out, fields, 0);
                out.push(0x5d);
            },
        }
        proof {
            assert(out@ =~= old(out)@ + enc_member(
                view[i as int].0,
                enc_subscribe_value(view[i as int].1),
            ));
        }
        if i + 1 < objs.len() {
            out.push(0x2c);
            push_objects(out, objs, i + 1, Ghost(view));
        }
        proof {
            assert(out@ =~= old(out)@ + enc_objects_from(view, i as int));
        }
    } else {
        proof {
            assert(out@ =~= old(out)@ + enc_objects_from(view, i as int));
        }
    }
}

fn push_params(out: &mut Vec<u8>, p: &MoonrakerParam)
    ensures
        final(out)@ == old(out)@ + enc_params(p@),
{
    match p {
        MoonrakerParam::GcodeScript { script } => {
            out.push(0x7b);
            push_key(out, "script");
            push_string(out, script.as_slice());
            out.push(0x7d);
            proof {
                assert(out@ =~= old(out)@ + enc_params(p@));
            }
        },
        MoonrakerParam::FilesMetadata { filename } => {
            out.push(0x7b);
            push_key(out, "filename");
            push_string(out, filename.as_slice());
            out.push(0x7d);
            proof {
                assert(out@ =~= old(out)@ + enc_params(p@));
            }
        },
        MoonrakerParam::PrinterObjectsSubscribe { objects } => {
            out.push(0x7b);
            push_key(out, "objects");
            out.push(0x7b);
            push_objects(out, objects, 0, Ghost(p@->Subscribe_objects));
            out.push(0x7d);
            out.push(0x7d);
            proof {
                assert(out@ =~= old(out)@ + enc_params(p@));
            }
        },
        MoonrakerParam::Raw { value } => {
            let mut i: usize = 0;
            crate::utils::push_slice_range(out, value.as_slice(), 0, value.len());
            proof {
                assert(value@.subrange(0, value@.len() as int) =~= value@);
                assert(out@ =~= old(out)@ + enc_params(p@));
            }
        },
    }
}

impl MoonrakerMsg {
    /// Serializes this envelope as its wire bytes.
    #[verifier::rlimit(100)]
    #[verifier::spinoff_prover]
    pub fn to_json(&self) -> (r: Vec<u8>)
        ensures
            r@ == enc_envelope(self@),
    {
        let mut out: Vec<u8> = Vec::new();
        out.push(0x7b);
        push_key(&mut out, "jsonrpc");
        match self {
            MoonrakerMsg::MsgResult { jsonrpc, result, id } => {
                push_string(&mut out, jsonrpc.as_slice());
                out.push(0x2c);
                push_key(&mut out, "result");
                crate::utils::push_slice_range(&mut out, result.as_slice(), 0, result.len());
                out.push(0x2c);
                push_key(&mut out, "id");
                crate::utils::push_dec_u64(&mut out, *id as u64);
                out.push(0x7d);
                proof {
                    assert(result@.subrange(0, result@.len() as int) =~= result@);
                    assert(out@ =~= enc_envelope(self@));
                }
            },
            MoonrakerMsg::MsgMethodParam { jsonrpc, method, params } => {
                push_string(&mut out, jsonrpc.as_slice());
                out.push(0x2c);
                push_key(&mut out, "method");
                push_string(&mut out, method_name(method).as_bytes());
                out.push(0x2c);
                push_key(&mut out, "params");
                push_params(&mut out, params);
                out.push(0x7d);
                proof {
                    assert(out@ =~= enc_envelope(self@));
                }
            },
            MoonrakerMsg::MsgMethodParamID { jsonrpc, method, params, id } => {
                push_string(&mut out, jsonrpc.as_slice());
                out.push(0x2c);
                push_key(&mut out, "method");
                push_string(&mut out, method_name(method).as_bytes());
                out.push(0x2c);
                push_key(&mut out, "params");
                push_params(&mut out, params);
                out.push(0x2c);
                push_key(&mut out, "id");
                crate::utils::push_dec_u64(&mut out, *id as u64);
                out.push(0x7d);
                proof {
                    assert(out@ =~= enc_envelope(self@));
                }
            },
            MoonrakerMsg::MsgMethod { jsonrpc, method } => {
                push_string(&mut out, jsonrpc.as_slice());
                out.push(0x2c);
                push_key(&mut out, "method");
                push_string(&mut out, method_name(method).as_bytes());
                out.push(0x7d);
                proof {
                    assert(out@ =~= enc_envelope(self@));
                }
            },
            MoonrakerMsg::MsgMethodID { jsonrpc, method, id } => {
                push_string(&mut out, jsonrpc.as_slice());
                out.push(0x2c);
                push_key(&mut out, "method");
                push_string(&mut out, method_name(method).as_bytes());
                out.push(0x2c);
                push_key(&mut out, "id");
                crate::utils::push_dec_u64(&mut out, *id as u64);
                out.push(0x7d);
                proof {
                    assert(out@ =~= enc_envelope(self@));
                }
            },
        }
        out
    }
}

/// Why decoding failed.
#[derive(Debug, Clone, Copy, PartialEq, Eq, Structural)]
pub enum DecodeError {
    /// The bytes are not one complete JSON object.
    MalformedJson,
    /// A well-formed object that matches none of the envelope shapes.
    ShapeMismatch,
    /// The method name lies outside the closed set.
    UnknownMethod,
}

/// The members of a JSON object from the first key: each key with the
/// extent of its raw value, and the index after the closing brace.
#[verifier::opaque]
pub open spec fn parse_members_spec(s: Seq<u8>, i: int, fuel: nat) -> Option<(
    Seq<(Seq<u8>, (int, int))>,
    int,
)>
    decreases fuel,
{
    if fuel == 0 || !(0 <= i <= s.len()) {
        None
    } else {
        match crate::json::parse_string_spec(s, i) {
            None => None,
            Some((k, j)) => {
                if !(0 <= j <= s.len()) {
                    None
                } else {
                    let c = crate::json::skip_ws_spec(s, j);
                    if !(c < s.len() && s[c] == 0x3a) {
                        None
                    } else {
                        let a = crate::json::skip_ws_spec(s, c + 1);
                        match crate::json::skip_value(s, a, (fuel - 1) as nat) {
                            None => None,
                            Some(b) => {
                                let t = crate::json::skip_ws_spec(s, b);
                                if t < s.len() && s[t] == 0x2c {
                                    match parse_members_spec(
                                        s,
                                        crate::json::skip_ws_spec(s, t + 1),
                                        (fuel - 1) as nat,
                                    ) {
                                        None => None,
                                        Some((rest, end)) => Some(
                                            (seq![(k, (a, b))] + rest, end),
                                        ),
                                    }
                                } else if t < s.len() && s[t] == 0x7d {
                                    Some((seq![(k, (a, b))], t + 1))
                                } else {
                                    None
                                }
                            },
                        }
                    }
                }
            },
        }
    }
}

/// The mathematical value of a scanned member list.
pub open spec fn members_view(ms: Seq<(Vec<u8>, (usize, usize))>) -> Seq<(Seq<u8>, (int, int))> {
    Seq::new(ms.len(), |k: int| (ms[k].0@, (ms[k].1.0 as int, ms[k].1.1 as int)))
}

proof fn lemma_members_scan_ok(
    s: Seq<u8>,
    i: int,
    fuel: nat,
    ms: Seq<(Vec<u8>, (usize, usize))>,
    end: usize,
)
    requires
        parse_members_spec(s, i, fuel) matches Some((msv, e2)) && msv == members_view(ms) && e2
            == end as int,
        end <= s.len(),
    ensures
        members_scan_ok(s, i, fuel, ms, end),
{
}

/// What a successful member scan reports: it agrees with the spec scan,
/// and every recorded extent lies inside the buffer.
pub open spec fn members_scan_ok(
    s: Seq<u8>,
    i: int,
    fuel: nat,
    ms: Seq<(Vec<u8>, (usize, usize))>,
    end: usize,
) -> bool {
    &&& parse_members_spec(s, i, fuel) matches Some((msv, e2)) && msv == members_view(ms) && e2
        == end as int
    &&& end <= s.len()
}

#[verifier::rlimit(100)]
#[verifier::spinoff_prover]
fn parse_members_exec(s: &[u8], i: usize, fuel: usize) -> (r: Option<(
    Vec<(Vec<u8>, (usize, usize))>,
    usize,
)>)
    requires
        i <= s@.len(),
    ensures
        match r {
            Some((ms, end)) => members_scan_ok(s@, i as int, fuel as nat, ms@, end),
            None => parse_members_spec(s@, i as int, fuel as nat) is None,
        },
    decreases fuel,
{
    if fuel == 0 {
        proof {
            assert(parse_members_spec(s@, i as int, fuel as nat) is None) by {
                reveal(parse_members_spec);
            }
        }
        return None;
    }
    match crate::json::parse_string(s, i) {
        None => {
            proof {
                assert(parse_members_spec(s@, i as int, fuel as nat) is None) by {
                    reveal(parse_members_spec);
                }
            }
            None
        },
        Some((k, j)) => {
            let c = crate::json::skip_ws(s, j);
            if !(c < s.len() && s[c] == 0x3a) {
                proof {
                    assert(parse_members_spec(s@, i as int, fuel as nat) is None) by {
                        reveal(parse_members_spec);
                    }
                }
                None
            } else {
                let a = crate::json::skip_ws(s, c + 1);
                match crate::json::skip_value_fueled(s, a, fuel - 1) {
                    None => {
                        proof {
                            assert(parse_members_spec(s@, i as int, fuel as nat) is None) by {
                                reveal(parse_members_spec);
                            }
                        }
                        None
                    },
                    Some(b) => {
                        let t = crate::json::skip_ws(s, b);
                        if t < s.len() && s[t] == 0x2c {
                            let n = crate::json::skip_ws(s, t + 1);
                            match parse_members_exec(s, n, fuel - 1) {
                                None => {
                                    proof {
                                        assert(parse_members_spec(
                                            s@,
                                            i as int,
                                            fuel as nat,
                                        ) is None) by {
                                            reveal(parse_members_spec);
                                        }
                                    }
                                    None
                                },
                                Some((rest, end)) => {
                                    let ghost rv = rest@;
                                    let mut ms = rest;
                                    ms.insert(0, (k, (a, b)));
                                    proof {
                                        assert(ms@.subrange(1, ms@.len() as int) =~= rv);
                                        assert(members_view(ms@) =~~= seq![(k@, (a as int, b as int))]
                                            + members_view(rv));
                                        let ghost spec_r = parse_members_spec(
                                            s@,
                                            i as int,
                                            fuel as nat,
                                        );
                                        assert(spec_r matches Some((msv, e2)) && e2 == end as int
                                            && msv =~= members_view(ms@)) by {
                                            reveal(parse_members_spec);
                                        }
                                        assert(spec_r->Some_0.0 =~= members_view(ms@));
                                        lemma_members_scan_ok(s@, i as int, fuel as nat, ms@, end);
                                    }
                                    Some((ms, end))
                                },
                            }
                        } else if t < s.len() && s[t] == 0x7d {
                            let ghost kv = k@;
                            let mut ms: Vec<(Vec<u8>, (usize, usize))> = Vec::new();
                            ms.push((k, (a, b)));
                            proof {
                                assert(members_view(ms@) =~~= seq![(kv, (a as int, b as int))]);
                                assert(ms@.len() == 1 && ms@[0].1 == (a, b));
                                let ghost spec_r = parse_members_spec(s@, i as int, fuel as nat);
                                assert(spec_r matches Some((msv, e2)) && e2 == t + 1 && msv
                                    =~= members_view(ms@)) by {
                                    reveal(parse_members_spec);
                                }
                                assert(spec_r->Some_0.0 =~= members_view(ms@));
                                lemma_members_scan_ok(s@, i as int, fuel as nat, ms@, (t + 1) as usize);
                            }
                            Some((ms, t + 1))
                        } else {
                            proof {
                                assert(parse_members_spec(s@, i as int, fuel as nat) is None) by {
                                    reveal(parse_members_spec);
                                }
                            }
                            None
                        }
                    },
                }
            }
        },
    }
}

/// The extent of the first member under `key`, in scan order.
pub open spec fn find_member_spec(ms: Seq<(Seq<u8>, (int, int))>, key: Seq<u8>) -> Option<(
    int,
    int,
)>
    decreases ms.len(),
{
    if ms.len() == 0 {
        None
    } else if ms[0].0 == key {
        Some(ms[0].1)
    } else {
        find_member_spec(ms.drop_first(), key)
    }
}

fn find_member(ms: &Vec<(Vec<u8>, (usize, usize))>, key: &str) -> (r: Option<(usize, usize)>)
    ensures
        match r {
            Some((a, b)) => find_member_spec(members_view(ms@), key.spec_bytes()) == Some(
                (a as int, b as int),
            ),
            None => find_member_spec(members_view(ms@), key.spec_bytes()) is None,
        },
{
    proof {
        assert(members_view(ms@).subrange(0, ms@.len() as int) =~= members_view(ms@));
    }
    find_member_from(ms, key, 0)
}

fn find_member_from(ms: &Vec<(Vec<u8>, (usize, usize))>, key: &str, i: usize) -> (r: Option<(
    usize,
    usize,
)>)
    requires
        i <= ms@.len(),
    ensures
        match r {
            Some((a, b)) => find_member_spec(
                members_view(ms@).subrange(i as int, ms@.len() as int),
                key.spec_bytes(),
            ) == Some((a as int, b as int)),
            None => find_member_spec(
                members_view(ms@).subrange(i as int, ms@.len() as int),
                key.spec_bytes(),
            ) is None,
        },
    decreases ms@.len() - i,
{
    let ghost tail = members_view(ms@).subrange(i as int, ms@.len() as int);
    if i >= ms.len() {
        proof {
            assert(tail.len() == 0);
        }
        None
    } else {
        proof {
            assert(tail[0] == members_view(ms@)[i as int]);
            assert(tail.drop_first() =~= members_view(ms@).subrange(i + 1, ms@.len() as int));
        }
        if crate::slice_eq(ms[i].0.as_slice(), key.as_bytes()) {
            Some(ms[i].1)
        } else {
            find_member_from(ms, key, i + 1)
        }
    }
}

/// A one-member parameter object holding a single string under `key`, in
/// the codec's own canonical form, or nothing.
pub open spec fn parse_simple_param(raw: Seq<u8>, key: Seq<u8>) -> Option<Seq<u8>> {
    if raw.len() >= 1 && raw[0] == 0x7b {
        match crate::json::parse_string_spec(raw, 1) {
            Some((k, j)) => if k == key && 0 <= j < raw.len() && raw[j] == 0x3a {
                match crate::json::parse_string_spec(raw, j + 1) {
                    Some((v, m)) => if 0 <= m < raw.len() && raw[m] == 0x7d && m + 1 == raw.len() {
                        Some(v)
                    } else {
                        None
                    },
                    None => None,
                }
            } else {
                None
            },
            None => None,
        }
    } else {
        None
    }
}

/// The field-name strings of one narrowed subscription entry, from the
/// first string to just past the closing bracket.
pub open spec fn parse_strings_spec(raw: Seq<u8>, i: int, fuel: nat) -> Option<(Seq<Seq<u8>>, int)>
    decreases fuel,
{
    if fuel == 0 {
        None
    } else {
        match crate::json::parse_string_spec(raw, i) {
            None => None,
            Some((f, j)) => if 0 <= j < raw.len() && raw[j] == 0x2c {
                match parse_strings_spec(raw, j + 1, (fuel - 1) as nat) {
                    None => None,
                    Some((rest, end)) => Some((seq![f] + rest, end)),
                }
            } else if 0 <= j < raw.len() && raw[j] == 0x5d {
                Some((seq![f], j + 1))
            } else {
                None
            },
        }
    }
}

/// The entries of a subscription object, from the first key to just past
/// the closing brace.
pub open spec fn parse_entries_spec(raw: Seq<u8>, i: int, fuel: nat) -> Option<(
    Seq<(Seq<u8>, Option<Seq<Seq<u8>>>)>,
    int,
)>
    decreases fuel,
{
    if fuel == 0 {
        None
    } else {
        match crate::json::parse_string_spec(raw, i) {
            None => None,
            Some((k, j)) => if !(0 <= j && j + 1 < raw.len() && raw[j] == 0x3a) {
                None
            } else {
                let value: Option<(Option<Seq<Seq<u8>>>, int)> = if raw[j + 1] == 0x6e {
                    if j + 5 <= raw.len() && raw[j + 2] == 0x75 && raw[j + 3] == 0x6c && raw[j + 4]
                        == 0x6c {
                        Some((None, j + 5))
                    } else {
                        None
                    }
                } else if raw[j + 1] == 0x5b {
                    if j + 2 < raw.len() && raw[j + 2] == 0x5d {
                        Some((Some(Seq::empty()), j + 3))
                    } else {
                        match parse_strings_spec(raw, j + 2, (fuel - 1) as nat) {
                            None => None,
                            Some((fs, end)) => Some((Some(fs), end)),
                        }
                    }
                } else {
                    None
                };
                match value {
                    None => None,
                    Some((v, v_end)) => if 0 <= v_end < raw.len() && raw[v_end] == 0x2c {
                        match parse_entries_spec(raw, v_end + 1, (fuel - 1) as nat) {
                            None => None,
                            Some((rest, end)) => Some((seq![(k, v)] + rest, end)),
                        }
                    } else if 0 <= v_end < raw.len() && raw[v_end] == 0x7d {
                        Some((seq![(k, v)], v_end + 1))
                    } else {
                        None
                    },
                }
            },
        }
    }
}

/// A whole subscription parameter object in canonical form, or nothing.
pub open spec fn parse_subscribe_param(raw: Seq<u8>) -> Option<
    Seq<(Seq<u8>, Option<Seq<Seq<u8>>>)>,
> {
    if raw.len() >= 1 && raw[0] == 0x7b {
        match crate::json::parse_string_spec(raw, 1) {
            Some((k, j)) => if k == "objects".spec_bytes() && 0 <= j && j + 1 < raw.len() && raw[j]
                == 0x3a && raw[j + 1] == 0x7b {
                if j + 2 < raw.len() && raw[j + 2] == 0x7d {
                    if j + 4 == raw.len() && raw[j + 3] == 0x7d {
                        Some(Seq::empty())
                    } else {
                        None
                    }
                } else {
                    match parse_entries_spec(raw, j + 2, (raw.len() + 2) as nat) {
                        None => None,
                        Some((entries, end)) => if end + 1 == raw.len() && 0 <= end < raw.len()
                            && raw[end] == 0x7d {
                            Some(entries)
                        } else {
                            None
                        },
                    }
                }
            } else {
                None
            },
            None => None,
        }
    } else {
        None
    }
}

/// What a params payload means: one of the modeled shapes in the codec's
/// canonical form, or the raw bytes kept verbatim.
pub open spec fn params_of_raw(raw: Seq<u8>) -> ParamV {
    if parse_simple_param(raw, "script".spec_bytes()) is Some {
        ParamV::Gcode { script: parse_simple_param(raw, "script".spec_bytes())->Some_0 }
    } else if parse_simple_param(raw, "filename".spec_bytes()) is Some {
        ParamV::FileMeta { filename: parse_simple_param(raw, "filename".spec_bytes())->Some_0 }
    } else if parse_subscribe_param(raw) is Some {
        ParamV::Subscribe { objects: parse_subscribe_param(raw)->Some_0 }
    } else {
        ParamV::Raw { value: raw }
    }
}

fn parse_simple_param_exec(raw: &Vec<u8>, key: &str) -> (r: Option<Vec<u8>>)
    ensures
        match r {
            Some(v) => parse_simple_param(raw@, key.spec_bytes()) == Some(v@),
            None => parse_simple_param(raw@, key.spec_bytes()) is None,
        },
{
    let s = raw.as_slice();
    if s.len() >= 1 && s[0] == 0x7b {
        match crate::json::parse_string(s, 1) {
            Some((k, j)) => {
                if crate::slice_eq(k.as_slice(), key.as_bytes()) && j < s.len() && s[j] == 0x3a {
                    match crate::json::parse_string(s, j + 1) {
                        Some((v, m)) => {
                            if m < s.len() && s[m] == 0x7d && m + 1 == s.len() {
                                Some(v)
                            } else {
                                None
                            }
                        },
                        None => None,
                    }
                } else {
                    None
                }
            },
            None => None,
        }
    } else {
        None
    }
}

fn parse_strings_exec(raw: &Vec<u8>, i: usize, fuel: usize) -> (r: Option<(Vec<Vec<u8>>, usize)>)
    requires
        i <= raw@.len(),
    ensures
        match r {
            Some((fs, end)) => parse_strings_spec(raw@, i as int, fuel as nat) == Some(
                (fs.deep_view(), end as int),
            ) && end <= raw@.len(),
            None => parse_strings_spec(raw@, i as int, fuel as nat) is None,
        },
    decreases fuel,
{
    if fuel == 0 {
        return None;
    }
    let s = raw.as_slice();
    match crate::json::parse_string(s, i) {
        None => None,
        Some((f, j)) => {
            if j < s.len() && s[j] == 0x2c {
                match parse_strings_exec(raw, j + 1, fuel - 1) {
                    None => None,
                    Some((rest, end)) => {
                        let mut fs = rest;
                        fs.insert(0, f);
                        proof {
                            assert(fs.deep_view() =~~= seq![fs@[0]@] + fs@.subrange(
                                1,
                                fs@.len() as int,
                            ).map_values(|v: Vec<u8>| v@));
                            assert(fs@.subrange(1, fs@.len() as int).map_values(|v: Vec<u8>| v@)
                                =~~= fs@.drop_first().map_values(|v: Vec<u8>| v@));
                            assert(fs.deep_view() =~~= seq![f@] + rest.deep_view());
                        }
                        Some((fs, end))
                    },
                }
            } else if j < s.len() && s[j] == 0x5d {
                let mut fs: Vec<Vec<u8>> = Vec::new();
                fs.push(f);
                proof {
                    assert(fs.deep_view() =~~= seq![f@]);
                }
                Some((fs, j + 1))
            } else {
                None
            }
        },
    }
}

/// The value of a parsed subscription entry list.
pub open spec fn entries_view(es: Seq<(Vec<u8>, Option<Vec<Vec<u8>>>)>) -> Seq<
    (Seq<u8>, Option<Seq<Seq<u8>>>),
> {
    Seq::new(
        es.len(),
        |k: int|
            (
                es[k].0@,
                match es[k].1 {
                    Some(fields) => Some(fields.deep_view()),
                    None => None,
                },
            ),
    )
}

fn parse_entries_exec(raw: &Vec<u8>, i: usize, fuel: usize) -> (r: Option<(
    Vec<(Vec<u8>, Option<Vec<Vec<u8>>>)>,
    usize,
)>)
    requires
        i <= raw@.len(),
    ensures
        match r {
            Some((es, end)) => parse_entries_spec(raw@, i as int, fuel as nat) == Some(
                (entries_view(es@), end as int),
            ) && end <= raw@.len(),
            None => parse_entries_spec(raw@, i as int, fuel as nat) is None,
        },
    decreases fuel,
{
    if fuel == 0 {
        return None;
    }
    let s = raw.as_slice();
    match crate::json::parse_string(s, i) {
        None => None,
        Some((k, j)) => {
            if !(j < s.len() && s.len() - j >= 2 && s[j] == 0x3a) {
                return None;
            }
            let value: Option<(Option<Vec<Vec<u8>>>, usize)> = if s[j + 1] == 0x6e {
                if s.len() - j >= 5 && s[j + 2] == 0x75 && s[j + 3] == 0x6c && s[j + 4] == 0x6c {
                    Some((None, j + 5))
                } else {
                    None
                }
            } else if s[j + 1] == 0x5b {
                if j + 2 < s.len() && s[j + 2] == 0x5d {
                    Some((Some(Vec::new()), j + 3))
                } else {
                    match parse_strings_exec(raw, j + 2, fuel - 1) {
                        None => None,
                        Some((fs, end)) => Some((Some(fs), end)),
                    }
                }
            } else {
                None
            };
            match value {
                None => None,
                Some((v, v_end)) => {
                    proof {
                        match &v {
                            Some(fields) => {
                                if fields@.len() == 0 {
                                    assert(fields.deep_view() =~~= Seq::<Seq<u8>>::empty());
                                }
                            },
                            None => {},
                        }
                    }
                    if v_end < s.len() && s[v_end] == 0x2c {
                        match parse_entries_exec(raw, v_end + 1, fuel - 1) {
                            None => None,
                            Some((rest, end)) => {
                                let ghost head = (
                                    k@,
                                    match &v {
                                        Some(fields) => Some(fields.deep_view()),
                                        None => None,
                                    },
                                );
                                let mut es = rest;
                                es.insert(0, (k, v));
                                proof {
                                    assert(es@.drop_first() =~= es@.subrange(1, es@.len() as int));
                                    assert(entries_view(es@) =~~= seq![head] + entries_view(
                                        es@.drop_first(),
                                    ));
                                }
                                Some((es, end))
                            },
                        }
                    } else if v_end < s.len() && s[v_end] == 0x7d {
                        let ghost head = (
                            k@,
                            match &v {
                                Some(fields) => Some(fields.deep_view()),
                                None => None,
                            },
                        );
                        let mut es: Vec<(Vec<u8>, Option<Vec<Vec<u8>>>)> = Vec::new();
                        es.push((k, v));
                        proof {
                            assert(entries_view(es@) =~~= seq![head]);
                        }
                        Some((es, v_end + 1))
                    } else {
                        None
                    }
                },
            }
        },
    }
}

fn parse_params_exec(raw: Vec<u8>) -> (r: MoonrakerParam)
    requires
        raw@.len() + 2 <= usize::MAX,
    ensures
        r@ == params_of_raw(raw@),
{
    match parse_simple_param_exec(&raw, "script") {
        Some(script) => {
            return MoonrakerParam::GcodeScript { script };
        },
        None => {},
    }
    match parse_simple_param_exec(&raw, "filename") {
        Some(filename) => {
            return MoonrakerParam::FilesMetadata { filename };
        },
        None => {},
    }
    let s = raw.as_slice();
    if s.len() >= 1 && s[0] == 0x7b {
        match crate::json::parse_string(s, 1) {
            Some((k, j)) => {
                if crate::slice_eq(k.as_slice(), "objects".as_bytes()) && j + 1 < s.len() && s[j]
                    == 0x3a && s[j + 1] == 0x7b {
                    if j + 2 < s.len() && s[j + 2] == 0x7d {
                        if j + 4 == s.len() && s[j + 3] == 0x7d {
                            let objects: Vec<(Vec<u8>, Option<Vec<Vec<u8>>>)> = Vec::new();
                            proof {
                                assert(entries_view(objects@) =~~= Seq::<
                                    (Seq<u8>, Option<Seq<Seq<u8>>>),
                                >::empty());
                                assert((MoonrakerParam::PrinterObjectsSubscribe { objects })@
                                    =~~= params_of_raw(raw@));
                            }
                            return MoonrakerParam::PrinterObjectsSubscribe { objects };
                        }
                    } else {
                        match parse_entries_exec(&raw, j + 2, raw.len() + 2) {
                            None => {},
                            Some((entries, end)) => {
                                if end + 1 == s.len() && end < s.len() && s[end] == 0x7d {
                                    let objects = entries;
                                    proof {
                                        assert((MoonrakerParam::PrinterObjectsSubscribe {
                                            objects,
                                        })@ =~~= params_of_raw(raw@));
                                    }
                                    return MoonrakerParam::PrinterObjectsSubscribe { objects };
                                }
                            },
                        }
                    }
                }
            },
            None => {},
        }
    }
    proof {
        assert((MoonrakerParam::Raw { value: raw })@ =~~= params_of_raw(raw@));
    }
    MoonrakerParam::Raw { value: raw }
}

/// What an envelope's scanned members mean, shapes tried in order: the
/// reply shape first (a result and an id, no method), then the method
/// shapes by which of params and id they carry. The version tag must be
/// present and a string; the method name must be in the closed set; an id
/// must be a plain number no wider than the table's ids.
pub open spec fn decode_members_spec(s: Seq<u8>, ms: Seq<(Seq<u8>, (int, int))>) -> Result<
    MsgV,
    DecodeError,
> {
    match find_member_spec(ms, "jsonrpc".spec_bytes()) {
        None => Err(DecodeError::ShapeMismatch),
        Some((va, vb)) => match crate::json::parse_string_spec(s, va) {
            None => Err(DecodeError::ShapeMismatch),
            Some((ver, vj)) => if vj != vb {
                Err(DecodeError::ShapeMismatch)
            } else {
                let result_m = find_member_spec(ms, "result".spec_bytes());
                let method_m = find_member_spec(ms, "method".spec_bytes());
                let id_m = find_member_spec(ms, "id".spec_bytes());
                let params_m = find_member_spec(ms, "params".spec_bytes());
                if result_m.is_some() && method_m.is_none() && id_m.is_some() {
                    let ra = result_m->Some_0.0;
                    let rb = result_m->Some_0.1;
                    let ia = id_m->Some_0.0;
                    let ib = id_m->Some_0.1;
                    match crate::json::parse_u16_spec(s, ia) {
                        Some((id, ij)) => if ij == ib && 0 <= ra <= rb <= s.len() {
                            Ok(MsgV::Result { jsonrpc: ver, result: s.subrange(ra, rb), id })
                        } else {
                            Err(DecodeError::ShapeMismatch)
                        },
                        None => Err(DecodeError::ShapeMismatch),
                    }
                } else if method_m is Some {
                    let ma = method_m->Some_0.0;
                    let mb = method_m->Some_0.1;
                    match crate::json::parse_string_spec(s, ma) {
                        None => Err(DecodeError::ShapeMismatch),
                        Some((name, mj)) => if mj != mb {
                            Err(DecodeError::ShapeMismatch)
                        } else {
                            match method_from_name_spec(name) {
                                None => Err(DecodeError::UnknownMethod),
                                Some(method) => match (params_m, id_m) {
                                    (Some((pa, pb)), Some((ia, ib))) => match crate::json
                                        ::parse_u16_spec(s, ia) {
                                        Some((id, ij)) => if ij == ib && 0 <= pa <= pb <= s.len() {
                                            Ok(
                                                MsgV::MethodParamId {
                                                    jsonrpc: ver,
                                                    method,
                                                    params: params_of_raw(s.subrange(pa, pb)),
                                                    id,
                                                },
                                            )
                                        } else {
                                            Err(DecodeError::ShapeMismatch)
                                        },
                                        None => Err(DecodeError::ShapeMismatch),
                                    },
                                    (Some((pa, pb)), None) => if 0 <= pa <= pb <= s.len() {
                                        Ok(
                                            MsgV::MethodParam {
                                                jsonrpc: ver,
                                                method,
                                                params: params_of_raw(s.subrange(pa, pb)),
                                            },
                                        )
                                    } else {
                                        Err(DecodeError::ShapeMismatch)
                                    },
                                    (None, Some((ia, ib))) => match crate::json::parse_u16_spec(
                                        s,
                                        ia,
                                    ) {
                                        Some((id, ij)) => if ij == ib {
                                            Ok(MsgV::MethodId { jsonrpc: ver, method, id })
                                        } else {
                                            Err(DecodeError::ShapeMismatch)
                                        },
                                        None => Err(DecodeError::ShapeMismatch),
                                    },
                                    (None, None) => Ok(MsgV::Method { jsonrpc: ver, method }),
                                },
                            }
                        },
                    }
                } else {
                    Err(DecodeError::ShapeMismatch)
                }
            },
        },
    }
}

/// What one buffer of wire bytes decodes to: one complete JSON object,
/// nothing but whitespace around it, read as `decode_members_spec` says.
pub open spec fn decode_spec(s: Seq<u8>) -> Result<MsgV, DecodeError> {
    let i = crate::json::skip_ws_spec(s, 0);
    if !(i < s.len() && s[i] == 0x7b) {
        Err(DecodeError::MalformedJson)
    } else {
        let j = crate::json::skip_ws_spec(s, i + 1);
        let parsed: Option<(Seq<(Seq<u8>, (int, int))>, int)> = if j < s.len() && s[j] == 0x7d {
            Some((Seq::empty(), j + 1))
        } else {
            parse_members_spec(s, j, (s.len() + 2) as nat)
        };
        match parsed {
            None => Err(DecodeError::MalformedJson),
            Some((ms, end)) => if !(0 <= end <= s.len()) || crate::json::skip_ws_spec(s, end)
                != s.len() {
                Err(DecodeError::MalformedJson)
            } else {
                decode_members_spec(s, ms)
            },
        }
    }
}

fn copy_span(s: &[u8], a: usize, b: usize) -> (r: Vec<u8>)
    requires
        a <= b <= s@.len(),
    ensures
        r@ == s@.subrange(a as int, b as int),
{
    let mut r: Vec<u8> = Vec::new();
    crate::utils::push_slice_range(&mut r, s, a, b);
    r
}

fn parse_id_span(s: &[u8], a: usize, b: usize) -> (r: Option<u16>)
    requires
        a <= s@.len(),
    ensures
        match r {
            Some(id) => crate::json::parse_u16_spec(s@, a as int) matches Some((v, j)) && v == id
                && j == b as int,
            None => !(crate::json::parse_u16_spec(s@, a as int) matches Some((v, j)) && j
                == b as int),
        },
{
    match crate::json::parse_u16(s, a) {
        Some((id, j)) => if j == b {
            Some(id)
        } else {
            None
        },
        None => None,
    }
}

impl MoonrakerMsg {
    /// Decodes one buffer of wire bytes, exactly as `decode_spec` reads it.
    /// Succeeds on every complete object that carries the version tag and
    /// matches one of the envelope shapes; the error says what failed:
    /// bytes that are not one JSON object, a method outside the closed
    /// set, or an object matching no shape.
    pub fn from_json(s: &[u8]) -> (r: Result<MoonrakerMsg, DecodeError>)
        requires
            s@.len() + 2 <= usize::MAX,
        ensures
            match r {
                Ok(m) => decode_spec(s@) == Ok::<MsgV, DecodeError>(m@),
                Err(e) => decode_spec(s@) == Err::<MsgV, DecodeError>(e),
            },
    {
        let i = crate::json::skip_ws(s, 0);
        if !(i < s.len() && s[i] == 0x7b) {
            return Err(DecodeError::MalformedJson);
        }
        let j = crate::json::skip_ws(s, i + 1);
        let parsed: Option<(Vec<(Vec<u8>, (usize, usize))>, usize)> = if j < s.len() && s[j]
            == 0x7d {
            proof {
                assert(members_view(Seq::<(Vec<u8>, (usize, usize))>::empty()) =~= Seq::<
                    (Seq<u8>, (int, int)),
                >::empty());
            }
            Some((Vec::new(), j + 1))
        } else {
            parse_members_exec(s, j, s.len() + 2)
        };
        match parsed {
            None => Err(DecodeError::MalformedJson),
            Some((ms, end)) => {
                if crate::json::skip_ws(s, end) != s.len() {
                    return Err(DecodeError::MalformedJson);
                }
                Self::decode_members(s, &ms)
            },
        }
    }

    fn decode_members(s: &[u8], ms: &Vec<(Vec<u8>, (usize, usize))>) -> (r: Result<
        MoonrakerMsg,
        DecodeError,
    >)
        requires
            s@.len() + 2 <= usize::MAX,
        ensures
            match r {
                Ok(m) => decode_members_spec(s@, members_view(ms@)) == Ok::<MsgV, DecodeError>(m@),
                Err(e) => decode_members_spec(s@, members_view(ms@)) == Err::<MsgV, DecodeError>(
                    e,
                ),
            },
    {
        let version_m = find_member(ms, "jsonrpc");
        let (va, vb) = match version_m {
            None => {
                return Err(DecodeError::ShapeMismatch);
            },
            Some(span) => span,
        };
        if va > s.len() {
            return Err(DecodeError::ShapeMismatch);
        }
        let ver = match crate::json::parse_string(s, va) {
            None => {
                return Err(DecodeError::ShapeMismatch);
            },
            Some((ver, vj)) => {
                if vj != vb {
                    return Err(DecodeError::ShapeMismatch);
                }
                ver
            },
        };
        let result_m = find_member(ms, "result");
        let method_m = find_member(ms, "method");
        let id_m = find_member(ms, "id");
        let params_m = find_member(ms, "params");
        if result_m.is_some() && method_m.is_none() && id_m.is_some() {
            let (ra, rb) = result_m.unwrap();
            let (ia, ib) = id_m.unwrap();
            if ia > s.len() {
                return Err(DecodeError::ShapeMismatch);
            }
            match parse_id_span(s, ia, ib) {
                Some(id) => {
                    if !(ra <= rb && rb <= s.len()) {
                        return Err(DecodeError::ShapeMismatch);
                    }
                    Ok(MoonrakerMsg::MsgResult {
                        jsonrpc: ver,
                        result: copy_span(s, ra, rb),
                        id,
                    })
                },
                None => Err(DecodeError::ShapeMismatch),
            }
        } else if method_m.is_some() {
            let (ma, mb) = method_m.unwrap();
            if ma > s.len() {
                return Err(DecodeError::ShapeMismatch);
            }
            let name = match crate::json::parse_string(s, ma) {
                None => {
                    return Err(DecodeError::ShapeMismatch);
                },
                Some((name, mj)) => {
                    if mj != mb {
                        return Err(DecodeError::ShapeMismatch);
                    }
                    name
                },
            };
            let method = match method_from_name(&name) {
                None => {
                    return Err(DecodeError::UnknownMethod);
                },
                Some(m) => m,
            };
            match (params_m, id_m) {
                (Some((pa, pb)), Some((ia, ib))) => {
                    if ia > s.len() {
                        return Err(DecodeError::ShapeMismatch);
                    }
                    match parse_id_span(s, ia, ib) {
                        Some(id) => {
                            if !(pa <= pb && pb <= s.len()) {
                                return Err(DecodeError::ShapeMismatch);
                            }
                            let params = parse_params_exec(copy_span(s, pa, pb));
                            Ok(MoonrakerMsg::MsgMethodParamID { jsonrpc: ver, method, params, id })
                        },
                        None => Err(DecodeError::ShapeMismatch),
                    }
                },
                (Some((pa, pb)), None) => {
                    if !(pa <= pb && pb <= s.len()) {
                        return Err(DecodeError::ShapeMismatch);
                    }
                    let params = parse_params_exec(copy_span(s, pa, pb));
                    Ok(MoonrakerMsg::MsgMethodParam { jsonrpc: ver, method, params })
                },
                (None, Some((ia, ib))) => {
                    if ia > s.len() {
                        return Err(DecodeError::ShapeMismatch);
                    }
                    match parse_id_span(s, ia, ib) {
                        Some(id) => Ok(MoonrakerMsg::MsgMethodID { jsonrpc: ver, method, id }),
                        None => Err(DecodeError::ShapeMismatch),
                    }
                },
                (None, None) => Ok(MoonrakerMsg::MsgMethod { jsonrpc: ver, method }),
            }
        } else {
            Err(DecodeError::ShapeMismatch)
        }
    }
}

} // verus!
