//! The closed set of remote methods and the static correlation-id table.
//!
//! Each outbound method maps to one fixed numeric id; the id is echoed back
//! in the daemon's reply and is the only key used to correlate a reply with
//! the request that caused it. Notification-only methods use id 0: no reply
//! is ever expected for them. The table assigns every outbound method its
//! own id, so a reply can never be attributed to two different requests.

use vstd::prelude::*;

verus! {

/// The closed set of remote methods exchanged with the printer daemon.
#[derive(Debug, Clone, Copy, PartialEq, Eq, Structural)]
pub enum MoonrakerMethod {
    NotifyProcStatUpdate,
    NotifyStatusUpdate,
    NotifyKlippyReady,
    PrinterObjectsSubscribe,
    FilesMetadata,
    PrintPause,
    PrintResume,
    PrintCancel,
    FirmwareRestart,
    PrinterRestart,
    EmergencyStop,
    GcodeScript,
    PrinterObjectsList,
}

/// The correlation id of each method. Notification kinds carry 0.
pub open spec fn method_id_spec(method: MoonrakerMethod) -> u16 {
    match method {
        MoonrakerMethod::FilesMetadata => 3545,
        MoonrakerMethod::PrinterObjectsSubscribe => 5434,
        MoonrakerMethod::PrintPause => 4564,
        MoonrakerMethod::PrintResume => 1485,
        MoonrakerMethod::PrintCancel => 2578,
        MoonrakerMethod::PrinterRestart => 4894,
        MoonrakerMethod::FirmwareRestart => 8463,
        MoonrakerMethod::EmergencyStop => 4565,
        MoonrakerMethod::GcodeScript => 4645,
        MoonrakerMethod::PrinterObjectsList => 1454,
        MoonrakerMethod::NotifyKlippyReady => 0,
        MoonrakerMethod::NotifyStatusUpdate => 0,
        MoonrakerMethod::NotifyProcStatUpdate => 0,
    }
}

/// True of the methods that are only ever received as notifications and
/// therefore carry no correlation id.
pub open spec fn is_notification(method: MoonrakerMethod) -> bool {
    method_id_spec(method) == 0
}

/// Returns the correlation id of `method`, as `method_id_spec` states it.
pub fn get_method_id(method: &MoonrakerMethod) -> (id: u16)
    ensures
        id == method_id_spec(*method),
{
    match method {
        MoonrakerMethod::FilesMetadata => 3545,
        MoonrakerMethod::PrinterObjectsSubscribe => 5434,
        MoonrakerMethod::PrintPause => 4564,
        MoonrakerMethod::PrintResume => 1485,
        MoonrakerMethod::PrintCancel => 2578,
        MoonrakerMethod::PrinterRestart => 4894,
        MoonrakerMethod::FirmwareRestart => 8463,
        MoonrakerMethod::EmergencyStop => 4565,
        MoonrakerMethod::GcodeScript => 4645,
        MoonrakerMethod::PrinterObjectsList => 1454,
        MoonrakerMethod::NotifyKlippyReady => 0,
        MoonrakerMethod::NotifyStatusUpdate => 0,
        MoonrakerMethod::NotifyProcStatUpdate => 0,
    }
}

/// The inverse of the id table over the outbound methods.
pub open spec fn method_from_id_spec(id: u16) -> Option<MoonrakerMethod> {
    if id == 3545 {
        Some(MoonrakerMethod::FilesMetadata)
    } else if id == 5434 {
        Some(MoonrakerMethod::PrinterObjectsSubscribe)
    } else if id == 4564 {
        Some(MoonrakerMethod::PrintPause)
    } else if id == 1485 {
        Some(MoonrakerMethod::PrintResume)
    } else if id == 2578 {
        Some(MoonrakerMethod::PrintCancel)
    } else if id == 4894 {
        Some(MoonrakerMethod::PrinterRestart)
    } else if id == 8463 {
        Some(MoonrakerMethod::FirmwareRestart)
    } else if id == 4565 {
        Some(MoonrakerMethod::EmergencyStop)
    } else if id == 4645 {
        Some(MoonrakerMethod::GcodeScript)
    } else if id == 1454 {
        Some(MoonrakerMethod::PrinterObjectsList)
    } else {
        None
    }
}

/// Maps a reply's correlation id back to the method of the request, or
/// reports the id as unknown. Succeeds exactly on the ids of the table.
pub fn get_method_from_id(id: u16) -> (r: Result<MoonrakerMethod, u16>)
    ensures
        match r {
            Ok(m) => method_from_id_spec(id) == Some(m),
            Err(e) => method_from_id_spec(id) is None && e == id,
        },
{
    match method_from_id_spec_exec(id) {
        Some(m) => Ok(m),
        None => Err(id),
    }
}

fn method_from_id_spec_exec(id: u16) -> (r: Option<MoonrakerMethod>)
    ensures
        r == method_from_id_spec(id),
{
    if id == 3545 {
        Some(MoonrakerMethod::FilesMetadata)
    } else if id == 5434 {
        Some(MoonrakerMethod::PrinterObjectsSubscribe)
    } else if id == 4564 {
        Some(MoonrakerMethod::PrintPause)
    } else if id == 1485 {
        Some(MoonrakerMethod::PrintResume)
    } else if id == 2578 {
        Some(MoonrakerMethod::PrintCancel)
    } else if id == 4894 {
        Some(MoonrakerMethod::PrinterRestart)
    } else if id == 8463 {
        Some(MoonrakerMethod::FirmwareRestart)
    } else if id == 4565 {
        Some(MoonrakerMethod::EmergencyStop)
    } else if id == 4645 {
        Some(MoonrakerMethod::GcodeScript)
    } else if id == 1454 {
        Some(MoonrakerMethod::PrinterObjectsList)
    } else {
        None
    }
}

/// The id table is a function of the method alone: two equal methods always
/// map to the same id, in any two calls.
pub proof fn lemma_method_id_deterministic(m1: MoonrakerMethod, m2: MoonrakerMethod)
    requires
        m1 == m2,
    ensures
        method_id_spec(m1) == method_id_spec(m2),
{
}

/// Distinct outbound methods never share a correlation id, so a reply is
/// attributed to at most one request; and looking an outbound method's id
/// back up returns that method.
pub proof fn lemma_method_id_injective(m: MoonrakerMethod)
    requires
        !is_notification(m),
    ensures
        method_from_id_spec(method_id_spec(m)) == Some(m),
        forall|m2: MoonrakerMethod|
            !is_notification(m2) && m2 != m ==> method_id_spec(m2) != method_id_spec(m),
{
}

} // verus!
