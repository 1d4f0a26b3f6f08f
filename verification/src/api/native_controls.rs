//! Native maintenance: explicitly targeted, and never on a line that is in use.

use crate::sdp::copy_str;
use crate::text;
use vstd::prelude::*;

verus! {

pub const STATUS_OK: u16 = 200;

pub const STATUS_ACCEPTED: u16 = 202;

pub const STATUS_NOT_FOUND: u16 = 404;

pub const STATUS_CONFLICT: u16 = 409;

/// Why a line is not a target.
#[derive(Debug, PartialEq, Eq)]
pub struct Refusal {
    pub status: u16,
    pub message: String,
}

#[verifier::ext_equal]
pub struct RefusalValue {
    pub status: u16,
    pub message: Seq<char>,
}

impl View for Refusal {
    type V = RefusalValue;

    open spec fn view(&self) -> RefusalValue {
        RefusalValue { status: self.status, message: self.message@ }
    }
}

/// What runs on a line.
#[derive(Debug, Clone, Copy, PartialEq, Eq, Structural)]
pub struct LineUse {
    pub ims_enabled: bool,
    pub data_enabled: bool,
    pub ims_registered: bool,
    pub data_running: bool,
}

pub open spec fn in_use(u: LineUse) -> bool {
    u.ims_enabled || u.data_enabled || u.ims_registered || u.data_running
}

pub open spec fn conflict(message: Seq<char>) -> Option<RefusalValue> {
    Some(RefusalValue { status: STATUS_CONFLICT, message })
}

/// A line is a target where it is known and present, its native device is that
/// line's, and, for a maintenance write, nothing runs on it.
pub open spec fn target_refusal(
    line_id: Seq<char>,
    present: Option<bool>,
    device_line: Result<Seq<char>, Seq<char>>,
    maintenance_write: bool,
    line_use: LineUse,
) -> Option<RefusalValue> {
    match present {
        None => Some(RefusalValue { status: STATUS_NOT_FOUND, message: "line_not_found"@ }),
        Some(present) => if !present {
            conflict("native_line_absent"@)
        } else {
            match device_line {
                Err(error) => conflict(error),
                Ok(device) => if device != line_id {
                    conflict("native_line_identity_mismatch"@)
                } else if maintenance_write && in_use(line_use) {
                    conflict("native_maintenance_disable_ims_and_data_first"@)
                } else {
                    None
                },
            }
        },
    }
}

pub open spec fn device_value(r: Result<String, String>) -> Result<Seq<char>, Seq<char>> {
    match r {
        Ok(s) => Ok(s@),
        Err(s) => Err(s@),
    }
}

fn refuse(status: u16, message: &str) -> (r: Option<Refusal>)
    ensures
        r matches Some(x) && x@ == (RefusalValue { status, message: message@ }),
{
    Some(Refusal { status, message: copy_str(message) })
}

/// Is the line a target? `device_line` is the line of the native device behind its
/// modem, or why there is none.
pub fn target(
    line_id: &str,
    present: Option<bool>,
    device_line: &Result<String, String>,
    maintenance_write: bool,
    line_use: LineUse,
) -> (r: Option<Refusal>)
    ensures
        match r {
            Some(x) => target_refusal(
                line_id@,
                present,
                device_value(*device_line),
                maintenance_write,
                line_use,
            ) == Some(x@),
            None => target_refusal(
                line_id@,
                present,
                device_value(*device_line),
                maintenance_write,
                line_use,
            ) is None,
        },
{
    match present {
        None => refuse(STATUS_NOT_FOUND, "line_not_found"),
        Some(false) => refuse(STATUS_CONFLICT, "native_line_absent"),
        Some(true) => match device_line {
            Err(error) => refuse(STATUS_CONFLICT, error.as_str()),
            Ok(device) => {
                if !text::str_same(device.as_str(), line_id) {
                    refuse(STATUS_CONFLICT, "native_line_identity_mismatch")
                } else if maintenance_write && (line_use.ims_enabled || line_use.data_enabled
                    || line_use.ims_registered || line_use.data_running) {
                    refuse(STATUS_CONFLICT, "native_maintenance_disable_ims_and_data_first")
                } else {
                    None
                }
            },
        },
    }
}

/// The status of a change that was applied: accepted alone, where the hardware has
/// to be looked at again.
pub fn applied_status(reconciliation_required: bool) -> (r: u16)
    ensures
        r == if reconciliation_required {
            STATUS_ACCEPTED
        } else {
            STATUS_OK
        },
{
    if reconciliation_required {
        STATUS_ACCEPTED
    } else {
        STATUS_OK
    }
}

/// A maintenance write never reaches a line that something runs on, nor one whose
/// device is another line's.
pub proof fn law_busy_lines_are_left_alone(
    line_id: Seq<char>,
    present: Option<bool>,
    device_line: Result<Seq<char>, Seq<char>>,
    line_use: LineUse,
)
    ensures
        target_refusal(line_id, present, device_line, true, line_use) is None ==> !in_use(line_use)
            && device_line == Ok::<_, Seq<char>>(line_id) && present == Some(true),
{
}

} // verus!
