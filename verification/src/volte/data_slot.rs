//! Which bearers a VoLTE line gets inside its UE namespace.
//!
//! A line needs a prepared native endpoint whose interface can be moved into its
//! namespace. Ordinary data, when it is enabled, follows the same rule.

use crate::cellular_ims::data_slot::DataSlotMode;
use crate::cellular_ims::errors::{code, CellularImsError};
use vstd::prelude::*;

verus! {

#[derive(Debug, Clone, Copy, PartialEq, Eq, Structural)]
pub struct DataSlotInputs {
    pub data_requested: bool,
    /// The endpoint for this baseband; IMS itself uses it, so it is needed even
    /// where ordinary data is disabled.
    pub native_endpoint_available: bool,
}

impl Default for DataSlotInputs {
    fn default() -> (r: Self)
        ensures
            r == (DataSlotInputs { data_requested: false, native_endpoint_available: false }),
    {
        DataSlotInputs { data_requested: false, native_endpoint_available: false }
    }
}

pub open spec fn slot_mode(inputs: DataSlotInputs) -> Option<DataSlotMode> {
    if !inputs.native_endpoint_available {
        None
    } else if inputs.data_requested {
        Some(DataSlotMode::UeNativeImsWithData)
    } else {
        Some(DataSlotMode::UeNativeIms)
    }
}

pub fn select_data_slot_mode(inputs: DataSlotInputs) -> (r: Result<DataSlotMode, CellularImsError>)
    ensures
        match r {
            Ok(mode) => slot_mode(inputs) == Some(mode),
            Err(e) => slot_mode(inputs) is None && e.code_spec() == code::DATA_SLOT_MODE_MISSING@
                && e.detail_spec() is None,
        },
{
    if !inputs.native_endpoint_available {
        return Err(CellularImsError::new(code::DATA_SLOT_MODE_MISSING));
    }
    if inputs.data_requested {
        Ok(DataSlotMode::UeNativeImsWithData)
    } else {
        Ok(DataSlotMode::UeNativeIms)
    }
}

} // verus!
