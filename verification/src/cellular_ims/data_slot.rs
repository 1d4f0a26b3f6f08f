//! Which bearers a line gets inside its UE namespace.
//!
//! The endpoint facts come from the device driver that was selected.

use crate::cellular_ims::errors::{code, CellularImsError};
use vstd::prelude::*;

verus! {

#[derive(Debug, Clone, Copy, PartialEq, Eq, Structural)]
pub enum DataSlotMode {
    /// Native IMS is the only cellular bearer requested for the line.
    UeNativeIms,
    /// Native IMS and native cellular data are both requested.
    UeNativeImsWithData,
}

impl DataSlotMode {
    pub fn allocation_message(self) -> (r: &'static str)
        ensures
            r@ == match self {
                DataSlotMode::UeNativeIms => "native IMS allocated inside the UE namespace"@,
                DataSlotMode::UeNativeImsWithData =>
                    "native IMS and cellular data allocated inside the UE namespace"@,
            },
    {
        match self {
            DataSlotMode::UeNativeIms => "native IMS allocated inside the UE namespace",
            DataSlotMode::UeNativeImsWithData =>
                "native IMS and cellular data allocated inside the UE namespace",
        }
    }

    pub fn as_str(self) -> (r: &'static str)
        ensures
            r@ == match self {
                DataSlotMode::UeNativeIms => "ue_native_ims"@,
                DataSlotMode::UeNativeImsWithData => "ue_native_ims_with_data"@,
            },
    {
        match self {
            DataSlotMode::UeNativeIms => "ue_native_ims",
            DataSlotMode::UeNativeImsWithData => "ue_native_ims_with_data",
        }
    }
}

#[derive(Debug, Clone, Copy, PartialEq, Eq, Structural)]
pub struct DataSlotInputs {
    /// The native IMS endpoint of the device is ready.
    pub ims_endpoint_available: bool,
    pub data_requested: bool,
    /// The independent endpoint for ordinary data is ready.
    pub data_endpoint_available: bool,
}

impl Default for DataSlotInputs {
    fn default() -> (r: Self)
        ensures
            r == (DataSlotInputs {
                ims_endpoint_available: false,
                data_requested: false,
                data_endpoint_available: false,
            }),
    {
        DataSlotInputs {
            ims_endpoint_available: false,
            data_requested: false,
            data_endpoint_available: false,
        }
    }
}

/// Every bearer that is asked for needs its endpoint.
pub open spec fn slot_mode(inputs: DataSlotInputs) -> Option<DataSlotMode> {
    if !inputs.ims_endpoint_available || (inputs.data_requested && !inputs.data_endpoint_available) {
        None
    } else if inputs.data_requested {
        Some(DataSlotMode::UeNativeImsWithData)
    } else {
        Some(DataSlotMode::UeNativeIms)
    }
}

pub fn select_data_slot_mode(inputs: DataSlotInputs) -> (r: Result<DataSlotMode, CellularImsError>)
    ensures
        match r {
            Ok(mode) => slot_mode(inputs) == Some(mode),
            Err(e) => slot_mode(inputs) is None && e.code_spec() == code::DATA_SLOT_MODE_MISSING@
                && e.detail_spec() is None,
        },
{
    if !inputs.ims_endpoint_available || (inputs.data_requested && !inputs.data_endpoint_available) {
        return Err(CellularImsError::new(code::DATA_SLOT_MODE_MISSING));
    }
    if inputs.data_requested {
        Ok(DataSlotMode::UeNativeImsWithData)
    } else {
        Ok(DataSlotMode::UeNativeIms)
    }
}

} // verus!
