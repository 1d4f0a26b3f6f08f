use ims_core::cellular_ims::data_slot::DataSlotMode;
use ims_core::cellular_ims::errors::code;
use ims_core::volte::data_slot::{select_data_slot_mode, DataSlotInputs};

#[test]
fn native_endpoint_is_required_for_every_volte_line() {
    for data_requested in [false, true] {
        let error = select_data_slot_mode(DataSlotInputs {
            data_requested,
            native_endpoint_available: false,
        })
        .unwrap_err();
        assert_eq!(error.code(), code::DATA_SLOT_MODE_MISSING);
    }
}

#[test]
fn volte_only_uses_native_ims_in_the_ue_namespace() {
    let mode = select_data_slot_mode(DataSlotInputs {
        data_requested: false,
        native_endpoint_available: true,
    })
    .unwrap();
    assert_eq!(mode, DataSlotMode::UeNativeIms);
    assert_eq!(mode.as_str(), "ue_native_ims");
}

#[test]
fn data_and_ims_remain_ue_native() {
    let mode = select_data_slot_mode(DataSlotInputs {
        data_requested: true,
        native_endpoint_available: true,
    })
    .unwrap();
    assert_eq!(mode, DataSlotMode::UeNativeImsWithData);
    assert_eq!(mode.as_str(), "ue_native_ims_with_data");
}
