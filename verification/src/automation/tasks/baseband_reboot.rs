//! The task that restarts the baseband of a modem.

use vstd::prelude::*;

verus! {

#[derive(Debug, Clone, Copy, PartialEq, Eq, Structural)]
pub struct BasebandRebootHandler;

/// How the connection is set up again after the restart.
#[derive(Debug, Clone, Copy, PartialEq, Eq, Structural)]
pub struct RestartOptions {
    pub auto_connect_data: bool,
    pub allow_roaming: bool,
}

impl BasebandRebootHandler {
    pub fn task_type(&self) -> (r: &'static str)
        ensures
            r@ == "restart_baseband"@,
    {
        "restart_baseband"
    }

    /// Data comes back unless the user had it off.
    pub fn restart_options(&self, data_user_disabled: bool, roaming_allowed: bool) -> (r:
        RestartOptions)
        ensures
            r == (RestartOptions {
                auto_connect_data: !data_user_disabled,
                allow_roaming: roaming_allowed,
            }),
    {
        RestartOptions { auto_connect_data: !data_user_disabled, allow_roaming: roaming_allowed }
    }
}

} // verus!
