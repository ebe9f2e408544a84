//! MCSManager's view of an instance.

use vstd::prelude::*;

verus! {

/// An instance's state as the panel reports it.
#[derive(Debug, Clone, Copy, PartialEq, Eq, Structural)]
pub enum InstanceStatus {
    Busy,
    Stopped,
    Stopping,
    Starting,
    Running,
    Unknown(i64),
}

impl InstanceStatus {
    /// The panel's numeric status: -1 busy, 0 stopped, 1 stopping, 2 starting, 3 running.
    pub fn from_code(c: i64) -> (r: InstanceStatus)
        ensures
            r == (if c == -1 {
                InstanceStatus::Busy
            } else if c == 0 {
                InstanceStatus::Stopped
            } else if c == 1 {
                InstanceStatus::Stopping
            } else if c == 2 {
                InstanceStatus::Starting
            } else if c == 3 {
                InstanceStatus::Running
            } else {
                InstanceStatus::Unknown(c)
            }),
    {
        if c == -1 {
            InstanceStatus::Busy
        } else if c == 0 {
            InstanceStatus::Stopped
        } else if c == 1 {
            InstanceStatus::Stopping
        } else if c == 2 {
            InstanceStatus::Starting
        } else if c == 3 {
            InstanceStatus::Running
        } else {
            InstanceStatus::Unknown(c)
        }
    }
}

} // verus!
