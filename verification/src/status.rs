//! Status codes of the driver: negative ones are failures.
use vstd::prelude::*;

verus! {

pub type NTSTATUS = i32;

pub const STATUS_SUCCESS: NTSTATUS = 0;

/// 0xC0000001
pub const STATUS_UNSUCCESSFUL: NTSTATUS = -0x3FFF_FFFF;

/// 0xC0000002
pub const STATUS_NOT_IMPLEMENTED: NTSTATUS = -0x3FFF_FFFE;

/// 0xC000000D
pub const STATUS_INVALID_PARAMETER: NTSTATUS = -0x3FFF_FFF3;

/// 0xC0000010
pub const STATUS_INVALID_DEVICE_REQUEST: NTSTATUS = -0x3FFF_FFF0;

/// 0xC0000023
pub const STATUS_BUFFER_TOO_SMALL: NTSTATUS = -0x3FFF_FFDD;

/// 0xC000009A
pub const STATUS_INSUFFICIENT_RESOURCES: NTSTATUS = -0x3FFF_FF66;

/// 0xC00000BB
pub const STATUS_NOT_SUPPORTED: NTSTATUS = -0x3FFF_FF45;

/// 0xC0000272
pub const STATUS_NO_MATCH: NTSTATUS = -0x3FFF_FD8E;

/// 0x80000005, a warning: the answer to a caller that only asks how much room is needed.
pub const STATUS_BUFFER_OVERFLOW: NTSTATUS = -0x7FFF_FFFB;

/// 0x80000011, a warning.
pub const STATUS_DEVICE_BUSY: NTSTATUS = -0x7FFF_FFEF;

/// 0x80004002: the answer of an object that does not have the interface asked for.
pub const E_NOINTERFACE: NTSTATUS = -0x7FFF_BFFE;

/// Every code that reports a failure or a warning is negative, and success is not.
pub proof fn law_failures_are_negative()
    ensures
        STATUS_SUCCESS == 0,
        STATUS_UNSUCCESSFUL < 0,
        STATUS_NOT_IMPLEMENTED < 0,
        STATUS_INVALID_PARAMETER < 0,
        STATUS_INVALID_DEVICE_REQUEST < 0,
        STATUS_BUFFER_TOO_SMALL < 0,
        STATUS_INSUFFICIENT_RESOURCES < 0,
        STATUS_NOT_SUPPORTED < 0,
        STATUS_NO_MATCH < 0,
        STATUS_BUFFER_OVERFLOW < 0,
        STATUS_DEVICE_BUSY < 0,
        E_NOINTERFACE < 0,
{
}

} // verus!
