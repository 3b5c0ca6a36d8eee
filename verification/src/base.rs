use vstd::prelude::*;

verus! {

/// Basic error type for the library.
#[derive(Copy, Clone, Debug, PartialEq, Eq, Structural)]
pub enum FreeRtosError {
    OutOfMemory,
    QueueSendTimeout,
    QueueReceiveTimeout,
    MutexTimeout,
    Timeout,
    QueueFull,
    StringConversionError,
    TaskNotFound,
    InvalidQueueSize,
    ProcessorHasShutDown,
}

/// The opaque type behind the kernel's `void` pointers.
pub enum CVoid {
    _Variant1,
    _Variant2,
}

pub type FreeRtosChar = u8;

pub type FreeRtosBaseType = i32;

pub type FreeRtosUBaseType = u32;

pub type FreeRtosTickType = u32;

pub type FreeRtosTaskState = u8;

pub type FreeRtosUnsignedLong = u32;

pub type FreeRtosUnsignedShort = u16;

} // verus!
