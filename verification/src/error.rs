use vstd::prelude::*;

verus! {

/// Error taxonomy shared by device lifecycle, transmission and interrupt
/// binding. `OpenFailed`, `CloseFailed` and `TransmitFailed` are reserved for
/// drivers whose hooks can fail; neither bundled driver installs such a hook.
#[derive(Clone, Copy, Debug, PartialEq, Eq, Structural)]
pub enum NetError {
    ConflictError,
    AlreadyOpen,
    NotOpen,
    OpenFailed,
    CloseFailed,
    PayloadTooLarge,
    TransmitFailed,
    DeviceNotFound,
}

} // verus!
