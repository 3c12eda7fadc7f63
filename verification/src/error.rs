use vstd::prelude::*;

verus! {

/// Everything that can go wrong while driving the flash controller.
#[derive(Clone, Copy, Debug, PartialEq, Eq, Structural)]
pub enum FlashWriterError {
    /// The requested region is reversed or leaves the device.
    InvalidRange,
    CannotGetFlashRegs,
    /// The busy flag was still up when the polling budget ran out.
    BsyTimeout,
    EraseFailed,
    /// The key sequence was written and the lock bit stayed set.
    FlashLocked,
    WriteFailed,
    WrongBankId,
    /// The next chunk would pass the end of the region.
    OutOfFlashWriterMemory,
    ProgErr,
    WrpErr,
    SizeErr,
    PgaErr,
    PgsErr,
    MissErr,
    FastErr,
}

} // verus!
