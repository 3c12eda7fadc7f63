use vstd::prelude::*;
use crate::controller::{Controller, RegisterInterface};
use crate::error::FlashWriterError;
use crate::status::{decode_status, decoded};

verus! {

/// Reads of the busy flag that may find it set before a wait gives up.
pub const BUSY_RETRIES: u16 = 220;

/// Whether a wait on `c` runs out of retries.
pub open spec fn times_out(c: Controller) -> bool {
    c.stuck || c.busy_polls > BUSY_RETRIES
}

/// The controller after a wait: the busy flag was read until it cleared or
/// the retries ran out.
pub open spec fn after_wait(c: Controller) -> Controller {
    if c.stuck {
        c
    } else if c.busy_polls > BUSY_RETRIES {
        Controller { busy_polls: (c.busy_polls - BUSY_RETRIES - 1) as nat, ..c }
    } else {
        Controller { busy_polls: 0, ..c }
    }
}

/// What a wait on `c` returns: a timeout, or else what the status bits say.
pub open spec fn wait_result(c: Controller, extended: bool) -> Result<(), FlashWriterError> {
    if times_out(c) {
        Err(FlashWriterError::BsyTimeout)
    } else {
        decoded(c.status, extended)
    }
}

/// Reads the status register and decodes its error bits.
pub fn check_errors_ram<R: RegisterInterface>(regs: &mut R, extended: bool) -> (result: Result<
    (),
    FlashWriterError,
>)
    ensures
        result == decoded(old(regs).model().status, extended),
        final(regs).model() == old(regs).model(),
{
    let flags = regs.status();
    decode_status(flags, extended)
}

/// Waits until the controller is ready, for at most [`BUSY_RETRIES`] retries,
/// and reports the error that the finished operation left behind.
pub fn check_bsy_sram<R: RegisterInterface>(regs: &mut R, extended: bool) -> (result: Result<
    (),
    FlashWriterError,
>)
    ensures
        result == wait_result(old(regs).model(), extended),
        final(regs).model() == after_wait(old(regs).model()),
{
    let ghost start = regs.model();
    let mut cnt: u16 = 0;
    let mut busy: bool = regs.busy();
    while busy && cnt < BUSY_RETRIES
        invariant
            cnt <= BUSY_RETRIES,
            busy == (start.stuck || start.busy_polls > cnt),
            start.stuck ==> regs.model() == start,
            !start.stuck && start.busy_polls > cnt ==> regs.model() == (Controller {
                busy_polls: (start.busy_polls - cnt - 1) as nat,
                ..start
            }),
            !start.stuck && start.busy_polls <= cnt ==> regs.model() == (Controller {
                busy_polls: 0,
                ..start
            }),
        decreases BUSY_RETRIES - cnt,
    {
        cnt += 1;
        busy = regs.busy();
    }
    if busy {
        Err(FlashWriterError::BsyTimeout)
    } else {
        check_errors_ram(regs, extended)
    }
}

} // verus!
