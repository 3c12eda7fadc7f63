use vstd::prelude::*;
use crate::error::FlashWriterError;

verus! {

/// The error bits of the status register, as read in one access.
#[derive(Clone, Copy, Debug, PartialEq, Eq, Structural)]
pub struct StatusFlags {
    pub prog_err: bool,
    pub size_err: bool,
    pub pga_err: bool,
    pub pgs_err: bool,
    pub wrp_err: bool,
    pub miss_err: bool,
    pub fast_err: bool,
}

/// The error that a status word stands for: the first bit set, in the order
/// program, size, alignment, sequence, write-protect, miss, fast-program.
/// A family without the extended set reports only program and write-protect.
pub open spec fn decoded(flags: StatusFlags, extended: bool) -> Result<(), FlashWriterError> {
    if flags.prog_err {
        Err(FlashWriterError::ProgErr)
    } else if extended && flags.size_err {
        Err(FlashWriterError::SizeErr)
    } else if extended && flags.pga_err {
        Err(FlashWriterError::PgaErr)
    } else if extended && flags.pgs_err {
        Err(FlashWriterError::PgsErr)
    } else if flags.wrp_err {
        Err(FlashWriterError::WrpErr)
    } else if extended && flags.miss_err {
        Err(FlashWriterError::MissErr)
    } else if extended && flags.fast_err {
        Err(FlashWriterError::FastErr)
    } else {
        Ok(())
    }
}

impl StatusFlags {
    /// The status word with no error bit set.
    pub open spec fn no_errors() -> StatusFlags {
        StatusFlags {
            prog_err: false,
            size_err: false,
            pga_err: false,
            pgs_err: false,
            wrp_err: false,
            miss_err: false,
            fast_err: false,
        }
    }

    /// A status word with no error bit set.
    pub fn clear() -> (flags: StatusFlags)
        ensures
            flags == Self::no_errors(),
    {
        StatusFlags {
            prog_err: false,
            size_err: false,
            pga_err: false,
            pgs_err: false,
            wrp_err: false,
            miss_err: false,
            fast_err: false,
        }
    }
}

/// Decodes a status word into the error of highest priority.
pub fn decode_status(flags: StatusFlags, extended: bool) -> (result: Result<(), FlashWriterError>)
    ensures
        result == decoded(flags, extended),
{
    if flags.prog_err {
        return Err(FlashWriterError::ProgErr);
    }
    if extended {
        if flags.size_err {
            return Err(FlashWriterError::SizeErr);
        }
        if flags.pga_err {
            return Err(FlashWriterError::PgaErr);
        }
        if flags.pgs_err {
            return Err(FlashWriterError::PgsErr);
        }
    }
    if flags.wrp_err {
        return Err(FlashWriterError::WrpErr);
    }
    if extended {
        if flags.miss_err {
            return Err(FlashWriterError::MissErr);
        }
        if flags.fast_err {
            return Err(FlashWriterError::FastErr);
        }
    }
    Ok(())
}

} // verus!
