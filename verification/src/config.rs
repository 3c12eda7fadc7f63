use vstd::prelude::*;
use crate::mem_ext::MemExt;

verus! {

/// What distinguishes one chip family from another.
#[derive(Clone, Copy, Debug, PartialEq, Eq, Structural)]
pub struct FlashConfig {
    /// Bytes written by one programming operation.
    pub program_size: u32,
    /// Bytes erased by one erase operation.
    pub page_size: u32,
    /// Address of the first byte of the flash array.
    pub base_address: u32,
    /// Size of the flash array in kibibytes, as the device reports it.
    pub flash_size_kb: u16,
    /// Whether pages are addressed by bank and page number.
    pub dual_bank: bool,
    /// Whether the status register carries the extended error bits.
    pub extended_errors: bool,
}

/// Bytes in a flash array of `flash_size_kb` kibibytes.
pub open spec fn size_in_bytes(flash_size_kb: u16) -> int {
    flash_size_kb as int * 1024
}

/// Kibibytes that the two pages of equal number in both banks take together.
pub open spec fn bank_pair_kb(page_size: u32) -> int {
    (page_size as int * 2) / 1024
}

impl FlashConfig {
    /// The configuration describes a device: chunks and pages are not empty,
    /// the array ends inside the address space, and a dual-bank device holds
    /// at least one page per bank.
    pub open spec fn wf(&self) -> bool {
        &&& self.program_size >= 1
        &&& self.page_size >= 1
        &&& self.base_address as int + size_in_bytes(self.flash_size_kb) <= u32::MAX as int
        &&& self.dual_bank ==> {
            &&& 1 <= bank_pair_kb(self.page_size)
            &&& bank_pair_kb(self.page_size) <= self.flash_size_kb as int
        }
    }

    /// Whether the configuration describes a device.
    pub fn is_valid(&self) -> (ok: bool)
        ensures
            ok == self.wf(),
    {
        let size: u64 = self.flash_size_kb as u64 * 1024;
        let pair: u64 = (self.page_size as u64 * 2) / 1024;
        self.program_size >= 1 && self.page_size >= 1 && self.base_address as u64 + size
            <= 0xFFFF_FFFF && (!self.dual_bank || (1 <= pair && pair <= self.flash_size_kb as u64))
    }

    /// One past the last address of the flash array.
    pub open spec fn device_end(&self) -> int {
        self.base_address as int + size_in_bytes(self.flash_size_kb)
    }

    /// The region from `start` to `end` is in order and inside the array.
    pub open spec fn holds(&self, start: u32, end: u32) -> bool {
        self.base_address <= start && start <= end && end as int <= self.device_end()
    }

    /// The last page number of the first bank, where the device has two.
    pub open spec fn bank_threshold(&self) -> Option<u32> {
        if self.dual_bank {
            Some((self.flash_size_kb as int / bank_pair_kb(self.page_size) - 1) as u32)
        } else {
            None
        }
    }
}

/// Total flash size in bytes for a device that reports `flash_size_kb`.
pub fn flash_size_bytes(flash_size_kb: u16) -> (bytes: u32)
    ensures
        bytes as int == size_in_bytes(flash_size_kb),
{
    let kb: u32 = flash_size_kb as u32;
    kb.kb()
}

/// Whether both ends of a region lie in the closed interval from
/// `first` to `last`.
pub fn check_range(first: u32, last: u32, start: u32, end: u32) -> (inside: bool)
    ensures
        inside == (first <= start && start <= last && first <= end && end <= last),
{
    first <= start && start <= last && first <= end && end <= last
}

} // verus!
