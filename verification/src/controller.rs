use vstd::prelude::*;
use crate::status::StatusFlags;

verus! {

/// First key of the unlock sequence.
pub const KEY_1: u32 = 0x45670123;

/// Second key of the unlock sequence.
pub const KEY_2: u32 = 0xCDEF89AB;

/// What every byte of a page holds after an erase.
pub const ERASED: u8 = 0xFF;

/// How far the unlock sequence has come.
#[derive(Clone, Copy, Debug, PartialEq, Eq, Structural)]
pub enum KeyStage {
    /// No key was written since the lock bit was last set.
    Idle,
    /// The first key was written; the second is awaited.
    FirstKey,
    /// A wrong key was written: the controller takes no more keys.
    Frozen,
}

/// The page that the next erase acts on.
#[derive(Clone, Copy, Debug, PartialEq, Eq, Structural)]
pub enum EraseSelect {
    Unset,
    /// A page named by an address inside it.
    Address(u32),
    /// A page named by its bank and its number in that bank.
    Page { second_bank: bool, number: u32 },
}

/// The flash controller and its array as the register interface shows them.
pub struct Controller {
    pub locked: bool,
    pub key_stage: KeyStage,
    /// Reads of the busy flag that will still find it set.
    pub busy_polls: nat,
    /// The busy flag never clears.
    pub stuck: bool,
    /// Reads of the busy flag that an accepted operation keeps it set for.
    pub latency: nat,
    pub status: StatusFlags,
    pub erase_request: bool,
    pub program_request: bool,
    pub erase_select: EraseSelect,
    /// Address of `memory[0]`.
    pub base: nat,
    pub page_size: nat,
    /// Pages in the first bank.
    pub bank_pages: nat,
    pub memory: Seq<u8>,
}

impl Controller {
    pub open spec fn is_busy(self) -> bool {
        self.stuck || self.busy_polls > 0
    }

    /// The controller after one read of the busy flag.
    pub open spec fn polled(self) -> Controller {
        if self.stuck || self.busy_polls == 0 {
            self
        } else {
            Controller { busy_polls: (self.busy_polls - 1) as nat, ..self }
        }
    }

    pub open spec fn with_lock(self) -> Controller {
        Controller {
            locked: true,
            key_stage: if self.key_stage == KeyStage::Frozen {
                KeyStage::Frozen
            } else {
                KeyStage::Idle
            },
            ..self
        }
    }

    /// The controller after `key` was written to the key register.
    pub open spec fn with_key(self, key: u32) -> Controller {
        if !self.locked || self.key_stage == KeyStage::Frozen {
            self
        } else if self.key_stage == KeyStage::Idle && key == KEY_1 {
            Controller { key_stage: KeyStage::FirstKey, ..self }
        } else if self.key_stage == KeyStage::FirstKey && key == KEY_2 {
            Controller { locked: false, key_stage: KeyStage::Idle, ..self }
        } else {
            Controller { key_stage: KeyStage::Frozen, ..self }
        }
    }

    pub open spec fn with_erase_request(self, on: bool) -> Controller {
        Controller { erase_request: on, ..self }
    }

    pub open spec fn with_program_request(self, on: bool) -> Controller {
        Controller { program_request: on, ..self }
    }

    pub open spec fn with_erase_select(self, select: EraseSelect) -> Controller {
        Controller { erase_select: select, ..self }
    }

    /// Whether the array holds `len` bytes from `address` on.
    pub open spec fn covers(self, address: int, len: int) -> bool {
        self.base <= address && address + len <= self.base + self.memory.len()
    }

    /// The byte at `address`; outside the array, the erased pattern.
    pub open spec fn byte_at(self, address: int) -> u8 {
        if self.covers(address, 1) {
            self.memory[address - self.base]
        } else {
            ERASED
        }
    }

    /// The `len` bytes from `address` on.
    pub open spec fn bytes_at(self, address: int, len: nat) -> Seq<u8> {
        Seq::new(len, |i: int| self.byte_at(address + i))
    }

    /// The controller after `chunk` was stored at `address`. The store takes
    /// effect where the controller is unlocked, programming is requested and
    /// the array covers the chunk; otherwise nothing changes.
    pub open spec fn programmed(self, address: u32, chunk: Seq<u8>) -> Controller {
        if !self.locked && self.program_request && self.covers(address as int, chunk.len() as int) {
            Controller {
                memory: Seq::new(
                    self.memory.len(),
                    |i: int|
                        if address - self.base <= i < address - self.base + chunk.len() {
                            chunk[i - (address - self.base)]
                        } else {
                            self.memory[i]
                        },
                ),
                busy_polls: self.latency,
                ..self
            }
        } else {
            self
        }
    }

    /// Offset into the array of the selected page's first byte.
    pub open spec fn selected_offset(self) -> int {
        match self.erase_select {
            EraseSelect::Unset => -1,
            EraseSelect::Address(a) => if a >= self.base && self.page_size > 0 {
                (a - self.base) - (a - self.base) % (self.page_size as int)
            } else {
                -1
            },
            EraseSelect::Page { second_bank, number } => (number + if second_bank {
                self.bank_pages
            } else {
                0
            }) * self.page_size,
        }
    }

    /// The controller after the start bit was set. The selected page is
    /// erased where the controller is unlocked, an erase is requested and the
    /// array holds that page; otherwise nothing changes.
    pub open spec fn started(self) -> Controller {
        let offset = self.selected_offset();
        if !self.locked && self.erase_request && 0 <= offset && offset + self.page_size
            <= self.memory.len() {
            Controller {
                memory: Seq::new(
                    self.memory.len(),
                    |i: int|
                        if offset <= i < offset + self.page_size {
                            ERASED
                        } else {
                            self.memory[i]
                        },
                ),
                busy_polls: self.latency,
                ..self
            }
        } else {
            self
        }
    }
}

/// Typed access to the control, key and status registers of the flash
/// controller, and to the array behind it. Each method says what it does to
/// the [`Controller`] that the implementor stands for.
///
/// Everything this crate proves of a writer holds for implementors that
/// keep these contracts. [`crate::sim::SimController`] is proved to keep
/// them; for a binding to real registers nothing here shows it.
pub trait RegisterInterface {
    /// The controller behind the interface.
    spec fn model(&self) -> Controller;

    /// Reads the lock bit of the control register.
    fn lock_bit(&mut self) -> (set: bool)
        ensures
            set == old(self).model().locked,
            final(self).model() == old(self).model(),
    ;

    /// Sets the lock bit of the control register.
    fn set_lock(&mut self)
        ensures
            final(self).model() == old(self).model().with_lock(),
    ;

    /// Writes one key to the key register.
    fn write_key(&mut self, key: u32)
        ensures
            final(self).model() == old(self).model().with_key(key),
    ;

    /// Reads the busy flag of the status register.
    fn busy(&mut self) -> (set: bool)
        ensures
            set == old(self).model().is_busy(),
            final(self).model() == old(self).model().polled(),
    ;

    /// Reads the error bits of the status register.
    fn status(&mut self) -> (flags: StatusFlags)
        ensures
            flags == old(self).model().status,
            final(self).model() == old(self).model(),
    ;

    /// Sets or clears the erase-request bit.
    fn set_erase_request(&mut self, on: bool)
        ensures
            final(self).model() == old(self).model().with_erase_request(on),
    ;

    /// Sets or clears the program-request bit.
    fn set_program_request(&mut self, on: bool)
        ensures
            final(self).model() == old(self).model().with_program_request(on),
    ;

    /// Names the page that the next erase acts on.
    fn select_page(&mut self, select: EraseSelect)
        ensures
            final(self).model() == old(self).model().with_erase_select(select),
    ;

    /// Sets the start bit: the selected page is erased.
    fn start(&mut self)
        ensures
            final(self).model() == old(self).model().started(),
    ;

    /// Stores one chunk at `address` in the array.
    fn program(&mut self, address: u32, chunk: &[u8])
        ensures
            final(self).model() == old(self).model().programmed(address, chunk@),
    ;

    /// Reads one byte of the array.
    fn read(&self, address: u32) -> (byte: u8)
        ensures
            byte == self.model().byte_at(address as int),
    ;
}

} // verus!
