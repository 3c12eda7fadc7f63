use vstd::prelude::*;
use crate::controller::{Controller, EraseSelect, KeyStage, RegisterInterface, ERASED, KEY_1, KEY_2};
use crate::status::StatusFlags;

verus! {

/// A flash controller in software: registers and array are plain fields,
/// so that a caller can put it into any state and look at what was done.
pub struct SimController {
    pub locked: bool,
    pub key_stage: KeyStage,
    pub busy_polls: u32,
    pub stuck: bool,
    pub latency: u32,
    pub status: StatusFlags,
    pub erase_request: bool,
    pub program_request: bool,
    pub erase_select: EraseSelect,
    pub base: u32,
    pub page_size: u32,
    pub bank_pages: u32,
    pub memory: Vec<u8>,
}

impl SimController {
    /// A locked, idle controller over an array of `size` bytes at `base`,
    /// each of them `fill`.
    pub fn new(base: u32, page_size: u32, bank_pages: u32, size: usize, fill: u8) -> (made:
        SimController)
        ensures
            made.model().locked,
            made.model().key_stage == KeyStage::Idle,
            !made.model().is_busy(),
            made.model().latency == 0,
            made.model().status == StatusFlags::no_errors(),
            !made.model().erase_request,
            !made.model().program_request,
            made.model().erase_select == EraseSelect::Unset,
            made.model().base == base,
            made.model().page_size == page_size,
            made.model().bank_pages == bank_pages,
            made.model().memory == Seq::new(size as nat, |i: int| fill),
    {
        let mut memory: Vec<u8> = Vec::new();
        while memory.len() < size
            invariant
                memory@.len() <= size,
                memory@ == Seq::new(memory@.len(), |i: int| fill),
            decreases size - memory@.len(),
        {
            memory.push(fill);
            assert(memory@ =~= Seq::new(memory@.len(), |i: int| fill));
        }
        SimController {
            locked: true,
            key_stage: KeyStage::Idle,
            busy_polls: 0,
            stuck: false,
            latency: 0,
            status: StatusFlags::clear(),
            erase_request: false,
            program_request: false,
            erase_select: EraseSelect::Unset,
            base,
            page_size,
            bank_pages,
            memory,
        }
    }

    /// Offset into the array of the selected page, where it has one.
    fn selected_offset(&self) -> (offset: Option<usize>)
        ensures
            match offset {
                Some(o) => o == self.model().selected_offset() && o + self.page_size
                    <= self.memory@.len(),
                None => !(0 <= self.model().selected_offset() && self.model().selected_offset()
                    + self.page_size <= self.memory@.len()),
            },
    {
        let len: u128 = self.memory.len() as u128;
        let page: u128 = self.page_size as u128;
        let offset: u128 = match self.erase_select {
            EraseSelect::Unset => {
                return None;
            },
            EraseSelect::Address(a) => {
                if a >= self.base && self.page_size > 0 {
                    let d: u32 = a - self.base;
                    let within: u32 = d % self.page_size;
                    assert(within <= d) by (nonlinear_arith)
                        requires
                            within == d % self.page_size,
                            self.page_size > 0,
                    ;
                    (d - within) as u128
                } else {
                    return None;
                }
            },
            EraseSelect::Page { second_bank, number } => {
                let first: u128 = number as u128 + if second_bank {
                    self.bank_pages as u128
                } else {
                    0u128
                };
                assert(first * page <= 0x2_0000_0000 * 0x1_0000_0000) by (nonlinear_arith)
                    requires
                        0 <= first <= 0x2_0000_0000,
                        0 <= page <= 0x1_0000_0000,
                ;
                first * page
            },
        };
        if offset <= len && page <= len - offset {
            Some(offset as usize)
        } else {
            None
        }
    }
}

impl RegisterInterface for SimController {
    open spec fn model(&self) -> Controller {
        Controller {
            locked: self.locked,
            key_stage: self.key_stage,
            busy_polls: self.busy_polls as nat,
            stuck: self.stuck,
            latency: self.latency as nat,
            status: self.status,
            erase_request: self.erase_request,
            program_request: self.program_request,
            erase_select: self.erase_select,
            base: self.base as nat,
            page_size: self.page_size as nat,
            bank_pages: self.bank_pages as nat,
            memory: self.memory@,
        }
    }

    fn lock_bit(&mut self) -> (set: bool) {
        self.locked
    }

    fn set_lock(&mut self) {
        self.locked = true;
        if self.key_stage != KeyStage::Frozen {
            self.key_stage = KeyStage::Idle;
        }
    }

    fn write_key(&mut self, key: u32) {
        if !self.locked || self.key_stage == KeyStage::Frozen {
        } else if self.key_stage == KeyStage::Idle && key == KEY_1 {
            self.key_stage = KeyStage::FirstKey;
        } else if self.key_stage == KeyStage::FirstKey && key == KEY_2 {
            self.locked = false;
            self.key_stage = KeyStage::Idle;
        } else {
            self.key_stage = KeyStage::Frozen;
        }
    }

    fn busy(&mut self) -> (set: bool) {
        let set = self.stuck || self.busy_polls > 0;
        if !self.stuck && self.busy_polls > 0 {
            self.busy_polls -= 1;
        }
        set
    }

    fn status(&mut self) -> (flags: StatusFlags) {
        self.status
    }

    fn set_erase_request(&mut self, on: bool) {
        self.erase_request = on;
    }

    fn set_program_request(&mut self, on: bool) {
        self.program_request = on;
    }

    fn select_page(&mut self, select: EraseSelect) {
        self.erase_select = select;
    }

    fn start(&mut self) {
        if self.locked || !self.erase_request {
            return ;
        }
        match self.selected_offset() {
            None => {},
            Some(offset) => {
                let page: usize = self.page_size as usize;
                let len: usize = self.memory.len();
                let mut i: usize = 0;
                while i < page
                    invariant
                        i <= page,
                        offset + page <= len,
                        len == self.memory@.len(),
                        self.memory@.len() == old(self).memory@.len(),
                        forall|k: int|
                            0 <= k < self.memory@.len() ==> self.memory@[k] == if offset <= k
                                < offset + i {
                                ERASED
                            } else {
                                old(self).memory@[k]
                            },
                        self.model() == (Controller { memory: self.memory@, ..old(self).model() }),
                    decreases page - i,
                {
                    self.memory.set(offset + i, ERASED);
                    i += 1;
                }
                self.busy_polls = self.latency;
                assert(self.memory@ =~= old(self).model().started().memory);
            },
        }
    }

    fn program(&mut self, address: u32, chunk: &[u8]) {
        if self.locked || !self.program_request || address < self.base {
            return ;
        }
        let offset: u32 = address - self.base;
        if offset as u128 > self.memory.len() as u128 || chunk.len() as u128 > self.memory.len() as u128
            - offset as u128 {
            return ;
        }
        let offset: usize = offset as usize;
        let len: usize = self.memory.len();
        let mut i: usize = 0;
        while i < chunk.len()
            invariant
                i <= chunk@.len(),
                offset + chunk@.len() <= len,
                len == self.memory@.len(),
                self.memory@.len() == old(self).memory@.len(),
                forall|k: int|
                    0 <= k < self.memory@.len() ==> self.memory@[k] == if offset <= k < offset + i {
                        chunk@[k - offset]
                    } else {
                        old(self).memory@[k]
                    },
                self.model() == (Controller { memory: self.memory@, ..old(self).model() }),
            decreases chunk@.len() - i,
        {
            self.memory.set(offset + i, chunk[i]);
            i += 1;
        }
        self.busy_polls = self.latency;
        assert(self.memory@ =~= old(self).model().programmed(address, chunk@).memory);
    }

    fn read(&self, address: u32) -> (byte: u8) {
        if address >= self.base && ((address - self.base) as u128) < self.memory.len() as u128 {
            self.memory[(address - self.base) as usize]
        } else {
            ERASED
        }
    }
}

} // verus!
