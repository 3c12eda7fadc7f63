use vstd::prelude::*;
use core::ops::Range;
use crate::chunking::{
    append_from, carried, full_chunks, pad_to, padded, remainder, taken, write_chunks,
};
use crate::config::{bank_pair_kb, check_range, flash_size_bytes, FlashConfig};
use crate::controller::{Controller, EraseSelect, RegisterInterface, KEY_1, KEY_2};
use crate::error::FlashWriterError;
use crate::poller::{after_wait, check_bsy_sram, wait_result};

verus! {

/// A controller together with the outcome of the operation that left it so.
pub struct Step {
    pub controller: Controller,
    pub result: Result<(), FlashWriterError>,
}

/// A [`Step`] of a writer: the write cursor comes with it.
pub struct Run {
    pub controller: Controller,
    pub cursor: u32,
    pub result: Result<(), FlashWriterError>,
}

/// The controller after an attempt to unlock it: untouched where it was
/// unlocked, else waited for and, where the wait succeeded, given both keys.
#[verifier::opaque]
pub open spec fn after_unlock(c: Controller, extended: bool) -> Controller {
    if !c.locked {
        c
    } else if wait_result(c, extended) is Err {
        after_wait(c)
    } else {
        after_wait(c).with_key(KEY_1).with_key(KEY_2)
    }
}

/// What an attempt to unlock `c` returns.
#[verifier::opaque]
pub open spec fn unlock_result(c: Controller, extended: bool) -> Result<(), FlashWriterError> {
    if !c.locked {
        Ok(())
    } else if wait_result(c, extended) is Err {
        wait_result(c, extended)
    } else if after_unlock(c, extended).locked {
        Err(FlashWriterError::FlashLocked)
    } else {
        Ok(())
    }
}

/// Programming one chunk: request, store, wait, and on success withdraw the
/// request.
pub open spec fn program_one(c: Controller, address: u32, chunk: Seq<u8>, extended: bool) -> Step {
    let stored = c.with_program_request(true).programmed(address, chunk);
    let result = wait_result(stored, extended);
    Step {
        controller: if result is Ok {
            after_wait(stored).with_program_request(false)
        } else {
            after_wait(stored)
        },
        result,
    }
}

/// Programming one chunk at `cursor` in a region that ends at `end`, and
/// moving the cursor behind it. Where the cursor cannot advance by `size`
/// the chunk was programmed all the same, and the region is full.
#[verifier::opaque]
pub open spec fn program_step(
    c: Controller,
    cursor: u32,
    end: u32,
    size: u32,
    extended: bool,
    chunk: Seq<u8>,
) -> Run {
    let step = program_one(c, cursor, chunk, extended);
    if step.result is Err {
        Run { controller: step.controller, cursor, result: step.result }
    } else if end - cursor < size {
        Run {
            controller: step.controller,
            cursor,
            result: Err(FlashWriterError::OutOfFlashWriterMemory),
        }
    } else {
        Run { controller: step.controller, cursor: (cursor + size) as u32, result: Ok(()) }
    }
}

/// Programming `chunks` one after the other from `cursor` on. The first
/// chunk that fails ends the run, and so does the first after which the
/// cursor cannot advance.
pub open spec fn program_all(
    c: Controller,
    cursor: u32,
    end: u32,
    size: u32,
    extended: bool,
    chunks: Seq<Seq<u8>>,
) -> Run
    decreases chunks.len(),
{
    if chunks.len() == 0 {
        Run { controller: c, cursor, result: Ok(()) }
    } else {
        let first = program_step(c, cursor, end, size, extended, chunks[0]);
        if first.result is Err {
            first
        } else {
            program_all(first.controller, first.cursor, end, size, extended, chunks.skip(1))
        }
    }
}

/// The page that holds `address`, as the device wants it named.
pub open spec fn page_select(address: u32, config: FlashConfig) -> EraseSelect {
    match config.bank_threshold() {
        None => EraseSelect::Address(address),
        Some(threshold) => {
            let page = (address - config.base_address) / (config.page_size as int);
            if page > threshold {
                EraseSelect::Page { second_bank: true, number: (page - threshold) as u32 }
            } else {
                EraseSelect::Page { second_bank: false, number: page as u32 }
            }
        },
    }
}

/// Erasing the page at `address`: request, select, start, wait, and on
/// success withdraw the request.
pub open spec fn erase_one(c: Controller, address: u32, config: FlashConfig) -> Step {
    let begun = c.with_erase_request(true).with_erase_select(
        page_select(address, config),
    ).started();
    let result = wait_result(begun, config.extended_errors);
    Step {
        controller: if result is Ok {
            after_wait(begun).with_erase_request(false)
        } else {
            after_wait(begun)
        },
        result,
    }
}

/// Erasing page after page from `address` up to `end`. The first page that
/// fails ends the run; the pages behind it are not touched.
pub open spec fn erase_pages(c: Controller, address: u32, end: u32, config: FlashConfig) -> Step
    decreases end - address,
{
    if address >= end {
        Step { controller: c, result: Ok(()) }
    } else {
        let step = erase_one(c, address, config);
        if step.result is Err || config.page_size < 1 || end - address <= config.page_size {
            step
        } else {
            erase_pages(step.controller, (address + config.page_size) as u32, end, config)
        }
    }
}

/// Reads the byte at `addr`, whatever the address.
pub fn flash_read<R: RegisterInterface>(regs: &R, addr: u32) -> (byte: u8)
    ensures
        byte == regs.model().byte_at(addr as int),
{
    regs.read(addr)
}

/// Reads `len_to_read` bytes from `addr` on, whatever the addresses.
pub fn flash_read_slice<R: RegisterInterface>(regs: &R, addr: u32, len_to_read: usize) -> (bytes:
    Vec<u8>)
    requires
        addr + len_to_read <= u32::MAX + 1,
    ensures
        bytes@ == regs.model().bytes_at(addr as int, len_to_read as nat),
{
    let mut bytes: Vec<u8> = Vec::new();
    let mut i: usize = 0;
    while i < len_to_read
        invariant
            i <= len_to_read,
            addr + len_to_read <= u32::MAX + 1,
            bytes@ == regs.model().bytes_at(addr as int, i as nat),
        decreases len_to_read - i,
    {
        bytes.push(regs.read(addr + i as u32));
        i += 1;
        assert(bytes@ =~= regs.model().bytes_at(addr as int, i as nat));
    }
    bytes
}

/// Waits for the controller and programs one chunk at `address`.
pub fn write_sram<R: RegisterInterface>(
    regs: &mut R,
    address: u32,
    data: &[u8],
    extended: bool,
) -> (result: Result<(), FlashWriterError>)
    ensures
        result == program_one(old(regs).model(), address, data@, extended).result,
        final(regs).model() == program_one(old(regs).model(), address, data@, extended).controller,
{
    regs.set_program_request(true);
    regs.program(address, data);
    match check_bsy_sram(regs, extended) {
        Err(e) => Err(e),
        Ok(_) => {
            regs.set_program_request(false);
            Ok(())
        },
    }
}

/// A programming session over one region of the flash array.
pub struct FlashWriter {
    config: FlashConfig,
    bank_change_on_page_num: Option<u32>,
    start_address: u32,
    end_address: u32,
    next_write_address: u32,
    image_len: usize,
    buffer: Vec<u8>,
}

impl FlashWriter {
    pub closed spec fn config(&self) -> FlashConfig {
        self.config
    }

    pub closed spec fn start(&self) -> u32 {
        self.start_address
    }

    pub closed spec fn end(&self) -> u32 {
        self.end_address
    }

    /// Where the next chunk goes.
    pub closed spec fn cursor(&self) -> u32 {
        self.next_write_address
    }

    /// Bytes accepted by `write` so far.
    pub closed spec fn accepted(&self) -> usize {
        self.image_len
    }

    /// The bytes that wait for a chunk to fill up.
    pub closed spec fn pending(&self) -> Seq<u8> {
        self.buffer@
    }

    /// The cursor lies in the region, the region in the device, and less than
    /// one chunk is pending.
    pub closed spec fn wf(&self) -> bool {
        &&& self.config.wf()
        &&& self.config.holds(self.start_address, self.end_address)
        &&& self.bank_change_on_page_num == self.config.bank_threshold()
        &&& self.start_address <= self.next_write_address <= self.end_address
        &&& self.buffer@.len() < self.config.program_size
    }

    /// Whether `other` works on the same region of the same device.
    pub open spec fn same_region(&self, other: &FlashWriter) -> bool {
        &&& self.config() == other.config()
        &&& self.start() == other.start()
        &&& self.end() == other.end()
    }

    /// A writer for the region `range` of the device that `config` describes.
    pub fn new(range: Range<u32>, config: FlashConfig) -> (made: Result<FlashWriter, FlashWriterError>)
        requires
            config.wf(),
        ensures
            config.holds(range.start, range.end) <==> made is Ok,
            made matches Err(e) ==> e == FlashWriterError::InvalidRange,
            made matches Ok(w) ==> {
                &&& w.wf()
                &&& w.config() == config
                &&& w.start() == range.start
                &&& w.end() == range.end
                &&& w.cursor() == range.start
                &&& w.accepted() == 0
                &&& w.pending() == Seq::<u8>::empty()
            },
    {
        let last: u32 = config.base_address + flash_size_bytes(config.flash_size_kb);
        if range.start <= range.end && check_range(
            config.base_address,
            last,
            range.start,
            range.end,
        ) {
            let threshold: Option<u32> = if config.dual_bank {
                let pair: u64 = (config.page_size as u64 * 2) / 1024;
                assert(pair == bank_pair_kb(config.page_size));
                assert(config.flash_size_kb as int / (pair as int) >= 1) by (nonlinear_arith)
                    requires
                        1 <= pair <= config.flash_size_kb,
                ;
                let pages: u64 = config.flash_size_kb as u64 / pair - 1;
                Some(pages as u32)
            } else {
                None
            };
            Ok(
                FlashWriter {
                    config,
                    bank_change_on_page_num: threshold,
                    start_address: range.start,
                    end_address: range.end,
                    next_write_address: range.start,
                    image_len: 0usize,
                    buffer: Vec::new(),
                },
            )
        } else {
            Err(FlashWriterError::InvalidRange)
        }
    }

    pub fn get_start_address(&mut self) -> (address: u32)
        ensures
            address == old(self).start(),
            *final(self) == *old(self),
    {
        self.start_address
    }

    /// Where the next chunk goes.
    pub fn get_next_write_address(&self) -> (address: u32)
        ensures
            address == self.cursor(),
    {
        self.next_write_address
    }

    /// Bytes accepted by `write` so far.
    pub fn get_image_len(&self) -> (len: usize)
        ensures
            len == self.accepted(),
    {
        self.image_len
    }

    /// Sets the lock bit. Nothing can go wrong, however often it is done.
    pub fn lock<R: RegisterInterface>(&self, regs: &mut R)
        ensures
            final(regs).model() == old(regs).model().with_lock(),
            final(regs).model().locked,
    {
        regs.set_lock();
    }

    /// Unlocks the controller where it is locked: waits until it is ready,
    /// writes both keys, and reads the lock bit again.
    pub fn unlock<R: RegisterInterface>(&self, regs: &mut R) -> (result: Result<
        (),
        FlashWriterError,
    >)
        ensures
            result == unlock_result(old(regs).model(), self.config().extended_errors),
            final(regs).model() == after_unlock(old(regs).model(), self.config().extended_errors),
            result is Ok ==> !final(regs).model().locked,
    {
        reveal(after_unlock);
        reveal(unlock_result);
        if !regs.lock_bit() {
            return Ok(());
        }
        match check_bsy_sram(regs, self.config.extended_errors) {
            Err(e) => Err(e),
            Ok(_) => {
                if regs.lock_bit() {
                    regs.write_key(KEY_1);
                    regs.write_key(KEY_2);
                }
                if regs.lock_bit() {
                    Err(FlashWriterError::FlashLocked)
                } else {
                    Ok(())
                }
            },
        }
    }

    /// Erases every page of the region, first to last, and locks the
    /// controller where all of them succeeded. A page that fails ends the
    /// call with its error: the pages behind it keep what they held, and the
    /// controller stays unlocked.
    pub fn erase<R: RegisterInterface>(&mut self, regs: &mut R) -> (result: Result<
        (),
        FlashWriterError,
    >)
        requires
            old(self).wf(),
        ensures
            *final(self) == *old(self),
            ({
                let config = old(self).config();
                let unlocked = after_unlock(old(regs).model(), config.extended_errors);
                let unlocking = unlock_result(old(regs).model(), config.extended_errors);
                let run = erase_pages(
                    unlocked,
                    old(self).start(),
                    old(self).end(),
                    config,
                );
                if unlocking is Err {
                    result == unlocking && final(regs).model() == unlocked
                } else if run.result is Err {
                    result == run.result && final(regs).model() == run.controller
                } else {
                    result is Ok && final(regs).model() == run.controller.with_lock()
                }
            }),
    {
        match self.unlock(regs) {
            Err(e) => Err(e),
            Ok(_) => match erase_sram(self, regs) {
                Err(e) => Err(e),
                Ok(_) => {
                    self.lock(regs);
                    Ok(())
                },
            },
        }
    }

    /// Programs one chunk at the cursor and moves the cursor behind it.
    fn program_next<R: RegisterInterface>(&mut self, regs: &mut R, chunk: &[u8]) -> (result: Result<
        (),
        FlashWriterError,
    >)
        requires
            old(self).wf(),
        ensures
            final(self).wf(),
            final(self).same_region(old(self)),
            final(self).accepted() == old(self).accepted(),
            final(self).pending() == old(self).pending(),
            (Run { controller: final(regs).model(), cursor: final(self).cursor(), result })
                == program_step(
                old(regs).model(),
                old(self).cursor(),
                old(self).end(),
                old(self).config().program_size,
                old(self).config().extended_errors,
                chunk@,
            ),
    {
        reveal(program_step);
        match write_sram(regs, self.next_write_address, chunk, self.config.extended_errors) {
            Ok(_) => {
                if self.end_address - self.next_write_address >= self.config.program_size {
                    self.next_write_address += self.config.program_size;
                    Ok(())
                } else {
                    Err(FlashWriterError::OutOfFlashWriterMemory)
                }
            },
            Err(e) => Err(e),
        }
    }

    /// The chunk that the pending bytes begin: they come first, then as many
    /// bytes of `data` as fill the chunk, then the erased pattern where
    /// `data` is too short. Returns the chunk and the bytes taken from `data`.
    fn staged(&self, data: &[u8]) -> (made: (Vec<u8>, usize))
        requires
            self.wf(),
            self.pending().len() > 0,
        ensures
            made.1 == taken(self.pending(), data@, self.config().program_size as nat),
            made.0@ == padded(
                self.pending() + data@.take(made.1 as int),
                self.config().program_size as nat,
            ),
    {
        let program_size: usize = self.config.program_size as usize;
        let need: usize = program_size - self.buffer.len();
        let take: usize = if data.len() >= need {
            need
        } else {
            data.len()
        };
        let mut chunk: Vec<u8> = Vec::new();
        append_from(&mut chunk, self.buffer.as_slice(), 0, self.buffer.len());
        append_from(&mut chunk, data, 0, take);
        proof {
            assert(self.buffer@.subrange(0, self.buffer@.len() as int) =~= self.buffer@);
            assert(data@.subrange(0, take as int) =~= data@.take(take as int));
            assert(Seq::<u8>::empty() + self.buffer@ =~= self.buffer@);
        }
        pad_to(&mut chunk, program_size);
        (chunk, take)
    }

    /// Accepts `data_input` and programs what fills whole chunks, the bytes
    /// left over by earlier writes first. What does not fill a chunk waits
    /// for the next write or for `flush`. The controller is unlocked at
    /// entry and locked on success. Where unlocking fails nothing is
    /// accepted; the first chunk that fails ends the call, with the bytes
    /// counted, the chunks before it programmed and the controller left
    /// unlocked.
    pub fn write<R: RegisterInterface>(&mut self, regs: &mut R, data_input: &[u8]) -> (result:
        Result<(), FlashWriterError>)
        requires
            old(self).wf(),
            old(self).accepted() + data_input@.len() <= usize::MAX,
        ensures
            final(self).wf(),
            final(self).same_region(old(self)),
            ({
                let config = old(self).config();
                let unlocking = unlock_result(old(regs).model(), config.extended_errors);
                let unlocked = after_unlock(old(regs).model(), config.extended_errors);
                let run = program_all(
                    unlocked,
                    old(self).cursor(),
                    old(self).end(),
                    config.program_size,
                    config.extended_errors,
                    write_chunks(old(self).pending(), data_input@, config.program_size as nat),
                );
                if unlocking is Err {
                    &&& result == unlocking
                    &&& final(regs).model() == unlocked
                    &&& final(self).cursor() == old(self).cursor()
                    &&& final(self).accepted() == old(self).accepted()
                    &&& final(self).pending() == old(self).pending()
                } else {
                    &&& result == run.result
                    &&& final(self).cursor() == run.cursor
                    &&& final(self).accepted() == old(self).accepted() + data_input@.len()
                    &&& final(self).pending() == if run.result is Ok {
                        carried(old(self).pending(), data_input@, config.program_size as nat)
                    } else {
                        Seq::<u8>::empty()
                    }
                    &&& final(regs).model() == if run.result is Ok {
                        run.controller.with_lock()
                    } else {
                        run.controller
                    }
                }
            }),
    {
        match self.unlock(regs) {
            Err(e) => {
                return Err(e);
            },
            Ok(_) => {},
        }
        let ghost size = self.config.program_size;
        let ghost extended = self.config.extended_errors;
        let ghost target = program_all(
            regs.model(),
            self.next_write_address,
            self.end_address,
            size,
            extended,
            write_chunks(self.buffer@, data_input@, size as nat),
        );
        let ghost rest = carried(self.buffer@, data_input@, size as nat);
        self.image_len += data_input.len();
        let program_size: usize = self.config.program_size as usize;
        let mut pos: usize = 0;
        if self.buffer.len() != 0 {
            let (chunk, take) = self.staged(data_input);
            proof {
                let chunks = write_chunks(self.buffer@, data_input@, size as nat);
                assert(chunks[0] == chunk@);
                assert(chunks.skip(1) =~= full_chunks(
                    data_input@.skip(take as int),
                    size as nat,
                ));
            }
            self.buffer.clear();
            match self.program_next(regs, chunk.as_slice()) {
                Err(e) => {
                    return Err(e);
                },
                Ok(_) => {},
            }
            pos = take;
        }
        proof {
            assert(data_input@.skip(0) =~= data_input@);
        }
        while data_input.len() - pos >= program_size
            invariant
                self.wf(),
                self.same_region(old(self)),
                size == self.config.program_size,
                extended == self.config.extended_errors,
                program_size == size,
                pos <= data_input@.len(),
                self.buffer@.len() == 0,
                self.image_len == old(self).image_len + data_input@.len(),
                unlock_result(old(regs).model(), extended) is Ok,
                rest == carried(old(self).pending(), data_input@, size as nat),
                target == program_all(
                    after_unlock(old(regs).model(), extended),
                    old(self).cursor(),
                    old(self).end(),
                    size,
                    extended,
                    write_chunks(old(self).pending(), data_input@, size as nat),
                ),
                rest == remainder(data_input@.skip(pos as int), size as nat),
                target == program_all(
                    regs.model(),
                    self.next_write_address,
                    self.end_address,
                    size,
                    extended,
                    full_chunks(data_input@.skip(pos as int), size as nat),
                ),
            decreases data_input@.len() - pos,
        {
            let mut chunk: Vec<u8> = Vec::new();
            append_from(&mut chunk, data_input, pos, pos + program_size);
            proof {
                let here = data_input@.skip(pos as int);
                let chunks = full_chunks(here, size as nat);
                assert(chunk@ =~= here.take(size as int));
                assert(here.skip(size as int) =~= data_input@.skip(pos + size));
                assert(chunks[0] == chunk@);
                assert(chunks.skip(1) =~= full_chunks(data_input@.skip(pos + size), size as nat));
            }
            match self.program_next(regs, chunk.as_slice()) {
                Err(e) => {
                    return Err(e);
                },
                Ok(_) => {},
            }
            pos += program_size;
        }
        proof {
            assert(data_input@.subrange(pos as int, data_input@.len() as int) =~= data_input@.skip(
                pos as int,
            ));
        }
        append_from(&mut self.buffer, data_input, pos, data_input.len());
        proof {
            assert(self.buffer@ =~= data_input@.skip(pos as int));
        }
        self.lock(regs);
        Ok(())
    }

    /// Programs what is pending as one last chunk, filled up with the erased
    /// pattern, where that chunk still fits into the region. With nothing
    /// pending it only sets the lock bit.
    pub fn flush<R: RegisterInterface>(&mut self, regs: &mut R) -> (result: Result<
        (),
        FlashWriterError,
    >)
        requires
            old(self).wf(),
        ensures
            final(self).wf(),
            final(self).same_region(old(self)),
            final(self).accepted() == old(self).accepted(),
            ({
                let config = old(self).config();
                let unlocking = unlock_result(old(regs).model(), config.extended_errors);
                let unlocked = after_unlock(old(regs).model(), config.extended_errors);
                let step = program_one(
                    unlocked,
                    old(self).cursor(),
                    padded(old(self).pending(), config.program_size as nat),
                    config.extended_errors,
                );
                let kept = final(self).cursor() == old(self).cursor() && final(self).pending()
                    == old(self).pending();
                if old(self).pending().len() == 0 {
                    result is Ok && kept && final(regs).model() == old(regs).model().with_lock()
                } else if unlocking is Err {
                    result == unlocking && kept && final(regs).model() == unlocked
                } else if old(self).end() - old(self).cursor() < config.program_size {
                    &&& result == Err::<(), FlashWriterError>(
                        FlashWriterError::OutOfFlashWriterMemory,
                    )
                    &&& kept
                    &&& final(regs).model() == unlocked
                } else if step.result is Err {
                    result == step.result && kept && final(regs).model() == step.controller
                } else {
                    &&& result is Ok
                    &&& final(self).cursor() == old(self).cursor() + config.program_size
                    &&& final(self).pending() == Seq::<u8>::empty()
                    &&& final(regs).model() == step.controller.with_lock()
                }
            }),
    {
        if self.buffer.len() == 0 {
            self.lock(regs);
            return Ok(());
        }
        match self.unlock(regs) {
            Err(e) => {
                return Err(e);
            },
            Ok(_) => {},
        }
        if self.end_address - self.next_write_address < self.config.program_size {
            return Err(FlashWriterError::OutOfFlashWriterMemory);
        }
        let mut chunk: Vec<u8> = Vec::new();
        append_from(&mut chunk, self.buffer.as_slice(), 0, self.buffer.len());
        pad_to(&mut chunk, self.config.program_size as usize);
        proof {
            assert(self.buffer@.subrange(0, self.buffer@.len() as int) =~= self.buffer@);
            assert(Seq::<u8>::empty() + self.buffer@ =~= self.buffer@);
        }
        match write_sram(regs, self.next_write_address, chunk.as_slice(), self.config.extended_errors) {
            Err(e) => Err(e),
            Ok(_) => {
                self.buffer.clear();
                self.next_write_address += self.config.program_size;
                self.lock(regs);
                Ok(())
            },
        }
    }
}

/// Erases the pages of the writer's region one after the other.
pub fn erase_sram<R: RegisterInterface>(flash_writer: &FlashWriter, regs: &mut R) -> (result: Result<
    (),
    FlashWriterError,
>)
    requires
        flash_writer.wf(),
    ensures
        result == erase_pages(
            old(regs).model(),
            flash_writer.start(),
            flash_writer.end(),
            flash_writer.config(),
        ).result,
        final(regs).model() == erase_pages(
            old(regs).model(),
            flash_writer.start(),
            flash_writer.end(),
            flash_writer.config(),
        ).controller,
{
    let config = flash_writer.config;
    let end: u32 = flash_writer.end_address;
    let mut addr: u32 = flash_writer.start_address;
    if addr >= end {
        return Ok(());
    }
    let ghost whole = erase_pages(regs.model(), addr, end, config);
    loop
        invariant
            flash_writer.wf(),
            config == flash_writer.config(),
            flash_writer.start() <= addr < end,
            end == flash_writer.end(),
            whole == erase_pages(
                old(regs).model(),
                flash_writer.start(),
                flash_writer.end(),
                flash_writer.config(),
            ),
            whole == erase_pages(regs.model(), addr, end, config),
        decreases end - addr,
    {
        regs.set_erase_request(true);
        let select = match flash_writer.bank_change_on_page_num {
            None => EraseSelect::Address(addr),
            Some(threshold) => {
                let page: u32 = (addr - config.base_address) / config.page_size;
                if page > threshold {
                    EraseSelect::Page { second_bank: true, number: page - threshold }
                } else {
                    EraseSelect::Page { second_bank: false, number: page }
                }
            },
        };
        assert(select == page_select(addr, config));
        regs.select_page(select);
        regs.start();
        match check_bsy_sram(regs, config.extended_errors) {
            Err(e) => {
                return Err(e);
            },
            Ok(_) => {
                regs.set_erase_request(false);
            },
        }
        if end - addr <= config.page_size {
            return Ok(());
        }
        addr += config.page_size;
    }
}

} // verus!
