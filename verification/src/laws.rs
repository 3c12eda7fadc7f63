use vstd::prelude::*;
use vstd::arithmetic::div_mod::{
    lemma_mod_add_multiples_vanish, lemma_mod_sub_multiples_vanish, lemma_small_mod,
};
use crate::chunking::{carried, flush_chunks, full_chunks, padded, remainder, taken, write_chunks};
use crate::config::FlashConfig;
use crate::controller::{Controller, EraseSelect, KeyStage, ERASED};
use crate::error::FlashWriterError;
use crate::flash::{
    after_unlock, erase_one, erase_pages, page_select, program_all, program_one, program_step,
    unlock_result,
};
use crate::poller::{wait_result, BUSY_RETRIES};
use crate::status::{decoded, StatusFlags};

verus! {

/// Setting the lock bit twice is setting it once, and it leaves the bit set.
pub proof fn lock_is_idempotent(c: Controller)
    ensures
        c.with_lock().locked,
        c.with_lock().with_lock() == c.with_lock(),
{
}

/// The chunks that a write of `data` and a flush behind it hand to the
/// controller, in order.
pub open spec fn flushed_stream(pending: Seq<u8>, data: Seq<u8>, size: nat) -> Seq<Seq<u8>> {
    write_chunks(pending, data, size) + flush_chunks(carried(pending, data, size), size)
}

/// With nothing pending but what `first` leaves over, writing `first` and
/// then `second` and flushing hands over the chunks of `first` followed by
/// what one write of both and a flush hand over behind them.
proof fn split_after_full_chunks(first: Seq<u8>, second: Seq<u8>, size: nat)
    requires
        size >= 1,
    ensures
        full_chunks(first, size) + flushed_stream(remainder(first, size), second, size)
            == flushed_stream(Seq::empty(), first + second, size),
    decreases first.len(),
{
    let both = first + second;
    assert(both.skip(0) =~= both);
    if first.len() >= size {
        let tail = first.skip(size as int);
        assert(both.take(size as int) =~= first.take(size as int));
        assert(both.skip(size as int) =~= tail + second);
        split_after_full_chunks(tail, second, size);
        assert((tail + second).skip(0) =~= tail + second);
        assert(full_chunks(first, size) + flushed_stream(remainder(first, size), second, size)
            =~= seq![first.take(size as int)] + (full_chunks(tail, size) + flushed_stream(
            remainder(tail, size),
            second,
            size,
        )));
        assert(flushed_stream(Seq::empty(), both, size) =~= seq![first.take(size as int)]
            + flushed_stream(Seq::empty(), tail + second, size));
    } else {
        let n = taken(first, second, size) as int;
        assert(full_chunks(first, size) + flushed_stream(first, second, size) =~= flushed_stream(
            first,
            second,
            size,
        ));
        if first.len() == 0 {
            assert(both =~= second);
            assert(second.skip(0) =~= second);
        } else if second.len() >= size - first.len() {
            assert(both.take(size as int) =~= first + second.take(n));
            assert(padded(first + second.take(n), size) =~= first + second.take(n));
            assert(both.skip(size as int) =~= second.skip(n));
        } else {
            assert(second.take(n) =~= second);
            assert(second.skip(n) =~= Seq::<u8>::empty());
            assert(flushed_stream(first, second, size) =~= seq![padded(both, size)]);
            assert(flushed_stream(Seq::empty(), both, size) =~= seq![padded(both, size)]);
        }
    }
}

/// Writing `first`, then `second`, then flushing hands the controller the
/// same chunks in the same order as writing both at once and flushing,
/// wherever the bytes are split: for a writer with nothing pending, and for
/// one whose pending bytes `first` is long enough to complete.
pub proof fn chunking_is_split_independent(
    pending: Seq<u8>,
    first: Seq<u8>,
    second: Seq<u8>,
    size: nat,
)
    requires
        size >= 1,
        pending.len() < size,
        pending.len() == 0 || first.len() >= size - pending.len(),
    ensures
        write_chunks(pending, first, size) + flushed_stream(
            carried(pending, first, size),
            second,
            size,
        ) == flushed_stream(pending, first + second, size),
{
    let both = first + second;
    let n = taken(pending, first, size) as int;
    assert(taken(pending, both, size) == n);
    let tail = first.skip(n);
    assert(both.skip(n) =~= tail + second);
    assert(both.take(n) =~= first.take(n));
    split_after_full_chunks(tail, second, size);
    assert((tail + second).skip(0) =~= tail + second);
    if pending.len() == 0 {
        assert(tail =~= first);
    } else {
        let head = seq![padded(pending + first.take(n), size)];
        assert(write_chunks(pending, first, size) + flushed_stream(
            carried(pending, first, size),
            second,
            size,
        ) =~= head + (full_chunks(tail, size) + flushed_stream(remainder(tail, size), second, size)));
        assert(flushed_stream(pending, both, size) =~= head + flushed_stream(
            Seq::empty(),
            tail + second,
            size,
        ));
    }
}

/// A controller whose busy flag never clears fails every operation that
/// waits for it with a timeout: the wait itself, unlocking a locked
/// controller, programming a chunk and erasing a page.
pub proof fn stuck_controller_times_out(
    c: Controller,
    address: u32,
    chunk: Seq<u8>,
    config: FlashConfig,
)
    requires
        c.stuck,
    ensures
        wait_result(c, config.extended_errors) == Err::<(), FlashWriterError>(
            FlashWriterError::BsyTimeout,
        ),
        c.locked ==> unlock_result(c, config.extended_errors) == Err::<(), FlashWriterError>(
            FlashWriterError::BsyTimeout,
        ),
        program_one(c, address, chunk, config.extended_errors).result == Err::<
            (),
            FlashWriterError,
        >(FlashWriterError::BsyTimeout),
        erase_one(c, address, config).result == Err::<(), FlashWriterError>(
            FlashWriterError::BsyTimeout,
        ),
{
    reveal(unlock_result);
}

/// Of several error bits set at once the one that comes first in the order
/// program, size, alignment, sequence, write-protect, miss, fast-program is
/// reported; a family without the extended bits knows program and
/// write-protect only.
pub proof fn first_error_bit_wins(flags: StatusFlags, extended: bool)
    ensures
        flags.prog_err ==> decoded(flags, extended) == Err::<(), FlashWriterError>(
            FlashWriterError::ProgErr,
        ),
        !flags.prog_err && flags.wrp_err && !extended ==> decoded(flags, extended) == Err::<
            (),
            FlashWriterError,
        >(FlashWriterError::WrpErr),
        !flags.prog_err && !flags.wrp_err && !extended ==> decoded(flags, extended) is Ok,
        extended && !flags.prog_err && flags.size_err ==> decoded(flags, extended) == Err::<
            (),
            FlashWriterError,
        >(FlashWriterError::SizeErr),
        extended && !flags.prog_err && !flags.size_err && flags.pga_err ==> decoded(
            flags,
            extended,
        ) == Err::<(), FlashWriterError>(FlashWriterError::PgaErr),
        extended && !flags.prog_err && !flags.size_err && !flags.pga_err && flags.pgs_err
            ==> decoded(flags, extended) == Err::<(), FlashWriterError>(FlashWriterError::PgsErr),
        extended && !flags.prog_err && !flags.size_err && !flags.pga_err && !flags.pgs_err
            && flags.wrp_err ==> decoded(flags, extended) == Err::<(), FlashWriterError>(
            FlashWriterError::WrpErr,
        ),
        extended && !flags.prog_err && !flags.size_err && !flags.pga_err && !flags.pgs_err
            && !flags.wrp_err && flags.miss_err ==> decoded(flags, extended) == Err::<
            (),
            FlashWriterError,
        >(FlashWriterError::MissErr),
        extended && !flags.prog_err && !flags.size_err && !flags.pga_err && !flags.pgs_err
            && !flags.wrp_err && !flags.miss_err && flags.fast_err ==> decoded(flags, extended)
            == Err::<(), FlashWriterError>(FlashWriterError::FastErr),
        flags == StatusFlags::no_errors() ==> decoded(flags, extended) is Ok,
{
}

/// A controller that takes the keys, finishes every operation within the
/// retries of a wait, and reports no error.
pub open spec fn responsive(c: Controller, extended: bool) -> bool {
    &&& !c.stuck
    &&& c.latency <= BUSY_RETRIES
    &&& c.busy_polls <= BUSY_RETRIES
    &&& decoded(c.status, extended) is Ok
    &&& c.key_stage == KeyStage::Idle
}

/// The bytes of `chunks`, one chunk after the other.
pub open spec fn flat(chunks: Seq<Seq<u8>>) -> Seq<u8>
    decreases chunks.len(),
{
    if chunks.len() == 0 {
        Seq::empty()
    } else {
        chunks[0] + flat(chunks.skip(1))
    }
}

/// The full chunks of `data` have the chunk size each, and followed by the
/// remainder they are `data`.
pub proof fn chunks_partition_the_data(data: Seq<u8>, size: nat)
    requires
        size >= 1,
    ensures
        flat(full_chunks(data, size)) + remainder(data, size) == data,
        remainder(data, size).len() < size,
        forall|i: int|
            0 <= i < full_chunks(data, size).len() ==> (#[trigger] full_chunks(data, size)[i]).len()
                == size,
    decreases data.len(),
{
    if data.len() >= size {
        let tail = data.skip(size as int);
        chunks_partition_the_data(tail, size);
        let chunks = full_chunks(data, size);
        assert(chunks.skip(1) =~= full_chunks(tail, size));
        assert(chunks[0] == data.take(size as int));
        assert forall|i: int| 0 <= i < chunks.len() implies (#[trigger] chunks[i]).len()
            == size by {
            if i > 0 {
                assert(chunks[i] == full_chunks(tail, size)[i - 1]);
            }
        }
        assert(flat(chunks) + remainder(data, size) =~= data.take(size as int) + (flat(
            full_chunks(tail, size),
        ) + remainder(tail, size)));
        assert(data.take(size as int) + tail =~= data);
    } else {
        assert(flat(full_chunks(data, size)) + remainder(data, size) =~= data);
    }
}

/// A responsive controller unlocks, and unlocking leaves the array alone.
pub proof fn responsive_controller_unlocks(c: Controller, extended: bool)
    requires
        responsive(c, extended),
    ensures
        unlock_result(c, extended) is Ok,
        responsive(after_unlock(c, extended), extended),
        !after_unlock(c, extended).locked,
        after_unlock(c, extended).memory == c.memory,
        after_unlock(c, extended).base == c.base,
{
    reveal(unlock_result);
    reveal(after_unlock);
}

/// On a responsive, unlocked controller a chunk that the array covers is
/// programmed: the array then holds it, and every other byte is as before.
pub proof fn programmed_chunk_reads_back(
    c: Controller,
    address: u32,
    chunk: Seq<u8>,
    extended: bool,
)
    requires
        responsive(c, extended),
        !c.locked,
        c.covers(address as int, chunk.len() as int),
    ensures
        ({
            let step = program_one(c, address, chunk, extended);
            &&& step.result is Ok
            &&& responsive(step.controller, extended)
            &&& !step.controller.locked
            &&& step.controller.base == c.base
            &&& step.controller.memory.len() == c.memory.len()
            &&& step.controller.bytes_at(address as int, chunk.len()) == chunk
            &&& forall|a: int|
                a < address || a >= address + chunk.len() ==> #[trigger] step.controller.byte_at(a)
                    == c.byte_at(a)
        }),
{
    let step = program_one(c, address, chunk, extended);
    assert(step.controller.bytes_at(address as int, chunk.len()) =~= chunk);
}

/// On a responsive, unlocked controller, chunks of the chunk size that fit
/// into the region and into the array are all programmed: the cursor ends
/// behind them, the array holds them one after the other from where the
/// cursor was, and every other byte is as before.
pub proof fn programmed_chunks_read_back(
    c: Controller,
    cursor: u32,
    end: u32,
    size: u32,
    extended: bool,
    chunks: Seq<Seq<u8>>,
)
    requires
        responsive(c, extended),
        !c.locked,
        size >= 1,
        forall|i: int| 0 <= i < chunks.len() ==> (#[trigger] chunks[i]).len() == size,
        cursor + flat(chunks).len() <= end,
        c.covers(cursor as int, flat(chunks).len() as int),
    ensures
        ({
            let run = program_all(c, cursor, end, size, extended, chunks);
            &&& run.result is Ok
            &&& run.cursor == cursor + flat(chunks).len()
            &&& responsive(run.controller, extended)
            &&& !run.controller.locked
            &&& run.controller.base == c.base
            &&& run.controller.memory.len() == c.memory.len()
            &&& run.controller.bytes_at(cursor as int, flat(chunks).len()) == flat(chunks)
            &&& forall|a: int|
                a < cursor || a >= cursor + flat(chunks).len()
                    ==> #[trigger] run.controller.byte_at(a) == c.byte_at(a)
        }),
    decreases chunks.len(),
{
    if chunks.len() > 0 {
        reveal(program_step);
        let first = program_step(c, cursor, end, size, extended, chunks[0]);
        let rest = chunks.skip(1);
        assert(chunks[0].len() == size);
        assert(flat(chunks).len() == size + flat(rest).len());
        programmed_chunk_reads_back(c, cursor, chunks[0], extended);
        assert(first.result is Ok);
        assert forall|i: int| 0 <= i < rest.len() implies (#[trigger] rest[i]).len() == size by {
            assert(rest[i] == chunks[i + 1]);
        }
        programmed_chunks_read_back(first.controller, first.cursor, end, size, extended, rest);
        let run = program_all(c, cursor, end, size, extended, chunks);
        assert(run == program_all(first.controller, first.cursor, end, size, extended, rest));
        assert forall|i: int| 0 <= i < flat(chunks).len() implies run.controller.byte_at(
            cursor + i,
        ) == flat(chunks)[i] by {
            if i < size {
                assert(first.controller.bytes_at(cursor as int, chunks[0].len())[i]
                    == chunks[0][i]);
            } else {
                assert(run.controller.bytes_at(first.cursor as int, flat(rest).len())[i - size]
                    == flat(rest)[i - size]);
            }
        }
        assert(run.controller.bytes_at(cursor as int, flat(chunks).len()) =~= flat(chunks));
    } else {
        let run = program_all(c, cursor, end, size, extended, chunks);
        assert(run.controller.bytes_at(cursor as int, flat(chunks).len()) =~= flat(chunks));
    }
}

/// What was written reads back. On a responsive controller, a writer with
/// nothing pending whose region lies in the array and has room for `data`
/// in whole chunks programs all of it: the write succeeds with the cursor
/// behind the full chunks, the flush succeeds, and the array then holds
/// `data` from where the cursor was. A write of as many bytes as the region
/// has left, where that is a whole number of chunks, ends with the cursor
/// on the region's end.
pub proof fn written_data_reads_back(
    c: Controller,
    cursor: u32,
    end: u32,
    size: u32,
    extended: bool,
    data: Seq<u8>,
)
    requires
        responsive(c, extended),
        size >= 1,
        cursor <= end,
        c.covers(cursor as int, end - cursor),
        data.len() - remainder(data, size as nat).len() + (if remainder(data, size as nat).len()
            > 0 {
            size as int
        } else {
            0
        }) <= end - cursor,
    ensures
        ({
            let run = program_all(
                after_unlock(c, extended),
                cursor,
                end,
                size,
                extended,
                write_chunks(Seq::empty(), data, size as nat),
            );
            let left = carried(Seq::empty(), data, size as nat);
            let relocked = run.controller.with_lock();
            let last = program_one(
                after_unlock(relocked, extended),
                run.cursor,
                padded(left, size as nat),
                extended,
            );
            let done = if left.len() == 0 {
                relocked.with_lock()
            } else {
                last.controller.with_lock()
            };
            &&& unlock_result(c, extended) is Ok
            &&& run.result is Ok
            &&& run.cursor == cursor + data.len() - left.len()
            &&& left == remainder(data, size as nat)
            &&& unlock_result(relocked, extended) is Ok
            &&& left.len() > 0 ==> end - run.cursor >= size && last.result is Ok
            &&& done.bytes_at(cursor as int, data.len()) == data
        }),
{
    let chunks = write_chunks(Seq::empty(), data, size as nat);
    let left = carried(Seq::empty(), data, size as nat);
    assert(data.skip(0) =~= data);
    chunks_partition_the_data(data, size as nat);
    assert(data.len() == flat(chunks).len() + left.len());
    responsive_controller_unlocks(c, extended);
    let unlocked = after_unlock(c, extended);
    programmed_chunks_read_back(unlocked, cursor, end, size, extended, chunks);
    let run = program_all(unlocked, cursor, end, size, extended, chunks);
    let relocked = run.controller.with_lock();
    responsive_controller_unlocks(relocked, extended);
    let again = after_unlock(relocked, extended);
    let last = program_one(again, run.cursor, padded(left, size as nat), extended);
    let done = if left.len() == 0 {
        relocked.with_lock()
    } else {
        last.controller.with_lock()
    };
    assert forall|a: int| again.byte_at(a) == run.controller.byte_at(a) by {}
    if left.len() > 0 {
        programmed_chunk_reads_back(again, run.cursor, padded(left, size as nat), extended);
    }
    assert forall|i: int| 0 <= i < data.len() implies done.byte_at(cursor + i) == data[i] by {
        if i < flat(chunks).len() {
            assert(run.controller.bytes_at(cursor as int, flat(chunks).len())[i] == flat(
                chunks,
            )[i]);
            if left.len() > 0 {
                assert(last.controller.byte_at(cursor + i) == again.byte_at(cursor + i));
            }
        } else {
            let k = i - flat(chunks).len();
            assert(last.controller.bytes_at(run.cursor as int, padded(left, size as nat).len())[k]
                == padded(left, size as nat)[k]);
        }
    }
    assert(done.bytes_at(cursor as int, data.len()) =~= data);
}

/// A region that is full takes no more. On a responsive controller, a
/// flush of pending bytes that finds less than one chunk of room fails for
/// want of room after unlocking, which leaves the array as it was; and a
/// chunk that a write programs with the cursor less than one chunk before
/// the end ends that write for want of room.
pub proof fn full_region_takes_no_more(
    c: Controller,
    cursor: u32,
    end: u32,
    size: u32,
    extended: bool,
    chunk: Seq<u8>,
)
    requires
        responsive(c, extended),
        cursor <= end,
        end - cursor < size,
    ensures
        unlock_result(c, extended) is Ok,
        after_unlock(c, extended).memory == c.memory,
        program_step(
            after_unlock(c, extended),
            cursor,
            end,
            size,
            extended,
            chunk,
        ).result == Err::<(), FlashWriterError>(FlashWriterError::OutOfFlashWriterMemory),
{
    responsive_controller_unlocks(c, extended);
    reveal(program_step);
    reveal(after_unlock);
}

/// An erased region reads erased. On a responsive, unlocked controller of
/// a single-bank device, erasing a region of whole pages that the array
/// covers succeeds: every byte of the region then holds the erased pattern,
/// and every other byte is as before.
pub proof fn erased_region_reads_erased(c: Controller, address: u32, end: u32, config: FlashConfig)
    requires
        responsive(c, config.extended_errors),
        !c.locked,
        !config.dual_bank,
        config.page_size >= 1,
        c.page_size == config.page_size,
        c.base <= address <= end,
        (address - c.base) % (config.page_size as int) == 0,
        (end - address) % (config.page_size as int) == 0,
        c.covers(address as int, end - address),
    ensures
        ({
            let run = erase_pages(c, address, end, config);
            &&& run.result is Ok
            &&& responsive(run.controller, config.extended_errors)
            &&& !run.controller.locked
            &&& forall|a: int|
                address <= a < end ==> #[trigger] run.controller.byte_at(a) == ERASED
            &&& forall|a: int|
                a < address || a >= end ==> #[trigger] run.controller.byte_at(a) == c.byte_at(a)
        }),
    decreases end - address,
{
    if address < end {
        let page = config.page_size as int;
        if end - address < page {
            lemma_small_mod((end - address) as nat, page as nat);
        }
        assert(page_select(address, config) == EraseSelect::Address(address));
        let begun = c.with_erase_request(true).with_erase_select(
            EraseSelect::Address(address),
        ).started();
        assert(begun.selected_offset() == address - c.base);
        let step = erase_one(c, address, config);
        assert forall|a: int| address <= a < address + page implies #[trigger] step.controller.byte_at(
            a,
        ) == ERASED by {}
        assert forall|a: int| a < address || a >= address + page implies #[trigger] step.controller.byte_at(
            a,
        ) == c.byte_at(a) by {}
        if end - address > page {
            let next = (address + page) as u32;
            lemma_mod_sub_multiples_vanish(end - address, page);
            lemma_mod_add_multiples_vanish(address - c.base, page);
            erased_region_reads_erased(step.controller, next, end, config);
            let run = erase_pages(c, address, end, config);
            assert(run == erase_pages(step.controller, next, end, config));
            assert forall|a: int| address <= a < end implies #[trigger] run.controller.byte_at(a)
                == ERASED by {
                if a < next {
                    assert(step.controller.byte_at(a) == ERASED);
                }
            }
        }
    }
}

} // verus!
