use vstd::prelude::*;
use crate::controller::ERASED;

verus! {

/// `bytes` filled up to `size` bytes with the erased pattern.
pub open spec fn padded(bytes: Seq<u8>, size: nat) -> Seq<u8> {
    bytes + Seq::new((size - bytes.len()) as nat, |i: int| ERASED)
}

/// The consecutive groups of exactly `size` bytes that `data` starts with.
pub open spec fn full_chunks(data: Seq<u8>, size: nat) -> Seq<Seq<u8>>
    decreases data.len(),
{
    if size == 0 || data.len() < size {
        Seq::empty()
    } else {
        seq![data.take(size as int)] + full_chunks(data.skip(size as int), size)
    }
}

/// What is left of `data` behind its full chunks.
pub open spec fn remainder(data: Seq<u8>, size: nat) -> Seq<u8>
    decreases data.len(),
{
    if size == 0 || data.len() < size {
        data
    } else {
        remainder(data.skip(size as int), size)
    }
}

/// Bytes of `data` that go into the chunk that `pending` began.
pub open spec fn taken(pending: Seq<u8>, data: Seq<u8>, size: nat) -> nat {
    if pending.len() == 0 {
        0
    } else if data.len() >= size - pending.len() {
        (size - pending.len()) as nat
    } else {
        data.len()
    }
}

/// The chunks that a write of `data` hands to the controller, in order, where
/// `pending` is what earlier writes left over.
pub open spec fn write_chunks(pending: Seq<u8>, data: Seq<u8>, size: nat) -> Seq<Seq<u8>> {
    let n = taken(pending, data, size) as int;
    if pending.len() == 0 {
        full_chunks(data, size)
    } else {
        seq![padded(pending + data.take(n), size)] + full_chunks(data.skip(n), size)
    }
}

/// What a write of `data` leaves over for the next one.
pub open spec fn carried(pending: Seq<u8>, data: Seq<u8>, size: nat) -> Seq<u8> {
    remainder(data.skip(taken(pending, data, size) as int), size)
}

/// The chunks that a flush hands to the controller.
pub open spec fn flush_chunks(pending: Seq<u8>, size: nat) -> Seq<Seq<u8>> {
    if pending.len() == 0 {
        Seq::empty()
    } else {
        seq![padded(pending, size)]
    }
}

/// Appends `src[from..to]` to `chunk`.
pub fn append_from(chunk: &mut Vec<u8>, src: &[u8], from: usize, to: usize)
    requires
        from <= to <= src@.len(),
    ensures
        final(chunk)@ == old(chunk)@ + src@.subrange(from as int, to as int),
{
    let mut i: usize = from;
    while i < to
        invariant
            from <= i <= to,
            to <= src@.len(),
            chunk@ == old(chunk)@ + src@.subrange(from as int, i as int),
        decreases to - i,
    {
        chunk.push(src[i]);
        i += 1;
        assert(chunk@ =~= old(chunk)@ + src@.subrange(from as int, i as int));
    }
    assert(chunk@ =~= old(chunk)@ + src@.subrange(from as int, to as int));
}

/// Fills `chunk` up to `size` bytes with the erased pattern.
pub fn pad_to(chunk: &mut Vec<u8>, size: usize)
    requires
        old(chunk)@.len() <= size,
    ensures
        final(chunk)@ == padded(old(chunk)@, size as nat),
{
    while chunk.len() < size
        invariant
            old(chunk)@.len() <= chunk@.len() <= size,
            chunk@ == old(chunk)@ + Seq::new(
                (chunk@.len() - old(chunk)@.len()) as nat,
                |i: int| ERASED,
            ),
        decreases size - chunk@.len(),
    {
        chunk.push(ERASED);
        assert(chunk@ =~= old(chunk)@ + Seq::new(
            (chunk@.len() - old(chunk)@.len()) as nat,
            |i: int| ERASED,
        ));
    }
    assert(chunk@ =~= old(chunk)@ + Seq::new(
        (size - old(chunk)@.len()) as nat,
        |i: int| ERASED,
    ));
}

} // verus!
