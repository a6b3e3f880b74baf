//! What holds between the two peers: the part that the receiver puts
//! together is the part that the sender cut up.

use crate::bitfield::{bit_at, lemma_set_bit};
use crate::format::MessagesView;
use crate::receiver::{part_step, PartAssemblyView, PartStepView};
use crate::transmitter::{
    chunk_messages, chunk_offset, lemma_chunk_offsets_ordered, lemma_chunks_count,
    lemma_chunks_hold_all, lemma_chunks_of, lemma_chunks_total, total_len, PartTransferView,
};
use vstd::prelude::*;

verus! {

/// The `Chunk` message that carries chunk `i` of `part`.
pub open spec fn chunk_message(part: PartTransferView, i: int) -> MessagesView {
    MessagesView::Chunk { index: i as u32, part_number: part.part_number, data: part.chunks[i] }
}

/// The assembly that the receiver opens at the `PartBegin` of `part`.
pub open spec fn opened_for(part: PartTransferView) -> PartAssemblyView {
    PartAssemblyView::opened(
        part.part_size(),
        part.chunk_size,
        part.part_number,
        part.chunk_count(),
    )
}

/// Whether `a` is an assembly of `part` in which every chunk marked as
/// received stands at its place.
pub open spec fn agrees(a: PartAssemblyView, part: PartTransferView) -> bool {
    &&& a.chunk_size == part.chunk_size
    &&& a.part_number == part.part_number
    &&& a.chunk_count == part.chunks.len()
    &&& a.data.len() == total_len(part.chunks)
    &&& forall|i: int|
        0 <= i < part.chunks.len() && #[trigger] bit_at(a.received, i) ==> a.data.subrange(
            chunk_offset(part.chunks, i),
            chunk_offset(part.chunks, i) + part.chunks[i].len(),
        ) == part.chunks[i]
}

/// Whether `m` may reach an assembly of `part` from a sender that keeps to
/// the protocol: a chunk under the part's number is one of the part's chunks.
pub open spec fn faithful_to(part: PartTransferView, m: MessagesView) -> bool {
    m matches MessagesView::Chunk { part_number, .. } ==> part_number != part.part_number || exists|
        i: int,
    |
        0 <= i < part.chunks.len() && m == #[trigger] chunk_message(part, i)
}

/// The assembly after the messages `inbound`, in order.
pub open spec fn assembled(a: PartAssemblyView, inbound: Seq<MessagesView>) -> PartAssemblyView
    decreases inbound.len(),
{
    if inbound.len() == 0 {
        a
    } else {
        part_step(assembled(a, inbound.drop_last()), inbound.last()).0
    }
}

/// The assembly that the receiver opens for a part agrees with the part.
pub proof fn lemma_opened_agrees(part: PartTransferView, data: Seq<u8>, limit: nat)
    requires
        part.cut_from(data, limit),
    ensures
        agrees(opened_for(part), part),
{
    lemma_chunks_count(data, part.chunk_size as nat, limit);
}

/// A chunk of the part is taken, stands at its place afterwards, and sets
/// its bit and no other.
pub proof fn lemma_chunk_taken(
    a: PartAssemblyView,
    part: PartTransferView,
    data: Seq<u8>,
    limit: nat,
    i: int,
)
    requires
        part.cut_from(data, limit),
        agrees(a, part),
        0 <= i < part.chunks.len(),
    ensures
        a.takes(i as u32, part.part_number, part.chunks[i]),
        agrees(part_step(a, chunk_message(part, i)).0, part),
        forall|j: int|
            0 <= j ==> #[trigger] bit_at(part_step(a, chunk_message(part, i)).0.received, j) == (j
                == i || bit_at(a.received, j)),
{
    let chunks = part.chunks;
    let after = part_step(a, chunk_message(part, i)).0;
    lemma_chunks_of(data, part.chunk_size as nat, limit, i);
    lemma_chunk_offsets_ordered(chunks, i, i);
    lemma_chunk_offsets_ordered(chunks, i + 1, chunks.len() as int);
    assert forall|j: int| 0 <= j implies #[trigger] bit_at(after.received, j) == (j == i || bit_at(
        a.received,
        j,
    )) by {
        lemma_set_bit(a.received, i as nat, true, j as nat);
    }
    assert forall|j: int| 0 <= j < chunks.len() && #[trigger] bit_at(after.received, j) implies
        after.data.subrange(
            chunk_offset(chunks, j),
            chunk_offset(chunks, j) + chunks[j].len(),
        ) == chunks[j] by {
        lemma_chunk_offsets_ordered(chunks, j, j);
        lemma_chunk_offsets_ordered(chunks, j + 1, chunks.len() as int);
        if j < i {
            lemma_chunk_offsets_ordered(chunks, j + 1, i);
        } else if j > i {
            lemma_chunk_offsets_ordered(chunks, i + 1, j);
        }
    }
}

/// Whatever arrives from a sender that keeps to the protocol, the assembly
/// goes on agreeing with the part, and no chunk received is forgotten.
pub proof fn lemma_assembled_agrees(
    a: PartAssemblyView,
    part: PartTransferView,
    data: Seq<u8>,
    limit: nat,
    inbound: Seq<MessagesView>,
)
    requires
        part.cut_from(data, limit),
        agrees(a, part),
        forall|k: int| 0 <= k < inbound.len() ==> faithful_to(part, #[trigger] inbound[k]),
    ensures
        agrees(assembled(a, inbound), part),
        forall|j: int|
            0 <= j && bit_at(a.received, j) ==> #[trigger] bit_at(
                assembled(a, inbound).received,
                j,
            ),
    decreases inbound.len(),
{
    if inbound.len() > 0 {
        let before = assembled(a, inbound.drop_last());
        let m = inbound.last();
        lemma_assembled_agrees(a, part, data, limit, inbound.drop_last());
        match m {
            MessagesView::Chunk { index, part_number, data: bytes } => {
                if part_number == part.part_number {
                    let i = choose|i: int|
                        0 <= i < part.chunks.len() && m == #[trigger] chunk_message(part, i);
                    lemma_chunk_taken(before, part, data, limit, i);
                }
            },
            _ => {},
        }
    }
}

/// An assembly that agrees with the part and has every chunk holds the
/// bytes that the sender cut up.
pub proof fn lemma_complete_is_whole(
    a: PartAssemblyView,
    part: PartTransferView,
    data: Seq<u8>,
    limit: nat,
)
    requires
        part.cut_from(data, limit),
        agrees(a, part),
        a.complete(),
    ensures
        a.data == data.take(total_len(part.chunks) as int),
{
    lemma_whole_up_to(a, part, data, limit, part.chunks.len() as int);
    lemma_chunk_offsets_ordered(part.chunks, 0, part.chunks.len() as int);
}

proof fn lemma_whole_up_to(
    a: PartAssemblyView,
    part: PartTransferView,
    data: Seq<u8>,
    limit: nat,
    k: int,
)
    requires
        part.cut_from(data, limit),
        agrees(a, part),
        a.complete(),
        0 <= k <= part.chunks.len(),
    ensures
        chunk_offset(part.chunks, k) <= a.data.len(),
        chunk_offset(part.chunks, k) <= data.len(),
        a.data.take(chunk_offset(part.chunks, k)) == data.take(chunk_offset(part.chunks, k)),
    decreases k,
{
    let chunks = part.chunks;
    lemma_chunk_offsets_ordered(chunks, k, chunks.len() as int);
    lemma_chunks_total(data, part.chunk_size as nat, limit);
    if k > 0 {
        let i = k - 1;
        let start = chunk_offset(chunks, i);
        let end = chunk_offset(chunks, k);
        lemma_whole_up_to(a, part, data, limit, i);
        lemma_chunk_offsets_ordered(chunks, i, i);
        lemma_chunks_of(data, part.chunk_size as nat, limit, i);
        assert(bit_at(a.received, i));
        assert forall|x: int| 0 <= x < end implies a.data[x] == data[x] by {
            if x < start {
                assert(a.data.take(start)[x] == data.take(start)[x]);
            } else {
                assert(a.data.subrange(start, end)[x - start] == data.subrange(start, end)[x
                    - start]);
            }
        }
    }
}

/// Success is sound: where the receiver, fed by a sender that keeps to the
/// protocol, finds the part successful at a `PartEnd`, the bytes that it
/// commits are the bytes that the sender cut up.
pub proof fn lemma_success_is_whole(
    part: PartTransferView,
    data: Seq<u8>,
    limit: nat,
    inbound: Seq<MessagesView>,
)
    requires
        part.cut_from(data, limit),
        forall|k: int| 0 <= k < inbound.len() ==> faithful_to(part, #[trigger] inbound[k]),
        part_step(assembled(opened_for(part), inbound), MessagesView::PartEnd).1 is Successful,
    ensures
        assembled(opened_for(part), inbound).data == data.take(total_len(part.chunks) as int),
        data.len() <= part.chunk_size * limit ==> assembled(opened_for(part), inbound).data == data,
{
    if data.len() <= part.chunk_size * limit {
        lemma_chunks_hold_all(data, part.chunk_size as nat, limit);
    }
    lemma_opened_agrees(part, data, limit);
    lemma_assembled_agrees(opened_for(part), part, data, limit, inbound);
    lemma_complete_is_whole(assembled(opened_for(part), inbound), part, data, limit);
}

proof fn lemma_repair_up_to(
    a: PartAssemblyView,
    part: PartTransferView,
    data: Seq<u8>,
    limit: nat,
    k: int,
)
    requires
        part.cut_from(data, limit),
        agrees(a, part),
        0 <= k <= part.chunks.len(),
    ensures
        ({
            let sent = chunk_messages(part.chunks.take(k), a.received, part.part_number);
            let after = assembled(a, sent);
            &&& agrees(after, part)
            &&& forall|j: int|
                0 <= j && bit_at(a.received, j) ==> #[trigger] bit_at(after.received, j)
            &&& forall|j: int| 0 <= j < k ==> #[trigger] bit_at(after.received, j)
        }),
    decreases k,
{
    let mask = a.received;
    let sent = chunk_messages(part.chunks.take(k), mask, part.part_number);
    if k > 0 {
        let i = k - 1;
        let earlier = chunk_messages(part.chunks.take(i), mask, part.part_number);
        let before = assembled(a, earlier);
        lemma_repair_up_to(a, part, data, limit, i);
        assert(part.chunks.take(k).drop_last() =~= part.chunks.take(i));
        lemma_chunks_count(data, part.chunk_size as nat, limit);
        if !bit_at(mask, i) {
            assert(sent.drop_last() =~= earlier);
            lemma_chunk_taken(before, part, data, limit, i);
        }
    }
}

/// Repair is complete: once the chunks that the receiver's bitfield asks
/// for have all arrived, the receiver has every chunk of the part.
pub proof fn lemma_repair_completes(
    a: PartAssemblyView,
    part: PartTransferView,
    data: Seq<u8>,
    limit: nat,
)
    requires
        part.cut_from(data, limit),
        agrees(a, part),
    ensures
        assembled(a, chunk_messages(part.chunks, a.received, part.part_number)).complete(),
        assembled(a, chunk_messages(part.chunks, a.received, part.part_number)).data == data.take(
            total_len(part.chunks) as int,
        ),
{
    let after = assembled(a, chunk_messages(part.chunks, a.received, part.part_number));
    lemma_repair_up_to(a, part, data, limit, part.chunks.len() as int);
    assert(part.chunks.take(part.chunks.len() as int) =~= part.chunks);
    lemma_complete_is_whole(after, part, data, limit);
}

} // verus!
