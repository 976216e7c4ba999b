//! What sinking the markers does to the instructions of one block, as a
//! function on sequences, and what holds of it.
//!
//! A marker says that from it on side effects depend on its condition. Only
//! an instruction that must run under a condition cares, so a marker may
//! wait until the next such instruction, and a marker that another marker
//! follows first may go. A marker whose condition is the constant true does
//! not wait: it stays where it is.

use crate::ssa::ir::{InstructionId, InstructionKind};
use vstd::prelude::*;

verus! {

/// The kinds of the instructions, as a function of their numbers.
pub type Kinds = spec_fn(InstructionId) -> InstructionKind;

/// The marker that waits after the instruction `id`, when `pending` waited
/// before it.
pub open spec fn pending_after_one(kinds: Kinds, pending: Option<InstructionId>, id: InstructionId) -> Option<
    InstructionId,
> {
    match kinds(id) {
        InstructionKind::EnableAlways => None,
        InstructionKind::EnableIf => Some(id),
        InstructionKind::Guarded => None,
        InstructionKind::Transparent => pending,
    }
}

/// What the instruction `id` puts out, when `pending` waits before it.
pub open spec fn sink_one(kinds: Kinds, pending: Option<InstructionId>, id: InstructionId) -> Seq<
    InstructionId,
> {
    match kinds(id) {
        InstructionKind::EnableAlways => seq![id],
        InstructionKind::EnableIf => Seq::empty(),
        InstructionKind::Guarded => match pending {
            Some(marker) => seq![marker, id],
            None => seq![id],
        },
        InstructionKind::Transparent => seq![id],
    }
}

/// The instructions of a block after its markers were sunk, when `pending`
/// waits at its start. A marker that still waits at the end is dropped.
pub open spec fn sink(kinds: Kinds, instructions: Seq<InstructionId>, pending: Option<InstructionId>) -> Seq<
    InstructionId,
>
    decreases instructions.len(),
{
    if instructions.len() == 0 {
        Seq::empty()
    } else {
        sink_one(kinds, pending, instructions[0]) + sink(
            kinds,
            instructions.drop_first(),
            pending_after_one(kinds, pending, instructions[0]),
        )
    }
}

/// The marker that waits at the end of `instructions`, when `pending` waits
/// at their start.
pub open spec fn pending_after(
    kinds: Kinds,
    instructions: Seq<InstructionId>,
    pending: Option<InstructionId>,
) -> Option<InstructionId>
    decreases instructions.len(),
{
    if instructions.len() == 0 {
        pending
    } else {
        pending_after(
            kinds,
            instructions.drop_first(),
            pending_after_one(kinds, pending, instructions[0]),
        )
    }
}

/// The instructions that are no markers, in their order.
pub open spec fn non_markers(kinds: Kinds, instructions: Seq<InstructionId>) -> Seq<InstructionId> {
    instructions.filter(|id: InstructionId| !is_marker(kinds, id))
}

/// Whether the instruction `id` is a marker.
pub open spec fn is_marker(kinds: Kinds, id: InstructionId) -> bool {
    kinds(id) == InstructionKind::EnableAlways || kinds(id) == InstructionKind::EnableIf
}

/// Whether a marker that waits is one that may wait: a marker whose
/// condition is not the constant true.
pub open spec fn may_wait(kinds: Kinds, pending: Option<InstructionId>) -> bool {
    pending matches Some(marker) ==> kinds(marker) == InstructionKind::EnableIf
}

/// Sinking goes through a block from the front: what the first part puts
/// out does not depend on what follows it, and the rest goes on with the
/// marker that waits after the first part.
pub proof fn lemma_sink_split(
    kinds: Kinds,
    first: Seq<InstructionId>,
    rest: Seq<InstructionId>,
    pending: Option<InstructionId>,
)
    ensures
        sink(kinds, first + rest, pending) == sink(kinds, first, pending) + sink(
            kinds,
            rest,
            pending_after(kinds, first, pending),
        ),
        pending_after(kinds, first + rest, pending) == pending_after(
            kinds,
            rest,
            pending_after(kinds, first, pending),
        ),
    decreases first.len(),
{
    if first.len() == 0 {
        assert(first + rest =~= rest);
        assert(sink(kinds, first, pending) + sink(kinds, rest, pending) =~= sink(kinds, rest, pending));
    } else {
        let next = pending_after_one(kinds, pending, first[0]);
        assert((first + rest).drop_first() =~= first.drop_first() + rest);
        lemma_sink_split(kinds, first.drop_first(), rest, next);
        assert(sink(kinds, first + rest, pending) =~= sink(kinds, first, pending) + sink(
            kinds,
            rest,
            pending_after(kinds, first, pending),
        ));
    }
}

/// What one instruction alone puts out and leaves waiting.
pub proof fn lemma_sink_single(kinds: Kinds, id: InstructionId, pending: Option<InstructionId>)
    ensures
        sink(kinds, seq![id], pending) == sink_one(kinds, pending, id),
        pending_after(kinds, seq![id], pending) == pending_after_one(kinds, pending, id),
{
    let single = seq![id];
    assert(single.drop_first() =~= Seq::<InstructionId>::empty());
    assert(sink(kinds, single.drop_first(), pending_after_one(kinds, pending, id))
        =~= Seq::<InstructionId>::empty());
    assert(sink(kinds, single, pending) =~= sink_one(kinds, pending, id));
    assert(pending_after(kinds, single.drop_first(), pending_after_one(kinds, pending, id))
        == pending_after_one(kinds, pending, id));
}

/// The marker that waits after a block is decided by the last instruction
/// that is not transparent: it waits if that instruction is a marker whose
/// condition is not the constant true, and nothing waits after an
/// instruction that must run under a condition or after a marker with the
/// constant true. After transparent instructions alone, what waited before
/// still waits.
pub proof fn lemma_pending_after_push(
    kinds: Kinds,
    instructions: Seq<InstructionId>,
    id: InstructionId,
    pending: Option<InstructionId>,
)
    ensures
        pending_after(kinds, instructions.push(id), pending) == pending_after_one(
            kinds,
            pending_after(kinds, instructions, pending),
            id,
        ),
        may_wait(kinds, pending) ==> may_wait(kinds, pending_after(kinds, instructions, pending)),
    decreases instructions.len(),
{
    assert(instructions.push(id) =~= instructions + seq![id]);
    lemma_sink_split(kinds, instructions, seq![id], pending);
    lemma_sink_single(kinds, id, pending_after(kinds, instructions, pending));
    if instructions.len() > 0 {
        lemma_pending_after_push(
            kinds,
            instructions.drop_first(),
            id,
            pending_after_one(kinds, pending, instructions[0]),
        );
    }
}

/// Whether a marker that may wait stands at `j`, with none but transparent
/// instructions after it: the marker is the last one, and it is still in
/// force at the end.
pub open spec fn waits_at(kinds: Kinds, instructions: Seq<InstructionId>, j: int) -> bool {
    &&& 0 <= j < instructions.len()
    &&& kinds(instructions[j]) == InstructionKind::EnableIf
    &&& forall|k: int|
        j < k < instructions.len() ==> kinds(#[trigger] instructions[k])
            == InstructionKind::Transparent
}

/// With nothing waiting at the start, a marker waits at the end of
/// `instructions` exactly if it is their last marker, its condition is not
/// the constant true, and no instruction that must run under a condition
/// comes after it.
pub proof fn lemma_pending_is_last_marker(kinds: Kinds, instructions: Seq<InstructionId>)
    ensures
        match pending_after(kinds, instructions, None) {
            Some(marker) => exists|j: int| #[trigger]
                waits_at(kinds, instructions, j) && instructions[j] == marker,
            None => forall|j: int| !#[trigger] waits_at(kinds, instructions, j),
        },
    decreases instructions.len(),
{
    if instructions.len() > 0 {
        let front = instructions.drop_last();
        let last = instructions.last();
        let end = instructions.len() - 1;
        assert(instructions =~= front.push(last));
        lemma_pending_after_push(kinds, front, last, None);
        lemma_pending_is_last_marker(kinds, front);
        if kinds(last) == InstructionKind::EnableIf {
            assert(waits_at(kinds, instructions, end));
        } else if kinds(last) == InstructionKind::Transparent {
            match pending_after(kinds, front, None) {
                Some(marker) => {
                    let j = choose|j: int| #[trigger] waits_at(kinds, front, j) && front[j] == marker;
                    assert forall|k: int| j < k < instructions.len() implies kinds(
                        #[trigger] instructions[k],
                    ) == InstructionKind::Transparent by {
                        if k < end {
                            assert(instructions[k] == front[k]);
                        }
                    }
                    assert(instructions[j] == front[j]);
                    assert(waits_at(kinds, instructions, j));
                },
                None => {
                    assert forall|j: int| !#[trigger] waits_at(kinds, instructions, j) by {
                        if waits_at(kinds, instructions, j) {
                            assert(j < end);
                            assert(instructions[j] == front[j]);
                            assert forall|k: int| j < k < front.len() implies kinds(#[trigger] front[k])
                                == InstructionKind::Transparent by {
                                assert(front[k] == instructions[k]);
                            }
                            assert(waits_at(kinds, front, j));
                        }
                    }
                },
            }
        } else {
            assert forall|j: int| !#[trigger] waits_at(kinds, instructions, j) by {
                if waits_at(kinds, instructions, j) {
                    if j < end {
                        assert(kinds(instructions[end]) == InstructionKind::Transparent);
                    }
                }
            }
        }
    } else {
        assert forall|j: int| !#[trigger] waits_at(kinds, instructions, j) by {}
    }
}

/// Sinking the markers of a block whose markers are sunk changes nothing.
pub proof fn lemma_sink_idempotent(
    kinds: Kinds,
    instructions: Seq<InstructionId>,
    pending: Option<InstructionId>,
)
    requires
        may_wait(kinds, pending),
    ensures
        sink(kinds, sink(kinds, instructions, pending), None) == sink(kinds, instructions, pending),
    decreases instructions.len(),
{
    if instructions.len() > 0 {
        let id = instructions[0];
        let next = pending_after_one(kinds, pending, id);
        let rest = sink(kinds, instructions.drop_first(), next);
        let head = sink_one(kinds, pending, id);
        lemma_sink_idempotent(kinds, instructions.drop_first(), next);
        lemma_sink_split(kinds, head, rest, None);
        // What was put out for `id` is put out again as it is, and leaves
        // nothing waiting.
        if kinds(id) == InstructionKind::EnableIf {
            assert(head + rest =~= rest);
        } else if kinds(id) == InstructionKind::Guarded && pending is Some {
            let marker = pending->Some_0;
            assert(head =~= seq![marker] + seq![id]);
            lemma_sink_split(kinds, seq![marker], seq![id], None);
            lemma_sink_single(kinds, marker, None);
            lemma_sink_single(kinds, id, Some(marker));
            assert(sink(kinds, head, None) =~= head);
        } else {
            lemma_sink_single(kinds, id, None);
        }
    }
}

/// Sinking leaves the instructions that are no markers as they are, each
/// one and in their order.
pub proof fn lemma_sink_keeps_non_markers(
    kinds: Kinds,
    instructions: Seq<InstructionId>,
    pending: Option<InstructionId>,
)
    requires
        pending matches Some(marker) ==> is_marker(kinds, marker),
    ensures
        non_markers(kinds, sink(kinds, instructions, pending)) == non_markers(kinds, instructions),
    decreases instructions.len(),
{
    let keep = |id: InstructionId| !is_marker(kinds, id);
    if instructions.len() == 0 {
        assert(sink(kinds, instructions, pending) =~= instructions);
    } else {
        let id = instructions[0];
        let next = pending_after_one(kinds, pending, id);
        let head = sink_one(kinds, pending, id);
        let rest = sink(kinds, instructions.drop_first(), next);
        lemma_sink_keeps_non_markers(kinds, instructions.drop_first(), next);
        assert(instructions =~= seq![id] + instructions.drop_first());
        Seq::filter_distributes_over_add(seq![id], instructions.drop_first(), keep);
        Seq::filter_distributes_over_add(head, rest, keep);
        lemma_filter_single(keep, id);
        if kinds(id) == InstructionKind::EnableIf {
            assert(head.filter(keep) =~= Seq::<InstructionId>::empty()) by {
                reveal(Seq::filter);
            }
        } else if kinds(id) == InstructionKind::Guarded && pending is Some {
            let marker = pending->Some_0;
            assert(head =~= seq![marker] + seq![id]);
            Seq::filter_distributes_over_add(seq![marker], seq![id], keep);
            lemma_filter_single(keep, marker);
        }
    }
}

/// What a filter leaves of one element.
proof fn lemma_filter_single(keep: spec_fn(InstructionId) -> bool, id: InstructionId)
    ensures
        seq![id].filter(keep) == if keep(id) {
            seq![id]
        } else {
            Seq::<InstructionId>::empty()
        },
{
    reveal(Seq::filter);
    let single = seq![id];
    assert(single.drop_last() =~= Seq::<InstructionId>::empty());
    assert(single.drop_last().filter(keep) =~= Seq::<InstructionId>::empty());
    assert(single.last() == id);
    assert(single.filter(keep) =~= if keep(id) {
        seq![id]
    } else {
        Seq::<InstructionId>::empty()
    });
}

/// An instruction that must run under a condition stays in its place among
/// the others, and the marker that waits before it is put right in front of
/// it: the last marker before it, if the condition of that marker is not the
/// constant true and no other instruction of its kind came in between. With
/// nothing waiting, no marker is put in front of it.
pub proof fn lemma_sink_at_guarded(
    kinds: Kinds,
    before: Seq<InstructionId>,
    id: InstructionId,
    after: Seq<InstructionId>,
    pending: Option<InstructionId>,
)
    requires
        kinds(id) == InstructionKind::Guarded,
    ensures
        sink(kinds, before + seq![id] + after, pending) == sink(kinds, before, pending) + (
        match pending_after(kinds, before, pending) {
            Some(marker) => seq![marker, id],
            None => seq![id],
        }) + sink(kinds, after, None),
{
    let waiting = pending_after(kinds, before, pending);
    assert(before + seq![id] + after =~= before + (seq![id] + after));
    lemma_sink_split(kinds, before, seq![id] + after, pending);
    lemma_sink_split(kinds, seq![id], after, waiting);
    lemma_sink_single(kinds, id, waiting);
    assert(sink(kinds, before + seq![id] + after, pending) =~= sink(kinds, before, pending)
        + sink_one(kinds, waiting, id) + sink(kinds, after, None));
}

/// A marker whose condition is the constant true stays in its place among
/// the others, whatever waits before it, and nothing waits after it.
pub proof fn lemma_sink_at_enable_always(
    kinds: Kinds,
    before: Seq<InstructionId>,
    id: InstructionId,
    after: Seq<InstructionId>,
    pending: Option<InstructionId>,
)
    requires
        kinds(id) == InstructionKind::EnableAlways,
    ensures
        sink(kinds, before + seq![id] + after, pending) == sink(kinds, before, pending) + seq![id]
            + sink(kinds, after, None),
        pending_after(kinds, before + seq![id], pending) is None,
{
    let waiting = pending_after(kinds, before, pending);
    assert(before + seq![id] + after =~= before + (seq![id] + after));
    lemma_sink_split(kinds, before, seq![id] + after, pending);
    lemma_sink_split(kinds, seq![id], after, waiting);
    lemma_sink_split(kinds, before, seq![id], pending);
    lemma_sink_single(kinds, id, waiting);
    assert(sink(kinds, before + seq![id] + after, pending) =~= sink(kinds, before, pending) + seq![id]
        + sink(kinds, after, None));
}

/// Without an instruction that must run under a condition, what waits at
/// the start makes no difference to what is put out.
pub proof fn lemma_sink_without_guarded(
    kinds: Kinds,
    instructions: Seq<InstructionId>,
    pending: Option<InstructionId>,
    other: Option<InstructionId>,
)
    requires
        forall|i: int|
            0 <= i < instructions.len() ==> kinds(#[trigger] instructions[i])
                != InstructionKind::Guarded,
    ensures
        sink(kinds, instructions, pending) == sink(kinds, instructions, other),
    decreases instructions.len(),
{
    if instructions.len() > 0 {
        let id = instructions[0];
        assert(kinds(id) != InstructionKind::Guarded);
        let rest = instructions.drop_first();
        assert forall|i: int| 0 <= i < rest.len() implies kinds(#[trigger] rest[i])
            != InstructionKind::Guarded by {
            assert(rest[i] == instructions[i + 1]);
        }
        lemma_sink_without_guarded(
            kinds,
            rest,
            pending_after_one(kinds, pending, id),
            pending_after_one(kinds, other, id),
        );
    }
}

/// A marker that no instruction in need of a condition follows in its block
/// is dropped: the block comes out as it would without the marker.
pub proof fn lemma_sink_drops_dangling_marker(
    kinds: Kinds,
    before: Seq<InstructionId>,
    marker: InstructionId,
    after: Seq<InstructionId>,
    pending: Option<InstructionId>,
)
    requires
        kinds(marker) == InstructionKind::EnableIf,
        forall|i: int| 0 <= i < after.len() ==> kinds(#[trigger] after[i]) != InstructionKind::Guarded,
    ensures
        sink(kinds, before + seq![marker] + after, pending) == sink(kinds, before + after, pending),
        sink(kinds, before + seq![marker] + after, pending) == sink(kinds, before, pending) + sink(
            kinds,
            after,
            None,
        ),
{
    let waiting = pending_after(kinds, before, pending);
    assert(before + seq![marker] + after =~= before + (seq![marker] + after));
    lemma_sink_split(kinds, before, seq![marker] + after, pending);
    lemma_sink_split(kinds, seq![marker], after, waiting);
    lemma_sink_single(kinds, marker, waiting);
    lemma_sink_split(kinds, before, after, pending);
    lemma_sink_without_guarded(kinds, after, Some(marker), waiting);
    lemma_sink_without_guarded(kinds, after, None, waiting);
    assert(sink(kinds, seq![marker] + after, waiting) =~= sink(kinds, after, Some(marker)));
}

} // verus!
