//! The pass that sinks the markers of conditional execution.
//!
//! In each block that can be reached from the entry of a function, a marker
//! is held back until an instruction needs it; a marker that another one
//! follows first is dropped, and so is one that still waits at the end of
//! the block. A marker whose condition is the constant true stays where it
//! is. No marker leaves its block, and no other instruction moves.

use crate::ssa::ir::{BasicBlockId, BlockView, Function, FunctionView, InstructionId, InstructionKind, Ssa};
use crate::ssa::sinking::{
    lemma_sink_idempotent, lemma_sink_keeps_non_markers, non_markers, pending_after_one, sink, sink_one,
    Kinds,
};
use std::collections::HashSet;
use vstd::prelude::*;
use vstd::set_lib::{lemma_int_range, set_int_range};

verus! {

broadcast use vstd::std_specs::hash::group_hash_axioms;

/// Whether `path` leads from `entry` along the edges of the graph.
pub open spec fn is_path(
    entry: BasicBlockId,
    successors: Seq<Seq<BasicBlockId>>,
    path: Seq<BasicBlockId>,
) -> bool {
    &&& path.len() > 0
    &&& path[0] == entry
    &&& forall|i: int|
        0 <= i < path.len() - 1 ==> (#[trigger] path[i]).0 < successors.len()
            && successors[path[i].0 as int].contains(path[i + 1])
}

/// Whether `block` can be reached from `entry` along the edges of the graph.
pub open spec fn reachable(
    entry: BasicBlockId,
    successors: Seq<Seq<BasicBlockId>>,
    block: BasicBlockId,
) -> bool {
    exists|path: Seq<BasicBlockId>| #[trigger] is_path(entry, successors, path) && path.last() == block
}

/// The block `b` of `function` with its markers sunk.
pub open spec fn processed_block(function: FunctionView, b: int) -> BlockView {
    BlockView {
        instructions: sink(function.kinds(), function.blocks[b].instructions, None),
        terminator: function.blocks[b].terminator,
    }
}

/// The block `b` of `function` after the pass: with its markers sunk if the
/// block can be reached from the entry, and as it is if not.
pub open spec fn sunk_block(function: FunctionView, b: int) -> BlockView {
    if reachable(function.entry_block, function.successors(), BasicBlockId(b as usize)) {
        processed_block(function, b)
    } else {
        function.blocks[b]
    }
}

/// `function` after the pass.
pub open spec fn sunk(function: FunctionView) -> FunctionView {
    FunctionView {
        blocks: Seq::new(function.blocks.len(), |b: int| sunk_block(function, b)),
        ..function
    }
}

/// A block that an edge leads to from a block that can be reached can be
/// reached too.
pub proof fn lemma_reachable_step(
    entry: BasicBlockId,
    successors: Seq<Seq<BasicBlockId>>,
    block: BasicBlockId,
    next: BasicBlockId,
)
    requires
        reachable(entry, successors, block),
        block.0 < successors.len(),
        successors[block.0 as int].contains(next),
    ensures
        reachable(entry, successors, next),
{
    let path = choose|path: Seq<BasicBlockId>| #[trigger]
        is_path(entry, successors, path) && path.last() == block;
    let longer = path.push(next);
    assert forall|i: int| 0 <= i < longer.len() - 1 implies (#[trigger] longer[i]).0 < successors.len()
        && successors[longer[i].0 as int].contains(longer[i + 1]) by {
        if i < path.len() - 1 {
            assert(longer[i] == path[i]);
            assert(longer[i + 1] == path[i + 1]);
        }
    }
    assert(is_path(entry, successors, longer));
}

/// The entry can be reached.
pub proof fn lemma_entry_reachable(entry: BasicBlockId, successors: Seq<Seq<BasicBlockId>>)
    ensures
        reachable(entry, successors, entry),
{
    assert(is_path(entry, successors, seq![entry]));
}

/// Whether every edge from a block in `visited` leads to a block in
/// `visited` or in `queue`.
spec fn edges_followed(
    successors: Seq<Seq<BasicBlockId>>,
    visited: Set<usize>,
    queue: Seq<BasicBlockId>,
) -> bool {
    forall|v: int, j: int|
        0 <= v < successors.len() && visited.contains(v as usize) && 0 <= j < successors[v].len() ==> {
            let next = #[trigger] successors[v][j];
            visited.contains(next.0) || queue.contains(next)
        }
}

/// A set of blocks that holds the entry and that no edge leads out of holds
/// every block of every path.
proof fn lemma_closed_set_holds_paths(
    entry: BasicBlockId,
    successors: Seq<Seq<BasicBlockId>>,
    visited: Set<usize>,
    path: Seq<BasicBlockId>,
    i: int,
)
    requires
        is_path(entry, successors, path),
        0 <= i < path.len(),
        visited.contains(entry.0),
        edges_followed(successors, visited, Seq::empty()),
    ensures
        visited.contains(path[i].0),
    decreases i,
{
    if i > 0 {
        lemma_closed_set_holds_paths(entry, successors, visited, path, i - 1);
        let from = path[i - 1];
        let j = choose|j: int|
            0 <= j < successors[from.0 as int].len() && successors[from.0 as int][j] == path[i];
        assert(successors[from.0 as int][j] == path[i]);
        assert(!Seq::<BasicBlockId>::empty().contains(path[i]));
    }
}

/// The pass keeps a function well formed.
pub proof fn lemma_sunk_wf(function: FunctionView)
    requires
        function.wf(),
    ensures
        sunk(function).wf(),
        sunk(function).successors() == function.successors(),
        sunk(function).kinds() == function.kinds(),
{
    let after = sunk(function);
    assert(after.successors() =~= function.successors());
    assert forall|b: int, i: int|
        0 <= b < after.blocks.len() && 0 <= i < after.blocks[b].instructions.len() implies (
    #[trigger] after.blocks[b].instructions[i]).0 < after.instructions.len() by {
        lemma_sink_in_range(
            function.kinds(),
            function.blocks[b].instructions,
            None,
            function.instructions.len(),
        );
    }
    assert forall|b: int, i: int|
        0 <= b < after.blocks.len() && 0 <= i < after.blocks[b].successors().len() implies (
    #[trigger] after.blocks[b].successors()[i]).0 < after.blocks.len() by {
        assert(after.blocks[b].successors()[i] == function.blocks[b].successors()[i]);
    }
}

/// Sinking puts out only what it was given: numbers below a bound stay
/// below it.
pub proof fn lemma_sink_in_range(
    kinds: Kinds,
    instructions: Seq<InstructionId>,
    pending: Option<InstructionId>,
    bound: nat,
)
    requires
        forall|i: int| 0 <= i < instructions.len() ==> (#[trigger] instructions[i]).0 < bound,
        pending matches Some(marker) ==> marker.0 < bound,
    ensures
        forall|i: int|
            0 <= i < sink(kinds, instructions, pending).len() ==> (#[trigger] sink(
                kinds,
                instructions,
                pending,
            )[i]).0 < bound,
    decreases instructions.len(),
{
    if instructions.len() > 0 {
        let rest = instructions.drop_first();
        assert forall|i: int| 0 <= i < rest.len() implies (#[trigger] rest[i]).0 < bound by {
            assert(rest[i] == instructions[i + 1]);
        }
        let next = pending_after_one(kinds, pending, instructions[0]);
        lemma_sink_in_range(kinds, rest, next, bound);
        let head = sink_one(kinds, pending, instructions[0]);
        let tail = sink(kinds, rest, next);
        assert(instructions[0].0 < bound);
        assert forall|i: int| 0 <= i < (head + tail).len() implies (#[trigger] (head + tail)[i]).0
            < bound by {
            if i >= head.len() {
                assert((head + tail)[i] == tail[i - head.len()]);
            }
        }
    }
}

/// Running the pass on a function that it has run on changes nothing.
pub proof fn lemma_sunk_idempotent(function: FunctionView)
    requires
        function.wf(),
    ensures
        sunk(sunk(function)) == sunk(function),
{
    lemma_sunk_wf(function);
    let once = sunk(function);
    let twice = sunk(once);
    assert forall|b: int| 0 <= b < once.blocks.len() implies twice.blocks[b] == once.blocks[b] by {
        if reachable(function.entry_block, function.successors(), BasicBlockId(b as usize)) {
            lemma_sink_idempotent(function.kinds(), function.blocks[b].instructions, None);
        }
    }
    assert(twice.blocks =~= once.blocks);
}

/// The pass leaves the instructions of every block that are no markers as
/// they are, each one and in their order.
pub proof fn lemma_sunk_keeps_non_markers(function: FunctionView, b: int)
    requires
        0 <= b < function.blocks.len(),
    ensures
        non_markers(function.kinds(), sunk(function).blocks[b].instructions) == non_markers(
            function.kinds(),
            function.blocks[b].instructions,
        ),
        sunk(function).blocks[b].terminator == function.blocks[b].terminator,
        sunk(function).blocks.len() == function.blocks.len(),
{
    lemma_sink_keeps_non_markers(function.kinds(), function.blocks[b].instructions, None);
}

/// The state of one run of the pass over a function: the blocks that were
/// worked on, and the blocks that wait for it.
pub struct Context {
    visited_blocks: HashSet<usize>,
    block_queue: Vec<BasicBlockId>,
}

impl Context {
    /// The numbers of the blocks that were worked on.
    pub closed spec fn visited(&self) -> Set<usize> {
        self.visited_blocks@
    }

    /// The blocks that wait, the next one last.
    pub closed spec fn queue(&self) -> Seq<BasicBlockId> {
        self.block_queue@
    }

    /// A state in which no block was worked on and none waits.
    pub fn new() -> (context: Self)
        ensures
            context.visited() == Set::<usize>::empty(),
            context.queue() == Seq::<BasicBlockId>::empty(),
    {
        Context { visited_blocks: HashSet::new(), block_queue: Vec::new() }
    }

    /// Sinks the markers of `block`, and lets the blocks that it leads to
    /// wait for their turn.
    pub fn remove_enable_side_effects_in_block(&mut self, function: &mut Function, block: BasicBlockId)
        requires
            old(function)@.wf(),
            block.0 < old(function)@.blocks.len(),
        ensures
            final(function)@.wf(),
            final(function)@ == (FunctionView {
                blocks: old(function)@.blocks.update(
                    block.0 as int,
                    processed_block(old(function)@, block.0 as int),
                ),
                ..old(function)@
            }),
            final(self).visited() == old(self).visited(),
            final(self).queue() == old(self).queue() + old(function)@.blocks[block.0 as int].successors(),
    {
        let ghost kinds = function@.kinds();
        let ghost all = function@.blocks[block.0 as int].instructions;
        let ghost bound = function@.instructions.len();
        let instructions = function.block_instructions(block);

        let mut last_side_effects_enabled_instruction: Option<InstructionId> = None;

        let mut new_instructions: Vec<InstructionId> = Vec::with_capacity(instructions.len());
        let mut i: usize = 0;
        proof {
            assert(all.skip(0) =~= all);
            assert(sink(kinds, all, None) =~= new_instructions@ + sink(kinds, all.skip(0), None));
        }
        while i < instructions.len()
            invariant
                function@.wf(),
                block.0 < function@.blocks.len(),
                kinds == function@.kinds(),
                bound == function@.instructions.len(),
                all == function@.blocks[block.0 as int].instructions,
                instructions@ == all,
                i <= all.len(),
                sink(kinds, all, None) == new_instructions@ + sink(
                    kinds,
                    all.skip(i as int),
                    last_side_effects_enabled_instruction,
                ),
                forall|k: int| 0 <= k < new_instructions@.len() ==> (#[trigger] new_instructions@[k]).0 < bound,
                last_side_effects_enabled_instruction matches Some(marker) ==> marker.0 < bound,
            decreases all.len() - i,
        {
            let instruction_id = instructions[i];
            let ghost pending = last_side_effects_enabled_instruction;
            let ghost put_out = new_instructions@;
            proof {
                assert(all.skip(i as int)[0] == instruction_id);
                assert(all.skip(i as int).drop_first() =~= all.skip(i + 1));
                assert(instruction_id.0 < bound);
            }
            match function.instruction_kind(instruction_id) {
                // If we're seeing a marker with the constant true then we want to insert it
                // immediately. This is because we want to maximize the effect it will have.
                InstructionKind::EnableAlways => {
                    new_instructions.push(instruction_id);
                    last_side_effects_enabled_instruction = None;
                },
                // If we run into another marker before encountering any instructions with
                // side effects then we can drop the marker we're holding and continue with
                // the new one.
                InstructionKind::EnableIf => {
                    last_side_effects_enabled_instruction = Some(instruction_id);
                },
                // If we hit an instruction with side effects then we must insert the marker
                // before we insert this new instruction.
                InstructionKind::Guarded => {
                    match last_side_effects_enabled_instruction {
                        Some(enable_side_effects_instruction_id) => {
                            new_instructions.push(enable_side_effects_instruction_id);
                        },
                        None => {},
                    }
                    last_side_effects_enabled_instruction = None;
                    new_instructions.push(instruction_id);
                },
                InstructionKind::Transparent => {
                    new_instructions.push(instruction_id);
                },
            }
            proof {
                assert(new_instructions@ =~= put_out + sink_one(kinds, pending, instruction_id));
                assert(last_side_effects_enabled_instruction == pending_after_one(
                    kinds,
                    pending,
                    instruction_id,
                ));
                assert(sink(kinds, all, None) =~= new_instructions@ + sink(
                    kinds,
                    all.skip(i + 1),
                    last_side_effects_enabled_instruction,
                ));
            }
            i = i + 1;
        }
        assert(sink(kinds, all, None) =~= new_instructions@);

        let mut successors = function.successors(block);
        function.set_block_instructions(block, new_instructions);

        self.block_queue.append(&mut successors);
    }
}

impl Default for Context {
    /// A state in which no block was worked on and none waits.
    fn default() -> (context: Self)
        ensures
            context.visited() == Set::<usize>::empty(),
            context.queue() == Seq::<BasicBlockId>::empty(),
    {
        Context::new()
    }
}

/// What holds of a function and the state of the pass while the pass runs
/// over what `before` was: the blocks worked on hold their sunk markers and
/// the others are untouched, every block worked on or waiting can be
/// reached, and every edge from a block worked on is followed.
spec fn in_progress(before: FunctionView, function: FunctionView, context: Context) -> bool {
    let successors = before.successors();
    let entry = before.entry_block;
    &&& before.wf()
    &&& function.wf()
    &&& function.entry_block == entry
    &&& function.instructions == before.instructions
    &&& function.values == before.values
    &&& function.blocks.len() == before.blocks.len()
    &&& forall|b: int|
        0 <= b < before.blocks.len() ==> #[trigger] function.blocks[b] == if context.visited().contains(
            b as usize,
        ) {
            processed_block(before, b)
        } else {
            before.blocks[b]
        }
    &&& forall|v: usize| #[trigger]
        context.visited().contains(v) ==> v < before.blocks.len() && reachable(
            entry,
            successors,
            BasicBlockId(v),
        )
    &&& forall|i: int|
        0 <= i < context.queue().len() ==> (#[trigger] context.queue()[i]).0 < before.blocks.len()
            && reachable(entry, successors, context.queue()[i])
    &&& edges_followed(successors, context.visited(), context.queue())
    &&& context.visited().contains(entry.0) || context.queue().contains(entry)
}

/// Sinks the markers in every block of `function` that can be reached from
/// its entry.
pub fn remove_enable_side_effects(function: &mut Function)
    requires
        old(function)@.wf(),
    ensures
        final(function)@.wf(),
        final(function)@ == sunk(old(function)@),
{
    let ghost before = function@;
    let ghost successors = before.successors();
    let ghost entry = before.entry_block;
    let mut context = Context::default();
    context.block_queue.push(function.entry_block());
    let ghost mut unvisited: Set<int> = set_int_range(0, before.blocks.len() as int);
    proof {
        lemma_int_range(0, before.blocks.len() as int);
        lemma_entry_reachable(entry, successors);
        assert(context.queue()[0] == entry);
    }

    while context.block_queue.len() > 0
        invariant
            before == old(function)@,
            successors == before.successors(),
            entry == before.entry_block,
            in_progress(before, function@, context),
            unvisited.finite(),
            forall|b: int|
                unvisited.contains(b) <==> 0 <= b < before.blocks.len() && !context.visited().contains(
                    b as usize,
                ),
        decreases unvisited.len(), context.block_queue.len(),
    {
        let ghost queue_before = context.queue();
        let ghost visited_before = context.visited();
        let block = context.block_queue.pop().unwrap();
        proof {
            assert(queue_before[queue_before.len() - 1] == block);
            assert(context.queue() =~= queue_before.drop_last());
            // Whatever waited still waits, or is the block taken now.
            assert forall|other: BasicBlockId| queue_before.contains(other) implies context.queue().contains(
                other,
            ) || other == block by {
                let k = choose|k: int| 0 <= k < queue_before.len() && queue_before[k] == other;
                if k < queue_before.len() - 1 {
                    assert(context.queue()[k] == other);
                }
            }
            assert forall|i: int| 0 <= i < context.queue().len() implies (#[trigger] context.queue()[i]).0
                < before.blocks.len() && reachable(entry, successors, context.queue()[i]) by {
                assert(context.queue()[i] == queue_before[i]);
            }
        }
        if !context.visited_blocks.contains(&block.0) {
            context.visited_blocks.insert(block.0);
            assert(context.visited() == visited_before.insert(block.0));
            let ghost function_before = function@;
            let ghost queue_popped = context.queue();
            proof {
                assert(function_before.kinds() == before.kinds());
                assert(function_before.blocks[block.0 as int] == before.blocks[block.0 as int]);
                assert(unvisited.contains(block.0 as int));
                unvisited = unvisited.remove(block.0 as int);
            }
            context.remove_enable_side_effects_in_block(function, block);
            proof {
                let added = before.blocks[block.0 as int].successors();
                assert(successors[block.0 as int] == added);
                assert(context.queue() == queue_popped + added);
                assert forall|other: BasicBlockId| queue_popped.contains(other) implies context.queue().contains(
                    other,
                ) by {
                    let k = choose|k: int| 0 <= k < queue_popped.len() && queue_popped[k] == other;
                    assert(context.queue()[k] == other);
                }
                assert forall|j: int| 0 <= j < added.len() implies context.queue().contains(
                    #[trigger] added[j],
                ) by {
                    assert(context.queue()[queue_popped.len() + j] == added[j]);
                }
                assert forall|i: int| 0 <= i < context.queue().len() implies (
                #[trigger] context.queue()[i]).0 < before.blocks.len() && reachable(
                    entry,
                    successors,
                    context.queue()[i],
                ) by {
                    if i < queue_popped.len() {
                        assert(context.queue()[i] == queue_popped[i]);
                    } else {
                        let j = i - queue_popped.len();
                        assert(context.queue()[i] == added[j]);
                        assert(added.contains(added[j]));
                        lemma_reachable_step(entry, successors, block, added[j]);
                        assert(before.blocks[block.0 as int].successors()[j].0 < before.blocks.len());
                    }
                }
                assert forall|b: int| 0 <= b < before.blocks.len() implies #[trigger] function@.blocks[b]
                    == if context.visited().contains(b as usize) {
                    processed_block(before, b)
                } else {
                    before.blocks[b]
                } by {
                    if b != block.0 {
                        assert(function@.blocks[b] == function_before.blocks[b]);
                    }
                }
                assert(edges_followed(successors, context.visited(), context.queue())) by {
                    assert forall|v: int, j: int|
                        0 <= v < successors.len() && context.visited().contains(v as usize) && 0 <= j
                            < successors[v].len() implies {
                        let next = #[trigger] successors[v][j];
                        context.visited().contains(next.0) || context.queue().contains(next)
                    } by {
                        let next = successors[v][j];
                        if v != block.0 {
                            assert(visited_before.contains(v as usize));
                            assert(visited_before.contains(next.0) || queue_before.contains(next));
                        }
                    }
                }
            }
        } else {
            proof {
                assert(edges_followed(successors, context.visited(), context.queue())) by {
                    assert forall|v: int, j: int|
                        0 <= v < successors.len() && context.visited().contains(v as usize) && 0 <= j
                            < successors[v].len() implies {
                        let next = #[trigger] successors[v][j];
                        context.visited().contains(next.0) || context.queue().contains(next)
                    } by {
                        let next = successors[v][j];
                        assert(visited_before.contains(next.0) || queue_before.contains(next));
                    }
                }
            }
        }
    }
    proof {
        assert(context.queue() =~= Seq::<BasicBlockId>::empty());
        assert(!context.queue().contains(entry));
        let after = sunk(before);
        assert forall|b: int| 0 <= b < before.blocks.len() implies function@.blocks[b]
            == after.blocks[b] by {
            let block = BasicBlockId(b as usize);
            if reachable(entry, successors, block) {
                let path = choose|path: Seq<BasicBlockId>| #[trigger]
                    is_path(entry, successors, path) && path.last() == block;
                lemma_closed_set_holds_paths(entry, successors, context.visited(), path, path.len() - 1);
            }
        }
        assert(function@.blocks =~= after.blocks);
    }
}

impl Ssa {
    /// Sinks the markers in every function of the program.
    pub fn remove_enable_side_effects(self) -> (ssa: Ssa)
        requires
            forall|i: int| 0 <= i < self.functions@.len() ==> (#[trigger] self.functions@[i])@.wf(),
        ensures
            ssa.functions@.len() == self.functions@.len(),
            forall|i: int|
                0 <= i < self.functions@.len() ==> (#[trigger] ssa.functions@[i])@ == sunk(
                    self.functions@[i]@,
                ),
    {
        let mut ssa = self;
        let mut i: usize = 0;
        while i < ssa.functions.len()
            invariant
                i <= ssa.functions@.len(),
                ssa.functions@.len() == self.functions@.len(),
                forall|k: int| 0 <= k < self.functions@.len() ==> (#[trigger] self.functions@[k])@.wf(),
                forall|k: int| 0 <= k < i ==> (#[trigger] ssa.functions@[k])@ == sunk(self.functions@[k]@),
                forall|k: int|
                    i <= k < self.functions@.len() ==> #[trigger] ssa.functions@[k] == self.functions@[k],
            decreases ssa.functions@.len() - i,
        {
            remove_enable_side_effects(&mut ssa.functions[i]);
            i = i + 1;
        }
        ssa
    }
}

} // verus!
