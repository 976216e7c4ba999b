//! The artifact under construction: the opcodes emitted so far, the labels
//! bound to positions among them, and the jumps whose targets are filled in
//! when the artifact is linked.

use crate::brillig::opcodes::{opcode_views, Opcode, OpcodeView};
use vstd::hash_map::StringHashMap;
use vstd::prelude::*;

verus! {

/// What stops the bytecode of a function from being built.
#[derive(Clone, Copy, Debug, PartialEq, Eq)]
pub enum BrilligError {
    /// An operation was given another number of operands than it takes.
    MalformedOperands,
    /// A jump names a label that no position was bound to.
    UnresolvedLabel,
    /// A label was bound a second time.
    DuplicateLabel,
}

/// Where a jump goes, before linking.
#[derive(Clone, Debug, PartialEq, Eq)]
pub enum UnresolvedJumpLocation {
    /// To the position that the label is bound to.
    Label(String),
    /// To the position this many opcodes after the jump's own; before it if
    /// negative.
    Relative(i32),
}

/// Where a jump goes, before linking, with the label as a sequence.
pub enum JumpLocationView {
    Label(Seq<char>),
    Relative(int),
}

impl View for UnresolvedJumpLocation {
    type V = JumpLocationView;

    open spec fn view(&self) -> JumpLocationView {
        match *self {
            UnresolvedJumpLocation::Label(label) => JumpLocationView::Label(label@),
            UnresolvedJumpLocation::Relative(offset) => JumpLocationView::Relative(offset as int),
        }
    }
}

/// A jump that waits for its target: its position and where it goes.
pub type UnresolvedJump = (usize, JumpLocationView);

/// The views of a sequence of pending jumps.
pub open spec fn jump_views(jumps: Seq<(usize, UnresolvedJumpLocation)>) -> Seq<UnresolvedJump> {
    jumps.map_values(|jump: (usize, UnresolvedJumpLocation)| (jump.0, jump.1@))
}

/// The position that the jump at `position` goes to once `labels` are known.
pub open spec fn resolved_location(
    position: usize,
    target: JumpLocationView,
    labels: Map<Seq<char>, usize>,
) -> int {
    match target {
        JumpLocationView::Label(label) => labels[label] as int,
        JumpLocationView::Relative(offset) => position + offset,
    }
}

/// Whether the target of a pending jump can be resolved: a label is bound.
pub open spec fn is_bound(target: JumpLocationView, labels: Map<Seq<char>, usize>) -> bool {
    target matches JumpLocationView::Label(label) ==> labels.contains_key(label)
}

/// `opcodes` with the targets of the first `n` of `jumps` filled in.
pub open spec fn resolve_prefix(
    opcodes: Seq<OpcodeView>,
    jumps: Seq<UnresolvedJump>,
    labels: Map<Seq<char>, usize>,
    n: nat,
) -> Seq<OpcodeView>
    decreases n,
{
    if n == 0 {
        opcodes
    } else {
        let before = resolve_prefix(opcodes, jumps, labels, (n - 1) as nat);
        let (position, target) = jumps[n - 1];
        before.update(
            position as int,
            before[position as int].with_location(
                resolved_location(position, target, labels) as usize,
            ),
        )
    }
}

/// The opcodes of a function, with its labels and its pending jumps.
pub struct BrilligArtifact {
    byte_code: Vec<Opcode>,
    unresolved_jumps: Vec<(usize, UnresolvedJumpLocation)>,
    labels: StringHashMap<usize>,
}

impl BrilligArtifact {
    /// The opcodes emitted so far.
    pub closed spec fn opcodes(&self) -> Seq<OpcodeView> {
        opcode_views(self.byte_code@)
    }

    /// The jumps that wait for their targets, in the order they were emitted.
    pub closed spec fn unresolved(&self) -> Seq<UnresolvedJump> {
        jump_views(self.unresolved_jumps@)
    }

    /// The position that each label is bound to.
    pub closed spec fn labels(&self) -> Map<Seq<char>, usize> {
        self.labels@
    }

    /// Every pending jump stands at a position that holds a jump, later ones
    /// at later positions, and a relative target is a position that can be
    /// written down.
    pub open spec fn wf(&self) -> bool {
        &&& forall|i: int|
            0 <= i < self.unresolved().len() ==> {
                let (position, target) = #[trigger] self.unresolved()[i];
                &&& position < self.opcodes().len()
                &&& self.opcodes()[position as int].is_jump()
                &&& target is Relative ==> 0 <= resolved_location(position, target, self.labels())
                    <= usize::MAX
            }
        &&& forall|i: int, j: int|
            0 <= i < j < self.unresolved().len() ==> (#[trigger] self.unresolved()[i]).0 < (
            #[trigger] self.unresolved()[j]).0
    }

    /// Whether every label that a pending jump names is bound.
    pub open spec fn all_labels_bound(&self) -> bool {
        forall|i: int|
            0 <= i < self.unresolved().len() ==> is_bound(
                (#[trigger] self.unresolved()[i]).1,
                self.labels(),
            )
    }

    /// The opcodes with the target of every pending jump filled in.
    pub open spec fn linked(&self) -> Seq<OpcodeView> {
        resolve_prefix(self.opcodes(), self.unresolved(), self.labels(), self.unresolved().len())
    }

    /// The opcodes and the pending jumps can be counted by the machine, so
    /// the position of the next opcode is a number that it can hold.
    pub proof fn lemma_bounded(&self)
        ensures
            self.opcodes().len() <= usize::MAX,
            self.unresolved().len() <= usize::MAX,
    {
        assert(self.byte_code.len() == self.byte_code@.len());
        assert(self.unresolved_jumps.len() == self.unresolved_jumps@.len());
    }

    /// An artifact without opcodes, labels or jumps.
    pub fn new() -> (artifact: Self)
        ensures
            artifact.wf(),
            artifact.opcodes() == Seq::<OpcodeView>::empty(),
            artifact.unresolved() == Seq::<UnresolvedJump>::empty(),
            artifact.labels() == Map::<Seq<char>, usize>::empty(),
    {
        BrilligArtifact {
            byte_code: Vec::new(),
            unresolved_jumps: Vec::new(),
            labels: StringHashMap::new(),
        }
    }

    /// The opcodes emitted so far.
    pub fn byte_code(&self) -> (byte_code: &Vec<Opcode>)
        ensures
            opcode_views(byte_code@) == self.opcodes(),
    {
        &self.byte_code
    }

    /// The jumps that wait for their targets, each with the position it
    /// stands at.
    pub fn unresolved_jumps(&self) -> (jumps: &Vec<(usize, UnresolvedJumpLocation)>)
        ensures
            jump_views(jumps@) == self.unresolved(),
    {
        &self.unresolved_jumps
    }

    /// The position that the next opcode will stand at.
    pub fn index_of_next_opcode(&self) -> (index: usize)
        ensures
            index == self.opcodes().len(),
    {
        self.byte_code.len()
    }

    /// Appends `opcode`.
    pub fn push_opcode(&mut self, opcode: Opcode)
        requires
            old(self).wf(),
        ensures
            final(self).wf(),
            final(self).opcodes() == old(self).opcodes().push(opcode@),
            final(self).unresolved() == old(self).unresolved(),
            final(self).labels() == old(self).labels(),
    {
        self.byte_code.push(opcode);
        assert(opcode_views(self.byte_code@) =~= opcode_views(old(self).byte_code@).push(opcode@));
    }

    /// The position that `label` is bound to, if it is bound.
    pub fn label_position(&self, label: &str) -> (position: Option<usize>)
        ensures
            position == if self.labels().contains_key(label@) {
                Some(self.labels()[label@])
            } else {
                None
            },
    {
        match self.labels.get(label) {
            Some(position) => Some(*position),
            None => None,
        }
    }

    /// Binds `label` to `position`, unless it is bound already: a label is
    /// bound once.
    pub fn add_label_at_position(&mut self, label: String, position: usize) -> (result: Result<
        (),
        BrilligError,
    >)
        requires
            old(self).wf(),
        ensures
            final(self).wf(),
            final(self).opcodes() == old(self).opcodes(),
            final(self).unresolved() == old(self).unresolved(),
            old(self).labels().contains_key(label@) ==> result == Err::<(), BrilligError>(
                BrilligError::DuplicateLabel,
            ) && final(self).labels() == old(self).labels(),
            !old(self).labels().contains_key(label@) ==> result == Ok::<(), BrilligError>(())
                && final(self).labels() == old(self).labels().insert(label@, position),
    {
        if self.labels.contains_key(label.as_str()) {
            return Err(BrilligError::DuplicateLabel);
        }
        self.labels.insert(label, position);
        Ok(())
    }

    /// Appends the jump `jmp_instruction`, whose target is filled in when the
    /// artifact is linked: it will go to `destination`.
    pub fn add_unresolved_jump(&mut self, jmp_instruction: Opcode, destination: UnresolvedJumpLocation)
        requires
            old(self).wf(),
            jmp_instruction@.is_jump(),
            destination@ is Relative ==> 0 <= old(self).opcodes().len() + destination@->Relative_0
                <= usize::MAX,
        ensures
            final(self).wf(),
            final(self).opcodes() == old(self).opcodes().push(jmp_instruction@),
            final(self).unresolved() == old(self).unresolved().push(
                (old(self).opcodes().len() as usize, destination@),
            ),
            final(self).labels() == old(self).labels(),
    {
        let position: usize = self.byte_code.len();
        let ghost jump = (position, destination@);
        self.unresolved_jumps.push((position, destination));
        self.byte_code.push(jmp_instruction);
        proof {
            assert(opcode_views(self.byte_code@) =~= opcode_views(old(self).byte_code@).push(
                jmp_instruction@,
            ));
            assert(jump_views(self.unresolved_jumps@) =~= jump_views(
                old(self).unresolved_jumps@,
            ).push(jump));
            assert forall|i: int| 0 <= i < self.unresolved().len() implies {
                let (position, target) = #[trigger] self.unresolved()[i];
                &&& position < self.opcodes().len()
                &&& self.opcodes()[position as int].is_jump()
                &&& target is Relative ==> 0 <= resolved_location(position, target, self.labels())
                    <= usize::MAX
            } by {
                if i < old(self).unresolved().len() {
                    assert(self.unresolved()[i] == old(self).unresolved()[i]);
                }
            }
            assert forall|i: int, j: int| 0 <= i < j < self.unresolved().len() implies (
            #[trigger] self.unresolved()[i]).0 < (#[trigger] self.unresolved()[j]).0 by {
                assert(self.unresolved()[i] == old(self).unresolved()[i]);
                if j < old(self).unresolved().len() {
                    assert(self.unresolved()[j] == old(self).unresolved()[j]);
                }
            }
        }
    }

    /// Fills in the target of every pending jump and hands out the opcodes:
    /// a label gives the position it is bound to, a relative target the
    /// position that many opcodes from the jump. A label that is not bound
    /// stops the linking.
    pub fn link(self) -> (result: Result<Vec<Opcode>, BrilligError>)
        requires
            self.wf(),
        ensures
            result is Ok <==> self.all_labels_bound(),
            result matches Ok(byte_code) ==> opcode_views(byte_code@) == self.linked(),
            result matches Err(error) ==> error == BrilligError::UnresolvedLabel,
    {
        let mut byte_code = self.byte_code;
        let mut i: usize = 0;
        while i < self.unresolved_jumps.len()
            invariant
                self.wf(),
                i <= self.unresolved_jumps.len(),
                opcode_views(byte_code@) == resolve_prefix(
                    self.opcodes(),
                    self.unresolved(),
                    self.labels(),
                    i as nat,
                ),
                forall|k: int| 0 <= k < i ==> is_bound((#[trigger] self.unresolved()[k]).1, self.labels()),
            decreases self.unresolved_jumps.len() - i,
        {
            proof {
                lemma_resolve_prefix_keeps_shape(
                    self.opcodes(),
                    self.unresolved(),
                    self.labels(),
                    i as nat,
                );
            }
            let position: usize = self.unresolved_jumps[i].0;
            let ghost target = self.unresolved()[i as int].1;
            assert(self.unresolved()[i as int] == (position, self.unresolved_jumps[i as int].1@));
            let location: usize = match &self.unresolved_jumps[i].1 {
                UnresolvedJumpLocation::Label(label) => {
                    match self.labels.get(label.as_str()) {
                        Some(bound) => *bound,
                        None => {
                            assert(!is_bound(self.unresolved()[i as int].1, self.labels()));
                            return Err(BrilligError::UnresolvedLabel);
                        },
                    }
                },
                UnresolvedJumpLocation::Relative(offset) => {
                    let target_index: i128 = position as i128 + *offset as i128;
                    target_index as usize
                },
            };
            assert(location == resolved_location(position, target, self.labels()));
            let ghost before = byte_code@;
            match &byte_code[position] {
                Opcode::Jump { .. } => {
                    byte_code.set(position, Opcode::Jump { location });
                },
                Opcode::JumpIf { condition, .. } => {
                    let condition = *condition;
                    byte_code.set(position, Opcode::JumpIf { condition, location });
                },
                Opcode::JumpIfNot { condition, .. } => {
                    let condition = *condition;
                    byte_code.set(position, Opcode::JumpIfNot { condition, location });
                },
                _ => {},
            }
            assert(opcode_views(byte_code@) =~= opcode_views(before).update(
                position as int,
                opcode_views(before)[position as int].with_location(location),
            ));
            i = i + 1;
        }
        Ok(byte_code)
    }
}

impl Default for BrilligArtifact {
    /// An artifact without opcodes, labels or jumps.
    fn default() -> (artifact: Self)
        ensures
            artifact.wf(),
            artifact.opcodes() == Seq::<OpcodeView>::empty(),
            artifact.unresolved() == Seq::<UnresolvedJump>::empty(),
            artifact.labels() == Map::<Seq<char>, usize>::empty(),
    {
        BrilligArtifact::new()
    }
}

/// Filling in targets keeps the number of opcodes, and a position holds a
/// jump afterwards if and only if it did before.
pub proof fn lemma_resolve_prefix_keeps_shape(
    opcodes: Seq<OpcodeView>,
    jumps: Seq<UnresolvedJump>,
    labels: Map<Seq<char>, usize>,
    n: nat,
)
    requires
        n <= jumps.len(),
        forall|i: int| 0 <= i < n ==> (#[trigger] jumps[i]).0 < opcodes.len(),
    ensures
        resolve_prefix(opcodes, jumps, labels, n).len() == opcodes.len(),
        forall|p: int|
            0 <= p < opcodes.len() ==> (#[trigger] resolve_prefix(opcodes, jumps, labels, n)[p]).is_jump()
                == opcodes[p].is_jump(),
    decreases n,
{
    if n > 0 {
        lemma_resolve_prefix_keeps_shape(opcodes, jumps, labels, (n - 1) as nat);
    }
}

/// Filling in the first `n` targets leaves alone every position that none
/// of these jumps stands at, and gives the `k`-th of them, where no other
/// of them stands at its position, the location it resolves to.
pub proof fn lemma_resolve_prefix_at(
    opcodes: Seq<OpcodeView>,
    jumps: Seq<UnresolvedJump>,
    labels: Map<Seq<char>, usize>,
    n: nat,
    p: int,
)
    requires
        n <= jumps.len(),
        0 <= p < opcodes.len(),
        forall|i: int| 0 <= i < n ==> (#[trigger] jumps[i]).0 < opcodes.len(),
        forall|i: int, j: int| 0 <= i < j < n ==> (#[trigger] jumps[i]).0 < (#[trigger] jumps[j]).0,
    ensures
        (forall|i: int| 0 <= i < n ==> (#[trigger] jumps[i]).0 != p) ==> resolve_prefix(
            opcodes,
            jumps,
            labels,
            n,
        )[p] == opcodes[p],
        forall|k: int|
            0 <= k < n && (#[trigger] jumps[k]).0 == p ==> resolve_prefix(opcodes, jumps, labels, n)[p]
                == opcodes[p].with_location(
                resolved_location(jumps[k].0, jumps[k].1, labels) as usize,
            ),
    decreases n,
{
    if n > 0 {
        lemma_resolve_prefix_at(opcodes, jumps, labels, (n - 1) as nat, p);
        lemma_resolve_prefix_keeps_shape(opcodes, jumps, labels, (n - 1) as nat);
        let last = jumps[n - 1];
        if last.0 == p {
            assert forall|i: int| 0 <= i < n - 1 implies (#[trigger] jumps[i]).0 != p by {
                assert(jumps[i].0 < jumps[n - 1].0);
            }
        }
    }
}

/// What linking does, position by position: a pending jump gets the
/// location it resolves to, and every other opcode stays as it was.
pub proof fn lemma_linked_at(artifact: BrilligArtifact, p: int)
    requires
        artifact.wf(),
        0 <= p < artifact.opcodes().len(),
    ensures
        artifact.linked().len() == artifact.opcodes().len(),
        (forall|i: int| 0 <= i < artifact.unresolved().len() ==> (#[trigger] artifact.unresolved()[i]).0
            != p) ==> artifact.linked()[p] == artifact.opcodes()[p],
        forall|k: int|
            0 <= k < artifact.unresolved().len() && (#[trigger] artifact.unresolved()[k]).0 == p
                ==> artifact.linked()[p] == artifact.opcodes()[p].with_location(
                resolved_location(p as usize, artifact.unresolved()[k].1, artifact.labels()) as usize,
            ),
{
    lemma_resolve_prefix_keeps_shape(
        artifact.opcodes(),
        artifact.unresolved(),
        artifact.labels(),
        artifact.unresolved().len(),
    );
    lemma_resolve_prefix_at(
        artifact.opcodes(),
        artifact.unresolved(),
        artifact.labels(),
        artifact.unresolved().len(),
        p,
    );
}

} // verus!
