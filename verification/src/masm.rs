//! The structure of Miden Assembly procedure bodies, as far as lowering needs to inspect it.

use vstd::prelude::*;

verus! {

/// The kind of a Miden Assembly instruction, as far as lowering distinguishes them.
#[derive(Debug, Clone, Copy, PartialEq, Eq)]
pub enum InstructionKind {
    /// A debug-variable decorator: it produces no MAST node.
    DebugVar,
    /// Any other instruction.
    Other,
}

/// An operation of a Miden Assembly block.
#[derive(Debug)]
pub enum Op {
    /// A single instruction.
    Inst(InstructionKind),
    /// A conditional.
    If {
        /// The block run when the condition holds.
        then_blk: Block,
        /// The block run otherwise.
        else_blk: Block,
    },
    /// A while loop.
    While {
        /// The loop body.
        body: Block,
    },
    /// A do-while loop.
    DoWhile {
        /// The loop body.
        body: Block,
        /// The block computing the loop condition.
        condition: Block,
    },
    /// A counted repetition.
    Repeat {
        /// The number of repetitions.
        count: u32,
        /// The repeated block.
        body: Block,
    },
}

/// A block of Miden Assembly operations.
#[derive(Debug)]
pub struct Block {
    /// The operations, in order.
    pub ops: Vec<Op>,
}

/// Whether an operation holds a real (non-decorator) instruction, at any depth.
pub open spec fn spec_op_has_real(op: Op) -> bool
    decreases op,
{
    match op {
        Op::Inst(kind) => !(kind is DebugVar),
        Op::If { then_blk, else_blk } => spec_ops_have_real(then_blk.ops@) || spec_ops_have_real(
            else_blk.ops@,
        ),
        Op::While { body } => spec_ops_have_real(body.ops@),
        Op::DoWhile { body, condition } => spec_ops_have_real(body.ops@) || spec_ops_have_real(
            condition.ops@,
        ),
        Op::Repeat { body, .. } => spec_ops_have_real(body.ops@),
    }
}

/// Whether a sequence of operations holds a real (non-decorator) instruction, at any depth.
pub open spec fn spec_ops_have_real(ops: Seq<Op>) -> bool
    decreases ops,
{
    if ops.len() == 0 {
        false
    } else {
        spec_ops_have_real(ops.drop_last()) || spec_op_has_real(ops.last())
    }
}

/// Whether some operation of `ops` holds a real instruction.
proof fn lemma_ops_have_real_exists(ops: Seq<Op>)
    ensures
        spec_ops_have_real(ops) <==> exists|i: int| 0 <= i < ops.len() && spec_op_has_real(
            #[trigger] ops[i],
        ),
    decreases ops.len(),
{
    if ops.len() > 0 {
        lemma_ops_have_real_exists(ops.drop_last());
        if spec_ops_have_real(ops.drop_last()) {
            let i = choose|i: int|
                0 <= i < ops.drop_last().len() && spec_op_has_real(#[trigger] ops.drop_last()[i]);
            assert(ops[i] == ops.drop_last()[i]);
        }
        if exists|i: int| 0 <= i < ops.len() && spec_op_has_real(#[trigger] ops[i]) {
            let i = choose|i: int| 0 <= i < ops.len() && spec_op_has_real(#[trigger] ops[i]);
            if i < ops.len() - 1 {
                assert(ops.drop_last()[i] == ops[i]);
            }
        }
    }
}

/// Returns true if the block contains at least one real (non-decorator) instruction.
///
/// DebugVar instructions are decorator-only and don't produce MAST nodes. If a procedure body
/// contains only DebugVar ops, the assembler will reject it.
pub fn block_has_real_instructions(block: &Block) -> (r: bool)
    ensures
        r == spec_ops_have_real(block.ops@),
    decreases block,
{
    proof {
        lemma_ops_have_real_exists(block.ops@);
    }
    let mut i: usize = 0;
    while i < block.ops.len()
        invariant
            i <= block.ops@.len(),
            spec_ops_have_real(block.ops@) <==> exists|j: int|
                0 <= j < block.ops@.len() && spec_op_has_real(#[trigger] block.ops@[j]),
            forall|j: int| 0 <= j < i ==> !spec_op_has_real(#[trigger] block.ops@[j]),
        decreases block.ops@.len() - i,
    {
        let op = &block.ops[i];
        assert(decreases_to!(block => block.ops@[i as int]));
        let has_real = match op {
            Op::Inst(kind) => !matches!(kind, InstructionKind::DebugVar),
            Op::If { then_blk, else_blk } => block_has_real_instructions(then_blk)
                || block_has_real_instructions(else_blk),
            Op::While { body } => block_has_real_instructions(body),
            Op::DoWhile { body, condition } => block_has_real_instructions(body)
                || block_has_real_instructions(condition),
            Op::Repeat { body, .. } => block_has_real_instructions(body),
        };
        assert(has_real == spec_op_has_real(block.ops@[i as int]));
        if has_real {
            return true;
        }
        i += 1;
    }
    false
}


/// An empty block holds no real instruction.
pub proof fn lemma_empty_block_has_no_real(ops: Seq<Op>)
    requires
        ops.len() == 0,
    ensures
        !spec_ops_have_real(ops),
{
}

/// A block holds a real instruction exactly when one of its operations does: splitting a block
/// anywhere, it holds one when either part does.
pub proof fn lemma_real_in_concatenation(a: Seq<Op>, b: Seq<Op>)
    ensures
        spec_ops_have_real(a + b) == (spec_ops_have_real(a) || spec_ops_have_real(b)),
{
    lemma_ops_have_real_exists(a);
    lemma_ops_have_real_exists(b);
    lemma_ops_have_real_exists(a + b);
    if spec_ops_have_real(a) {
        let i = choose|i: int| 0 <= i < a.len() && spec_op_has_real(#[trigger] a[i]);
        assert((a + b)[i] == a[i]);
    }
    if spec_ops_have_real(b) {
        let i = choose|i: int| 0 <= i < b.len() && spec_op_has_real(#[trigger] b[i]);
        assert((a + b)[a.len() + i] == b[i]);
    }
    if spec_ops_have_real(a + b) {
        let i = choose|i: int| 0 <= i < (a + b).len() && spec_op_has_real(#[trigger] (a + b)[i]);
        if i < a.len() {
            assert(a[i] == (a + b)[i]);
        } else {
            assert(b[i - a.len()] == (a + b)[i]);
        }
    }
}

/// A single instruction is real exactly when it is not a debug-variable decorator.
pub proof fn lemma_instruction_is_real(kind: InstructionKind)
    ensures
        spec_ops_have_real(seq![Op::Inst(kind)]) == (kind is Other),
{
    lemma_nested_blocks_count(Op::Inst(kind));
}

/// Nesting hides nothing: a conditional holds a real instruction exactly when either of its
/// branches does, a loop when its body (or, for a do-while loop, its condition) does, and a
/// repetition when its body does.
pub proof fn lemma_nested_blocks_count(op: Op)
    ensures
        spec_ops_have_real(seq![op]) == match op {
            Op::Inst(kind) => kind is Other,
            Op::If { then_blk, else_blk } => spec_ops_have_real(then_blk.ops@) || spec_ops_have_real(
                else_blk.ops@,
            ),
            Op::While { body } => spec_ops_have_real(body.ops@),
            Op::DoWhile { body, condition } => spec_ops_have_real(body.ops@) || spec_ops_have_real(
                condition.ops@,
            ),
            Op::Repeat { body, .. } => spec_ops_have_real(body.ops@),
        },
{
    assert(seq![op].drop_last() =~= Seq::<Op>::empty());
    assert(seq![op].last() == op);
    assert(!spec_ops_have_real(Seq::<Op>::empty()));
    assert(spec_ops_have_real(seq![op]) == (spec_ops_have_real(seq![op].drop_last())
        || spec_op_has_real(seq![op].last())));
}

/// Adding operations to a block never takes away its real instructions, and a real instruction
/// anywhere inside an added operation, in any branch or loop part, makes the block hold one.
pub proof fn lemma_real_anywhere_counts(ops: Seq<Op>, op: Op)
    ensures
        spec_ops_have_real(ops) ==> spec_ops_have_real(ops.push(op)),
        op matches Op::If { then_blk, else_blk } && (spec_ops_have_real(then_blk.ops@)
            || spec_ops_have_real(else_blk.ops@)) ==> spec_ops_have_real(ops.push(op)),
        op matches Op::DoWhile { body, condition } && (spec_ops_have_real(body.ops@)
            || spec_ops_have_real(condition.ops@)) ==> spec_ops_have_real(ops.push(op)),
        op matches Op::While { body } && spec_ops_have_real(body.ops@) ==> spec_ops_have_real(
            ops.push(op),
        ),
        op matches Op::Repeat { body, .. } && spec_ops_have_real(body.ops@) ==> spec_ops_have_real(
            ops.push(op),
        ),
        op matches Op::Inst(kind) && kind is Other ==> spec_ops_have_real(ops.push(op)),
{
    assert(ops.push(op) =~= ops + seq![op]);
    lemma_real_in_concatenation(ops, seq![op]);
    lemma_nested_blocks_count(op);
}

} // verus!
