use midenc::masm::{block_has_real_instructions, Block, InstructionKind, Op};

fn block(ops: Vec<Op>) -> Block {
    Block { ops }
}

#[test]
fn debug_vars_alone_are_not_real() {
    assert!(!block_has_real_instructions(&block(vec![])));
    assert!(!block_has_real_instructions(&block(vec![
        Op::Inst(InstructionKind::DebugVar),
        Op::Inst(InstructionKind::DebugVar)
    ])));
    assert!(block_has_real_instructions(&block(vec![
        Op::Inst(InstructionKind::DebugVar),
        Op::Inst(InstructionKind::Other)
    ])));
}

#[test]
fn nested_blocks_are_searched() {
    let only_debug = Op::If {
        then_blk: block(vec![Op::Inst(InstructionKind::DebugVar)]),
        else_blk: block(vec![Op::Repeat { count: 3, body: block(vec![]) }]),
    };
    assert!(!block_has_real_instructions(&block(vec![only_debug])));
    let nested = Op::While {
        body: block(vec![Op::DoWhile {
            body: block(vec![Op::Inst(InstructionKind::DebugVar)]),
            condition: block(vec![Op::Inst(InstructionKind::Other)]),
        }]),
    };
    assert!(block_has_real_instructions(&block(vec![Op::Inst(InstructionKind::DebugVar), nested])));
}
