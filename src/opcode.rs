//! Mnemonics of instruction words, for tracing what a program runs.
//!
//! The table lists each instruction pattern with the bits that carry its
//! operands; a word matches an entry when it equals the entry's pattern once
//! those bits are cleared. Entries are tried in order, so the screen-clear and
//! return words are found before the machine-code call pattern that also
//! covers them.

use vstd::prelude::*;

verus! {

/// Entries of the mnemonic table.
pub const OP_CODE_COUNT: usize = 35;

/// One entry of the mnemonic table.
#[derive(Clone, Copy, Debug)]
pub struct OpCode {
    /// The word with every operand bit clear.
    pub opcode: u16,
    /// The bits of the word that carry operands.
    pub param_mask: u16,
    /// How the instruction is written.
    pub mnemonic: &'static str,
}

/// Whether `word` is an instance of the pattern of `op`.
pub open spec fn op_code_matches(op: OpCode, word: u16) -> bool {
    word & !op.param_mask == op.opcode
}

/// The mnemonic table.
pub open spec fn op_code_table() -> Seq<OpCode> {
    seq![
        OpCode { opcode: 0x00E0, param_mask: 0x0000, mnemonic: "CLS" },
        OpCode { opcode: 0x00EE, param_mask: 0x0000, mnemonic: "RET" },
        OpCode { opcode: 0x0000, param_mask: 0x0FFF, mnemonic: "SYS" },
        OpCode { opcode: 0x1000, param_mask: 0x0FFF, mnemonic: "JP" },
        OpCode { opcode: 0x2000, param_mask: 0x0FFF, mnemonic: "CALL" },
        OpCode { opcode: 0x3000, param_mask: 0x0FFF, mnemonic: "SE" },
        OpCode { opcode: 0x4000, param_mask: 0x0FFF, mnemonic: "SNE" },
        OpCode { opcode: 0x5000, param_mask: 0x0FF0, mnemonic: "SE" },
        OpCode { opcode: 0x6000, param_mask: 0x0FFF, mnemonic: "LD" },
        OpCode { opcode: 0x7000, param_mask: 0x0FFF, mnemonic: "ADD" },
        OpCode { opcode: 0x8000, param_mask: 0x0FF0, mnemonic: "LD" },
        OpCode { opcode: 0x8001, param_mask: 0x0FF0, mnemonic: "OR" },
        OpCode { opcode: 0x8002, param_mask: 0x0FF0, mnemonic: "AND" },
        OpCode { opcode: 0x8003, param_mask: 0x0FF0, mnemonic: "XOR" },
        OpCode { opcode: 0x8004, param_mask: 0x0FF0, mnemonic: "ADD" },
        OpCode { opcode: 0x8005, param_mask: 0x0FF0, mnemonic: "SUB" },
        OpCode { opcode: 0x8006, param_mask: 0x0FF0, mnemonic: "SHR" },
        OpCode { opcode: 0x8007, param_mask: 0x0FF0, mnemonic: "SUBN" },
        OpCode { opcode: 0x800E, param_mask: 0x0FF0, mnemonic: "SHL" },
        OpCode { opcode: 0x9000, param_mask: 0x0FF0, mnemonic: "SNE" },
        OpCode { opcode: 0xA000, param_mask: 0x0FFF, mnemonic: "LD" },
        OpCode { opcode: 0xB000, param_mask: 0x0FFF, mnemonic: "JP" },
        OpCode { opcode: 0xC000, param_mask: 0x0FFF, mnemonic: "RND" },
        OpCode { opcode: 0xD000, param_mask: 0x0FFF, mnemonic: "DRW" },
        OpCode { opcode: 0xE09E, param_mask: 0x0F00, mnemonic: "SKP" },
        OpCode { opcode: 0xE0A1, param_mask: 0x0F00, mnemonic: "SKNP" },
        OpCode { opcode: 0xF007, param_mask: 0x0F00, mnemonic: "LD" },
        OpCode { opcode: 0xF00A, param_mask: 0x0F00, mnemonic: "LD" },
        OpCode { opcode: 0xF015, param_mask: 0x0F00, mnemonic: "LD" },
        OpCode { opcode: 0xF018, param_mask: 0x0F00, mnemonic: "LD" },
        OpCode { opcode: 0xF01E, param_mask: 0x0F00, mnemonic: "ADD" },
        OpCode { opcode: 0xF029, param_mask: 0x0F00, mnemonic: "LD" },
        OpCode { opcode: 0xF033, param_mask: 0x0F00, mnemonic: "LD" },
        OpCode { opcode: 0xF055, param_mask: 0x0F00, mnemonic: "LD" },
        OpCode { opcode: 0xF065, param_mask: 0x0F00, mnemonic: "LD" },
    ]
}

impl OpCode {
    /// An entry for the words that equal `opcode` outside `param_mask`.
    pub fn new(opcode: u16, param_mask: u16, mnemonic: &'static str) -> (r: OpCode)
        ensures
            r == (OpCode { opcode, param_mask, mnemonic }),
    {
        OpCode { opcode, param_mask, mnemonic }
    }

    /// Whether `word` is an instance of this entry's pattern.
    pub fn matches(&self, word: u16) -> (r: bool)
        ensures
            r == op_code_matches(*self, word),
    {
        word & !self.param_mask == self.opcode
    }
}

/// The mnemonic table, in lookup order.
pub fn op_codes() -> (table: Vec<OpCode>)
    ensures
        table@ == op_code_table(),
{
    let mut table: Vec<OpCode> = Vec::new();
    table.push(OpCode::new(0x00E0, 0x0000, "CLS"));
    table.push(OpCode::new(0x00EE, 0x0000, "RET"));
    table.push(OpCode::new(0x0000, 0x0FFF, "SYS"));
    table.push(OpCode::new(0x1000, 0x0FFF, "JP"));
    table.push(OpCode::new(0x2000, 0x0FFF, "CALL"));
    table.push(OpCode::new(0x3000, 0x0FFF, "SE"));
    table.push(OpCode::new(0x4000, 0x0FFF, "SNE"));
    table.push(OpCode::new(0x5000, 0x0FF0, "SE"));
    table.push(OpCode::new(0x6000, 0x0FFF, "LD"));
    table.push(OpCode::new(0x7000, 0x0FFF, "ADD"));
    table.push(OpCode::new(0x8000, 0x0FF0, "LD"));
    table.push(OpCode::new(0x8001, 0x0FF0, "OR"));
    table.push(OpCode::new(0x8002, 0x0FF0, "AND"));
    table.push(OpCode::new(0x8003, 0x0FF0, "XOR"));
    table.push(OpCode::new(0x8004, 0x0FF0, "ADD"));
    table.push(OpCode::new(0x8005, 0x0FF0, "SUB"));
    table.push(OpCode::new(0x8006, 0x0FF0, "SHR"));
    table.push(OpCode::new(0x8007, 0x0FF0, "SUBN"));
    table.push(OpCode::new(0x800E, 0x0FF0, "SHL"));
    table.push(OpCode::new(0x9000, 0x0FF0, "SNE"));
    table.push(OpCode::new(0xA000, 0x0FFF, "LD"));
    table.push(OpCode::new(0xB000, 0x0FFF, "JP"));
    table.push(OpCode::new(0xC000, 0x0FFF, "RND"));
    table.push(OpCode::new(0xD000, 0x0FFF, "DRW"));
    table.push(OpCode::new(0xE09E, 0x0F00, "SKP"));
    table.push(OpCode::new(0xE0A1, 0x0F00, "SKNP"));
    table.push(OpCode::new(0xF007, 0x0F00, "LD"));
    table.push(OpCode::new(0xF00A, 0x0F00, "LD"));
    table.push(OpCode::new(0xF015, 0x0F00, "LD"));
    table.push(OpCode::new(0xF018, 0x0F00, "LD"));
    table.push(OpCode::new(0xF01E, 0x0F00, "ADD"));
    table.push(OpCode::new(0xF029, 0x0F00, "LD"));
    table.push(OpCode::new(0xF033, 0x0F00, "LD"));
    table.push(OpCode::new(0xF055, 0x0F00, "LD"));
    table.push(OpCode::new(0xF065, 0x0F00, "LD"));
    assert(table@ =~= op_code_table());
    table
}

/// The position of the first entry of `table` whose pattern `word` matches.
pub fn find_op_code(table: &Vec<OpCode>, word: u16) -> (r: Option<usize>)
    ensures
        match r {
            Some(i) => {
                &&& i < table@.len()
                &&& op_code_matches(table@[i as int], word)
                &&& forall|j: int| 0 <= j < i ==> !op_code_matches(#[trigger] table@[j], word)
            },
            None => forall|j: int|
                0 <= j < table@.len() ==> !op_code_matches(#[trigger] table@[j], word),
        },
{
    let mut i: usize = 0;
    while i < table.len()
        invariant
            i <= table@.len(),
            forall|j: int| 0 <= j < i ==> !op_code_matches(#[trigger] table@[j], word),
        decreases table@.len() - i,
    {
        if table[i].matches(word) {
            return Some(i);
        }
        i += 1;
    }
    None
}

} // verus!
