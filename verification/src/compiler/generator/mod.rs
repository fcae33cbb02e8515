//! The generators that write single instructions.

use vstd::prelude::*;
use crate::compiler::VmOpCode;

pub mod init_list;

verus! {

/// One row of a listing of the byte code: where the instruction stands,
/// which one it is, and up to three columns of operands.
#[derive(Debug, PartialEq)]
pub struct DumpItem {
    pub index: usize,
    pub opcode: VmOpCode,
    pub column1: String,
    pub column2: String,
    pub column3: String,
}

/// A listing of the byte code, row by row.
pub struct DumpBuilder {
    pub rows: Vec<DumpItem>,
}

impl DumpBuilder {
    /// An empty listing.
    pub fn new() -> (builder: DumpBuilder)
        ensures
            builder.rows@.len() == 0,
    {
        DumpBuilder { rows: Vec::new() }
    }

    /// Adds a row at the end of the listing.
    pub fn add(&mut self, index: usize, opcode: VmOpCode, column1: String, column2: String, column3: String)
        ensures
            final(self).rows@ == old(self).rows@.push(
                DumpItem { index, opcode, column1, column2, column3 },
            ),
    {
        self.rows.push(DumpItem { index, opcode, column1, column2, column3 });
    }
}

/// What a generator of one instruction can do: write its bytes, and add its
/// row to a listing.
pub trait OpcodeGeneratorTrait {
    /// The bytes of the instruction.
    spec fn bytes(&self) -> Seq<u8>;

    /// The operand columns of the instruction in a listing.
    spec fn columns(&self) -> (Seq<char>, Seq<char>, Seq<char>);

    /// The opcode of the instruction.
    spec fn opcode(&self) -> VmOpCode;

    /// Appends the bytes of the instruction.
    fn generate(&self, opcodes: &mut Vec<u8>)
        ensures
            final(opcodes)@ == old(opcodes)@ + self.bytes(),
    ;

    /// Adds the row of the instruction, which stands at `index`, and moves
    /// `index` behind the instruction.
    fn dump(&self, builder: &mut DumpBuilder, index: &mut usize, opcodes: &Vec<u8>)
        requires
            *old(index) + self.bytes().len() <= usize::MAX,
        ensures
            *final(index) == *old(index) + self.bytes().len(),
            final(builder).rows@.len() == old(builder).rows@.len() + 1,
            final(builder).rows@.take(old(builder).rows@.len() as int) == old(builder).rows@,
            final(builder).rows@.last().index == *old(index),
            final(builder).rows@.last().opcode == self.opcode(),
            final(builder).rows@.last().column1@ == self.columns().0,
            final(builder).rows@.last().column2@ == self.columns().1,
            final(builder).rows@.last().column3@ == self.columns().2,
    ;
}

} // verus!
