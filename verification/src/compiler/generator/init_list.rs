//! The instruction that makes a list of the topmost values of the stack.

use vstd::prelude::*;
use crate::compiler::VmOpCode;
use crate::compiler::opcode_byte;
use crate::compiler::generator::DumpBuilder;
use crate::compiler::generator::OpcodeGeneratorTrait;

verus! {

/// The generator of the instruction that makes a list of `argument_size`
/// values.
#[derive(Debug, Clone)]
pub struct InitListGenerator {
    pub argument_size: usize,
}

impl OpcodeGeneratorTrait for InitListGenerator {
    /// The opcode, then the number of items modulo 256.
    open spec fn bytes(&self) -> Seq<u8> {
        seq![opcode_byte(VmOpCode::InitList), (self.argument_size % 256) as u8]
    }

    open spec fn columns(&self) -> (Seq<char>, Seq<char>, Seq<char>) {
        (crate::text::natural_text(self.argument_size as nat), Seq::empty(), Seq::empty())
    }

    open spec fn opcode(&self) -> VmOpCode {
        VmOpCode::InitList
    }

    fn generate(&self, opcodes: &mut Vec<u8>) {
        opcodes.push(VmOpCode::InitList.into());
        opcodes.push((self.argument_size % 256) as u8);
        assert(final(opcodes)@ =~= old(opcodes)@ + self.bytes());
    }

    fn dump(&self, builder: &mut DumpBuilder, index: &mut usize, _opcodes: &Vec<u8>) {
        let opcode_index: usize = *index;
        *index = *index + 2;
        let mut size: String = String::new();
        crate::text::push_natural(&mut size, self.argument_size as u64);
        assert(size@ =~= crate::text::natural_text(self.argument_size as nat));
        builder.add(opcode_index, VmOpCode::InitList, size, String::new(), String::new());
    }
}

} // verus!
