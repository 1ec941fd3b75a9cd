pub mod memory;
pub mod ret_opcode;
