//! A two-pass assembler for a small register machine, and the virtual machine
//! that runs the images it produces.
//!
//! The assembler turns source text into a byte image: a fixed header followed
//! by four bytes for every instruction. The virtual machine loads such an
//! image and interprets it one instruction at a time.
//!
//! - [`instruction`] holds the opcodes with their codes and mnemonics.
//! - [`assembler`] holds the grammar of the source text, the symbol table,
//!   the encoder and the two passes.
//! - [`vm`] holds the machine.
//! - [`hex`] reads bytes typed in hexadecimal.
//! - [`laws`] states what holds of the assembler and the machine together.
//!
//! Nothing in the library reads or writes a file or a terminal. What a
//! program prints is collected in the machine for the caller to write out,
//! with a note of every string that could not be decoded, and the read-only
//! data of a program is handed from the assembler to the machine by the
//! caller.

pub mod assembler;
pub mod hex;
pub mod instruction;
pub mod laws;
pub mod vm;
mod text;
