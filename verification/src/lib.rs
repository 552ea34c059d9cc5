//! A two-pass assembler for a small virtual CPU with sixteen registers,
//! sixteen-bit instruction words and room for thirty-two instructions.
//!
//! Source text is split into token lines, label definitions are bound to
//! the address of the instruction that follows them, every instruction is
//! packed into one word, and the finished image is laid out as big-endian
//! bytes. Every error is fatal: the first one found ends the run.

pub mod emitter;
pub mod encoder;
pub mod error;
pub mod isa;
pub mod labels;
pub mod register;
pub mod source;
pub mod text;
pub mod tokenizer;
