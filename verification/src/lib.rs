//! A small stack-based bytecode machine with an incremental word compiler.
//!
//! Words are read one at a time and either run at once or appended to the
//! function under definition. Native primitives and bytecode functions live
//! in one dictionary and are called the same way; the top-level loop is
//! itself a bytecode function.
//!
//! - [`function`]: functions and the dictionary.
//! - [`opcode`]: the instruction set.
//! - [`arith`]: arithmetic on stack values.
//! - [`text`]: numbers as text, and the texts that are written.
//! - [`vm`]: the machine and its instructions.
//! - [`input`]: the buffered words of the input.
//! - [`interpreter`]: word dispatch, definitions, and the step function.
//! - [`laws`], [`definitions`]: what is proved of all this.
//!
//! The library reads and prints nothing itself. Lines are handed to
//! [`interpreter::Interpreter::read_line`], and what was written is fetched
//! with [`interpreter::Interpreter::take_output`].

pub mod arith;
pub mod definitions;
pub mod function;
pub mod input;
pub mod interpreter;
pub mod laws;
pub mod opcode;
pub mod text;
pub mod vm;
