//! A compiler for a small definition language. Structs, enums, functions
//! and outputs are written as lists; the library reads them into typed
//! definitions, gathers them in an environment that is checked as a whole,
//! and generates C++ for them, keeping what was written by hand from one
//! run to the next.
//!
//! - [`lisp`]: the list tree that the definitions are read from.
//! - [`definition`]: the typed definitions and how each is read.
//! - [`env`]: the environment and its checks.
//! - [`compiler`]: the C++ that is generated.
//! - [`text`]: the operations on text that the above are stated over.
//!
//! Beside the compiler stand a few smaller parts: the framing of messages
//! on a stream ([`packet`]), the messages of a game ([`message`]), a small
//! intermediate representation with rules for its includes ([`ir`],
//! [`include_rules`]), and what tokens do to a stack of types ([`token`]).

pub mod compiler;
pub mod definition;
pub mod env;
pub mod include_rules;
pub mod ir;
pub mod lisp;
pub mod message;
pub mod packet;
pub mod text;
pub mod token;
