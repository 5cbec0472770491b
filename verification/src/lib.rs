//! Core of a stack-based bytecode virtual machine for a dynamically-typed,
//! prototype-based scripting language.
//!
//! The crate provides the execution engine only: the tagged value model with
//! prototype-chained property lookup ([`value`], [`object`]), the per-activation
//! lexical environment ([`callobj`]), the bytecode dispatch loop with its
//! operand stack, scope stack and return history ([`vm`]), the hook points
//! through which a tracing JIT may substitute native execution ([`jit`]), and
//! the mark-and-sweep collector over the handle-based heap ([`heap`], [`gc`]).
//!
//! Numbers are modelled as 64-bit signed integers plus a distinct
//! not-a-number element (see [`number`]); the engine does not use
//! floating-point arithmetic. Host input and output stay outside the crate:
//! built-in printing functions append to a buffer owned by the machine.

pub mod binop;
pub mod builtins;
pub mod bytecode;
pub mod callobj;
pub mod error;
pub mod function;
pub mod gc;
pub mod heap;
pub mod jit;
pub mod node;
pub mod number;
pub mod object;
pub mod symbol;
pub mod value;
pub mod vm;
