//! Core of a deterministic, register-based, gas-metered virtual machine for a
//! zkEVM-style execution environment.
//!
//! The crate models 256-bit machine words, fat pointers into paged heaps,
//! call frames with near- and far-call protocols, a transactional world
//! overlay with snapshot/rollback, and the predicated instruction dispatch
//! loop that drives them.

pub mod predication;
pub mod word;
pub mod word_mul;
pub mod word_div;
pub mod bitset;
pub mod fat_pointer;
pub mod heap;
pub mod program;
pub mod world;
pub mod callframe;
pub mod binop;
pub mod state;

pub use predication::{Flags, Predicate};
pub use word::U256;
pub use fat_pointer::FatPointer;
pub use program::{ExecutionEnd, Instruction, Panic, Program};
pub use state::State;
pub use world::{Address, World};
