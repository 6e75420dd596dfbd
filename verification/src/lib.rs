//! Programming of flash memory through a flash algorithm, a blob of routines that is loaded
//! into the RAM of a target and called there, one routine at a time.
//!
//! The crate decides what is said to the target and what its replies mean. It does not talk to
//! the target itself: each operation is a [`procedure::Procedure`], which names the next
//! command and is handed the reply, until it is finished.

pub mod active;
pub mod bytes;
pub mod config;
pub mod course;
pub mod disassembly;
pub mod effects;
pub mod error;
pub mod flasher;
pub mod laws;
pub mod machine;
pub mod operation;
pub mod parts;
pub mod procedure;
pub mod target;
