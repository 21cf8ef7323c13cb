//! Textbook containers with machine-checked contracts: a directed graph kept
//! in an arena, a list, a stack, a queue and a slot-indexed hash table.

pub mod graph;
pub mod hash_table;
pub mod list;
pub mod queue;
pub mod stack;
