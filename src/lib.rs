//! A size-class allocator engine over one reserved address range.
//!
//! The engine keeps all of its bookkeeping as plain addresses: the three
//! cursors over the reserved range, one free list per size class and the
//! commit strategy that last worked. It never touches memory itself: every
//! operation answers with the step that the caller carries out against the
//! operating system (commit pages, write a header word, map or unmap a
//! region), so that each decision can be stated and proved on its own.
use vstd::prelude::*;

pub mod layout;
pub mod strategy;
pub mod heap;
