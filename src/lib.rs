//! Contiguous growable sequences with a fixed small capacity `C` and, for
//! [`BankVec`], a spill onto a larger buffer past it.
//!
//! [`BankArr<T, C>`] never holds more than `C` elements. [`BankVec<T, C>`]
//! is in one of two modes: inline, with room for exactly `C` elements, or
//! spilled, with a heap buffer of a recorded capacity above `C`. It spills
//! once it needs more room than it has and stays spilled until asked to
//! move back.
//!
//! The elements are kept in a `Vec` in both modes: the inline mode is a
//! buffer reserved once for `C` slots, not storage inside the value, so
//! even a small bank allocates. What the modes decide is the capacity the
//! bank reports and when it grows. The recorded heap capacity is the size
//! that was asked for; the `Vec` underneath may hold more.
//!
//! Both types hand out a run of their elements through a [`Drain`], built
//! by one algorithm over the [`Drainable`] capability.
pub mod allocation;
pub mod bankarray;
pub mod bankvec;
pub mod capacity;
pub mod drain;
pub mod elements;
pub mod errors;

pub use bankarray::BankArr;
pub use bankvec::BankVec;
pub use drain::{Drain, DrainRange, Drainable, RangeBound};
pub use errors::{AllocErr, BankFullError};
