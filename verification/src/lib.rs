//! Trace generation for a small stack machine over a prime field, together with the
//! round functions of the sponge that commits to the traces.
//!
//! Every operation of the machine is a transition from the register row of one step to
//! the row of the next, written so that a system of low-degree polynomial constraints
//! can later check the whole table. What cannot be written as one field operation
//! (an equality test, an order comparison, a binary decomposition) is carried by
//! witness values that the operations record next to the registers.
pub mod accumulator;
pub mod math;
pub mod stack;

