//! A stepped interpreter for the eight-instruction tape language: programs with
//! precomputed loop targets, a single-step transition over a byte tape, and
//! read-only views of the machine state.

pub mod interpreter;
pub mod interpreter_impl;
pub mod interpreters;
