use vstd::prelude::*;

verus! {

/// The primitive surface the embedding supplies to the interpreter.
///
/// The core stores a Lox number as the 64 bits of an IEEE-754 double and
/// never interprets them itself: turning a numeric lexeme into bits,
/// arithmetic, ordering, double equality, rendering a number as text, and
/// the wall clock behind the native `clock` binding all go through an
/// implementation of this trait. Nothing is assumed about the results;
/// what the interpreter proves holds for every implementation.
pub trait LoxHost {
    /// The bits of the double denoted by a numeric lexeme, or `None` when
    /// the text is no number.
    fn num_parse(&self, text: &str) -> Option<u64>;

    /// The bits of the negated double.
    fn num_neg(&self, a: u64) -> u64;

    fn num_add(&self, a: u64, b: u64) -> u64;

    fn num_sub(&self, a: u64, b: u64) -> u64;

    fn num_mul(&self, a: u64, b: u64) -> u64;

    fn num_div(&self, a: u64, b: u64) -> u64;

    /// Double equality, not bit equality.
    fn num_eq(&self, a: u64, b: u64) -> bool;

    fn num_gt(&self, a: u64, b: u64) -> bool;

    fn num_ge(&self, a: u64, b: u64) -> bool;

    fn num_lt(&self, a: u64, b: u64) -> bool;

    fn num_le(&self, a: u64, b: u64) -> bool;

    /// The text a `print` statement shows for a number.
    fn num_to_text(&self, a: u64) -> String;

    /// Seconds since the epoch, as double bits, for the native `clock`.
    fn clock(&self) -> u64;
}

} // verus!
