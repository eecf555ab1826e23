//! Small classic programs, each with a machine-checked contract.
//!
//! The centrepiece is [`maze`], a generator of square wall mazes. Around it
//! stand a handful of independent pastimes: a Caesar cipher, a prime table,
//! FizzBuzz, coin change, a multiplication table, dice, bingo cards and a
//! big power.

pub mod bingo;
pub mod caesar;
pub mod coins;
pub mod dice;
pub mod fizzbuzz;
pub mod maze;
pub mod power;
pub mod primes;
pub mod random;
pub mod text;
pub mod times_table;
