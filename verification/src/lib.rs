//! Two small console exercises, with the console taken away: a reporter of
//! Fibonacci numbers and a number-guessing game. Each takes the lines a user
//! typed and says what is to be printed and whether the process ends.

pub mod decimal;
pub mod fib;
pub mod guess;
pub mod reporter;
pub mod trim;
