//! What the commands of the program decide.

pub mod check;
