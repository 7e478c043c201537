pub mod emit;
pub mod ir;
pub mod laws;
pub mod lower;
pub mod semantics;
