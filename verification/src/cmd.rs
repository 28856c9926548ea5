pub mod delay;
pub mod eval;
pub mod run;
