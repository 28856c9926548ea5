//! A usage-policy engine for supervised applications: it decides, from how
//! long an app has been running, which operator-defined hooks to fire and
//! whether a usage condition holds.
//!
//! The engine has three parts. A condition language
//! ([`expressions::parser`]) turns text such as
//! `atmost 10 m in sliding 1 h and not Sun` into a tree; its grammar is
//! specified as functions over character sequences, the parser is proved
//! to implement exactly that specification, and [`expressions::laws`]
//! proves the grammar's laws. An evaluator ([`expressions`]) resolves a
//! tree against an instant of the local calendar ([`calendar`]) and a
//! usage ledger ([`ledger`], with a SQLite-backed store in [`db`]). A
//! scheduler ([`schedule`]) decides, once per tick, which hooks are due
//! and when each fires next; [`cmd::run`] drives a whole supervised run as
//! a state machine whose outside work - spawning and waiting - is left to
//! the caller.
pub mod calendar;
pub mod cmd;
pub mod config;
pub mod db;
pub mod expressions;
pub mod ledger;
pub mod schedule;
pub mod text;
