//! Encoding of workflow commands: the lines that a job step prints so that
//! the orchestrator watching its output sets variables, masks secrets, opens
//! log groups and so on.
pub mod escape;
pub mod encode;
pub mod command;
pub mod event;
