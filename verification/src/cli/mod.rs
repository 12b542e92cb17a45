//! The rules by which command-line input is interpreted.
pub mod exec_run;
pub mod exec_tools;
pub mod serve;
