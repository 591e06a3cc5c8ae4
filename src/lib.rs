//! Directory-change resolution for a shell's `cd` command: path normalization,
//! failure arbitration over several candidates, and the resolve-and-commit
//! protocol, driven step by step by the caller that performs the system calls.

pub mod cdpath;
pub mod failure;
pub mod message;
pub mod path;
pub mod pwd;
pub mod resolve;
pub mod session;
