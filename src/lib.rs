//! Process-scheduling core of a small teaching kernel: a linear-scan
//! associative table, task control blocks kept in an arena keyed by pid,
//! a stride scheduler over a ready queue, and the system-call handlers
//! that sit on top of them.

pub mod map;
pub mod task;
pub mod manager;
pub mod syscall;
