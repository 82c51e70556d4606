//! The verified core of a thread requirement surface: deriving a thread's
//! requirement (status, outcome summary, decisions) from its history,
//! answering requirement requests, and laying out the requirement overlay.
pub mod decisions;
pub mod history;
pub mod identity;
pub mod processor;
pub mod protocol;
pub mod requirement;
pub mod source;
pub mod summary;
pub mod summary_law;
pub mod text;
pub mod thread_id;
pub mod view;
