//! The verified core of a binding to a line-editing library.
//!
//! - [`cache`]: the completion candidates of the request in flight, which the
//!   editor drains one index at a time;
//! - [`completer`]: a sample completer and the entry function that serves it;
//! - [`history`]: which lines the history records, where an entry is found,
//!   and which file calls reach the editor;
//! - [`cstring`]: text as the editor takes it, closed by a NUL;
//! - [`status`]: the editor's status codes as results;
//! - [`variables`]: the editor's integer variables as plain values.
//!
//! Nothing here calls the editor: the binding does, and hands the functions
//! of this library what it read.

pub mod cache;
pub mod completer;
pub mod cstring;
pub mod history;
pub mod status;
pub mod variables;

pub use cache::get_compentry;
pub use cache::set_compentries;
pub use cache::CandidateCache;
pub use variables::history_base;
pub use variables::history_length;
pub use variables::rl_point;
pub use variables::rl_readline_version;
pub use variables::Variables;
