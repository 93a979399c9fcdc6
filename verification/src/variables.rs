//! The editor's process-wide integer variables, as plain values.

use vstd::prelude::*;

verus! {

/// The editor's integer variables as they stood at one moment.
#[derive(Debug, Clone, Copy, PartialEq, Eq, Structural)]
pub struct Variables {
    /// The logical offset of the first entry of the history list.
    pub history_base: i32,
    /// The number of entries of the history list.
    pub history_length: i32,
    /// The offset of the cursor in the line gathered so far.
    pub rl_point: i32,
    /// The editor's version, as the one integer it reports it in.
    pub rl_readline_version: i32,
}

/// The logical offset of the first entry of the history list.
pub fn history_base(vars: &Variables) -> (base: i32)
    ensures
        base == vars.history_base,
{
    vars.history_base
}

/// The number of entries stored in the history list.
pub fn history_length(vars: &Variables) -> (length: i32)
    ensures
        length == vars.history_length,
{
    vars.history_length
}

/// The offset of the cursor in the line gathered so far.
pub fn rl_point(vars: &Variables) -> (point: i32)
    ensures
        point == vars.rl_point,
{
    vars.rl_point
}

/// The integer that encodes the editor's version.
pub fn rl_readline_version(vars: &Variables) -> (version: i32)
    ensures
        version == vars.rl_readline_version,
{
    vars.rl_readline_version
}

} // verus!
