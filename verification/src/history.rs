//! The decisions taken around the editor's history list: which lines it
//! records, where an entry is found, and when there is anything to persist.

use crate::variables::Variables;
use vstd::prelude::*;
use vstd::string::StrSliceExecFns;

verus! {

/// Whether `c` has the white space property, as `char::is_whitespace` answers.
pub uninterp spec fn is_whitespace(c: char) -> bool;

/// Calls `char::is_whitespace`. Nothing is proved of it: the contract gives
/// its answer the name `is_whitespace` and claims only that the answer
/// depends on the character alone.
#[verifier::external_body]
fn char_is_whitespace(c: char) -> (b: bool)
    ensures
        b == is_whitespace(c),
{
    c.is_whitespace()
}

/// A line the history never records: an empty one, or one that begins with
/// white space.
pub open spec fn blank(line: Seq<char>) -> bool {
    line.len() == 0 || is_whitespace(line[0])
}

/// A line the history records after `last`, its newest entry: one that is not
/// blank and does not repeat that entry.
pub open spec fn recorded(line: Seq<char>, last: Option<Seq<char>>) -> bool {
    !blank(line) && last != Some(line)
}

/// Whether `line` is empty or begins with white space.
pub fn is_blank(line: &str) -> (b: bool)
    ensures
        b == blank(line@),
{
    if line.is_empty() {
        true
    } else {
        char_is_whitespace(line.get_char(0))
    }
}

/// Whether the history records `line` after `last`, where `line_is_blank`
/// says whether the line is blank: a blank line is left out, and so is one
/// equal to `last`.
pub fn keeps(line_is_blank: bool, line: &str, last: &Option<String>) -> (keep: bool)
    ensures
        keep == (!line_is_blank && last.deep_view() != Some(line@)),
{
    if line_is_blank {
        return false;
    }
    match last {
        Some(previous) => !(*previous == line.to_owned()),
        None => true,
    }
}

/// Whether the history records `line` after `last`, its newest entry if it
/// has one.
pub fn accepts(line: &str, last: &Option<String>) -> (keep: bool)
    ensures
        keep == recorded(line@, last.deep_view()),
{
    keeps(is_blank(line), line, last)
}

/// Where the editor keeps the entry at `index`: entries are counted from
/// `base`, and a negative index counts back from the end of a list of
/// `length` entries.
pub open spec fn entry_offset(index: int, length: int, base: int) -> int {
    if index < 0 {
        index + length + base
    } else {
        index + base
    }
}

/// The offset to ask the editor for to get the entry at `index`, or no value
/// where that offset is not an `i32`: no entry is kept there.
pub fn history_offset(vars: &Variables, index: i32) -> (offset: Option<i32>)
    ensures
        offset == (if i32::MIN <= entry_offset(
            index as int,
            vars.history_length as int,
            vars.history_base as int,
        ) <= i32::MAX {
            Some(
                entry_offset(index as int, vars.history_length as int, vars.history_base as int)
                    as i32,
            )
        } else {
            None
        }),
{
    let mut wide: i64 = index as i64;
    if index < 0 {
        wide = wide + vars.history_length as i64;
    }
    wide = wide + vars.history_base as i64;
    if wide < i32::MIN as i64 || wide > i32::MAX as i64 {
        None
    } else {
        Some(wide as i32)
    }
}

/// The calls that move the history list to or from a file.
#[derive(Debug, Clone, Copy, PartialEq, Eq, Structural)]
pub enum FileCall {
    /// Add the lines of a file to the list.
    Read,
    /// Write the list to a file, replacing what the file held.
    Write,
    /// Cut a file down to its last lines.
    Truncate,
    /// Add the last entries of the list to a file.
    Append,
}

/// Whether `call` is handed to the editor when the list has `length`
/// entries. An empty list is neither written nor appended: those two calls
/// then succeed without the editor being asked. Reading and truncating always
/// go to the editor.
pub open spec fn reaches_editor(call: FileCall, length: int) -> bool {
    match call {
        FileCall::Write | FileCall::Append => length != 0,
        FileCall::Read | FileCall::Truncate => true,
    }
}

/// Whether `call` is to be handed to the editor, the list being as `vars`
/// has it. Where it is not, the call has succeeded.
pub fn makes_call(call: FileCall, vars: &Variables) -> (made: bool)
    ensures
        made == reaches_editor(call, vars.history_length as int),
{
    match call {
        FileCall::Write | FileCall::Append => vars.history_length != 0,
        FileCall::Read | FileCall::Truncate => true,
    }
}

} // verus!
