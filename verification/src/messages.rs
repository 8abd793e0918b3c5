//! The user-visible messages the command executor and the footer use: each
//! command outcome maps to one transient status line, distinguished as a
//! success only by its content.

use vstd::prelude::*;

use vstd::string::StringExecFns;

use crate::text::{contains_seq, contains_exec, str_chars};
use crate::tmux::ProcessError;

verus! {

/// The message shown when a session was created.
pub fn created_message(name: &str) -> (r: String)
    ensures
        r@ == "Session '"@ + name@ + "' created"@,
{
    let mut m = String::from_str("Session '");
    m.append(name);
    m.append("' created");
    m
}

/// The message shown when creating a session failed.
pub fn create_failed_message(e: &ProcessError) -> (r: String)
    ensures
        r@ == "Failed to create: "@ + e.message_spec(),
{
    let mut m = String::from_str("Failed to create: ");
    m.append(e.message().as_str());
    m
}

/// The message shown when a session was deleted.
pub fn deleted_message() -> (r: String)
    ensures
        r@ == "Session deleted"@,
{
    String::from_str("Session deleted")
}

/// The message shown when deleting a session failed.
pub fn delete_failed_message(e: &ProcessError) -> (r: String)
    ensures
        r@ == "Failed to delete: "@ + e.message_spec(),
{
    let mut m = String::from_str("Failed to delete: ");
    m.append(e.message().as_str());
    m
}

/// The message shown when the foreground attach could not be run.
pub fn attach_failed_message(reason: &str) -> (r: String)
    ensures
        r@ == "Failed to attach: "@ + reason@,
{
    let mut m = String::from_str("Failed to attach: ");
    m.append(reason);
    m
}

/// The message shown when the skeleton reached the clipboard.
pub fn skeleton_copied_message() -> (r: String)
    ensures
        r@ == "Skeleton copied to clipboard!"@,
{
    String::from_str("Skeleton copied to clipboard!")
}

/// The message shown when the clipboard refused the skeleton.
pub fn clipboard_error_message(reason: &str) -> (r: String)
    ensures
        r@ == "Clipboard error: "@ + reason@,
{
    let mut m = String::from_str("Clipboard error: ");
    m.append(reason);
    m
}

/// The message shown when generating the skeleton failed.
pub fn skeleton_error_message(reason: &str) -> (r: String)
    ensures
        r@ == "Skeleton error: "@ + reason@,
{
    let mut m = String::from_str("Skeleton error: ");
    m.append(reason);
    m
}

/// A message that reads as a success: it mentions a copy or a success.
/// Everything else renders as a failure.
pub open spec fn success_message_spec(m: Seq<char>) -> bool {
    contains_seq(m, "copied"@) || contains_seq(m, "success"@)
}

/// Whether a message renders in the success style.
pub fn is_success_message(msg: &str) -> (r: bool)
    ensures
        r == success_message_spec(msg@),
{
    let cs = str_chars(msg);
    let p1 = str_chars("copied");
    if contains_exec(&cs, &p1) {
        return true;
    }
    let p2 = str_chars("success");
    contains_exec(&cs, &p2)
}

} // verus!
